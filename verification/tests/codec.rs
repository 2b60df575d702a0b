use radio_remote::json::parse_command;
use radio_remote::json::server_message_json;
use radio_remote::json::state_message;
use radio_remote::messages::RadioState;
use radio_remote::messages::RemoteCommand;
use radio_remote::messages::ServerMessage;

#[test]
fn parses_every_fixed_command() {
    assert!(matches!(parse_command("{\"type\":\"next\"}"), RemoteCommand::Next));
    assert!(matches!(parse_command("{\"type\":\"prev\"}"), RemoteCommand::Previous));
    assert!(matches!(parse_command("{\"type\":\"play\"}"), RemoteCommand::Play));
    assert!(matches!(parse_command("{\"type\":\"pause\"}"), RemoteCommand::Pause));
    assert!(matches!(parse_command("{\"type\":\"togglePlay\"}"), RemoteCommand::TogglePlay));
    assert!(matches!(parse_command("{\"type\":\"mute\"}"), RemoteCommand::Mute));
    assert!(matches!(parse_command("{\"type\":\"unmute\"}"), RemoteCommand::Unmute));
    assert!(matches!(parse_command("{\"type\":\"favourite\"}"), RemoteCommand::Favourite));
    assert!(matches!(parse_command("{\"type\":\"getState\"}"), RemoteCommand::GetState));
}

#[test]
fn parses_auth_token() {
    match parse_command("{\"type\":\"auth\",\"token\":\"abc123\"}") {
        RemoteCommand::Auth { token } => assert_eq!(token, "abc123"),
        _ => panic!("expected auth"),
    }
    match parse_command("{\"type\":\"auth\",\"token\":\"\"}") {
        RemoteCommand::Auth { token } => assert_eq!(token, ""),
        _ => panic!("expected auth with empty token"),
    }
}

#[test]
fn parses_volume_value() {
    match parse_command("{\"type\":\"volume\",\"value\":0.42}") {
        RemoteCommand::Volume { value } => assert_eq!(value, "0.42"),
        _ => panic!("expected volume"),
    }
    match parse_command("{\"type\":\"volume\",\"value\":1}") {
        RemoteCommand::Volume { value } => assert_eq!(value, "1"),
        _ => panic!("expected volume"),
    }
}

#[test]
fn malformed_frames_decode_to_unknown() {
    for bad in [
        "",
        "next",
        "{\"type\":\"launchMissiles\"}",
        "{\"type\":\"volume\",\"value\":loud}",
        "{\"type\":\"volume\",\"value\":}",
        "{\"type\":\"auth\",\"token\":\"a\\\"b\"}",
        "{\"type\":\"auth\"}",
        "{'type':'next'}",
        "{\"type\":\"next\"",
        "{\"type\" \"next\"}",
        "{\"type\":\"ne xt\"}",
    ] {
        assert!(
            matches!(parse_command(bad), RemoteCommand::Unknown),
            "{bad:?} must be ignored"
        );
    }
}

#[test]
fn whitespace_is_insignificant_outside_strings() {
    assert!(matches!(parse_command("{\"type\": \"next\"}"), RemoteCommand::Next));
    assert!(matches!(parse_command(" {\"type\":\"getState\"} "), RemoteCommand::GetState));
    assert!(matches!(
        parse_command("{\n\t\"type\": \"togglePlay\"\r\n}"),
        RemoteCommand::TogglePlay
    ));
    match parse_command("{ \"type\" : \"volume\" , \"value\" : 0.42 }") {
        RemoteCommand::Volume { value } => assert_eq!(value, "0.42"),
        _ => panic!("expected volume"),
    }
    match parse_command("{\"type\": \"auth\", \"token\": \"a b\"}") {
        RemoteCommand::Auth { token } => {
            assert_eq!(token, "a b", "whitespace inside a string is kept")
        },
        _ => panic!("expected auth"),
    }
}

#[test]
fn two_field_messages_accept_either_field_order() {
    match parse_command("{\"token\":\"abc123\",\"type\":\"auth\"}") {
        RemoteCommand::Auth { token } => assert_eq!(token, "abc123"),
        _ => panic!("expected auth"),
    }
    match parse_command("{\"value\": 0.7, \"type\": \"volume\"}") {
        RemoteCommand::Volume { value } => assert_eq!(value, "0.7"),
        _ => panic!("expected volume"),
    }
    assert!(matches!(
        parse_command("{\"value\":bad,\"type\":\"volume\"}"),
        RemoteCommand::Unknown
    ));
}

#[test]
fn auth_result_serializes_exactly() {
    let ok = ServerMessage::AuthResult { success: true, message: "Connected".to_string() };
    assert_eq!(
        server_message_json(&ok),
        "{\"type\":\"authResult\",\"success\":true,\"message\":\"Connected\"}"
    );
    let no = ServerMessage::AuthResult { success: false, message: "Invalid token".to_string() };
    assert_eq!(
        server_message_json(&no),
        "{\"type\":\"authResult\",\"success\":false,\"message\":\"Invalid token\"}"
    );
}

#[test]
fn state_serializes_exactly() {
    let st = RadioState::new(
        "st1".to_string(),
        "Radio One".to_string(),
        "UK".to_string(),
        "0.42".to_string(),
        true,
        false,
    )
    .unwrap();
    assert_eq!(
        state_message(&st),
        "{\"type\":\"state\",\"station_id\":\"st1\",\"station_name\":\"Radio One\",\
         \"country\":\"UK\",\"volume\":0.42,\"playing\":true,\"muted\":false}"
    );
}

#[test]
fn serialized_strings_are_escaped() {
    let st = RadioState::new(
        String::new(),
        "Say \"hi\"\\now".to_string(),
        "A\nB".to_string(),
        "1".to_string(),
        false,
        true,
    )
    .unwrap();
    let out = state_message(&st);
    assert!(out.contains("\"station_name\":\"Say \\\"hi\\\"\\\\now\""));
    assert!(out.contains("\"country\":\"A\\nB\""));
}

#[test]
fn command_and_error_messages_serialize() {
    let c = ServerMessage::Command { action: "next".to_string() };
    assert_eq!(server_message_json(&c), "{\"type\":\"command\",\"action\":\"next\"}");
    let e = ServerMessage::Error { message: "boom".to_string() };
    assert_eq!(server_message_json(&e), "{\"type\":\"error\",\"message\":\"boom\"}");
}

#[test]
fn round_trip_canonical_frames() {
    let msgs = ["{\"type\":\"next\"}", "{\"type\":\"volume\",\"value\":0.07}"];
    for m in msgs {
        let cmd = parse_command(m);
        assert!(!matches!(cmd, RemoteCommand::Unknown));
    }
}

#[test]
fn serializer_output_is_valid_json() {
    let st = RadioState::new(
        "id \"x\"".to_string(),
        "N\tame".to_string(),
        "C\u{1}D".to_string(),
        "0.5".to_string(),
        false,
        false,
    )
    .unwrap();
    let out = state_message(&st);
    let v: serde_json::Value = serde_json::from_str(&out).expect("well-formed JSON");
    assert_eq!(v["type"], "state");
    assert_eq!(v["station_id"], "id \"x\"");
    assert_eq!(v["station_name"], "N\tame");
    assert_eq!(v["country"], "C\u{1}D");
    assert_eq!(v["volume"], 0.5);
}
