use radio_remote::messages::RadioState;
use radio_remote::server::RemoteServer;
use radio_remote::session::on_connect;
use radio_remote::session::on_frame;
use radio_remote::session::SessionPhase;
use radio_remote::json::state_message;

fn server_with_token(token: &str) -> RemoteServer {
    let mut s = RemoteServer::new();
    s.token = Some(token.to_string());
    s.enabled = true;
    s
}

fn sample_state() -> RadioState {
    RadioState::new(
        "st9".to_string(),
        "Night FM".to_string(),
        "DE".to_string(),
        "0.8".to_string(),
        true,
        false,
    )
    .unwrap()
}

#[test]
fn scenario_a_valid_token_gets_ack_then_snapshot() {
    let mut srv = server_with_token("abc123");
    srv.update_state(sample_state());
    let (session, msgs) = on_connect(&srv, Some("abc123".to_string()));
    assert!(matches!(session.phase, SessionPhase::Authenticated));
    assert_eq!(msgs.len(), 2);
    assert_eq!(
        msgs[0],
        "{\"type\":\"authResult\",\"success\":true,\"message\":\"Connected\"}"
    );
    assert_eq!(msgs[1], state_message(&srv.get_state()));
    assert!(msgs[1].contains("\"station_name\":\"Night FM\""));
}

#[test]
fn scenario_b_wrong_token_is_refused_and_closed() {
    let srv = server_with_token("abc123");
    let (session, msgs) = on_connect(&srv, Some("wrong".to_string()));
    assert!(matches!(session.phase, SessionPhase::Closed));
    assert_eq!(msgs.len(), 1, "no further messages after the refusal");
    assert_eq!(
        msgs[0],
        "{\"type\":\"authResult\",\"success\":false,\"message\":\"Invalid token\"}"
    );
}

#[test]
fn missing_token_is_refused_immediately() {
    let srv = server_with_token("abc123");
    let (session, msgs) = on_connect(&srv, None);
    assert!(matches!(session.phase, SessionPhase::Closed));
    assert_eq!(msgs.len(), 1);
    assert_eq!(
        msgs[0],
        "{\"type\":\"authResult\",\"success\":false,\"message\":\"No token provided\"}"
    );
}

#[test]
fn scenario_c_volume_frame_queues_composite_action() {
    let mut srv = server_with_token("abc123");
    let (session, _) = on_connect(&srv, Some("abc123".to_string()));
    let publish = on_frame(&mut srv, &session, "{\"type\":\"volume\",\"value\":0.42}");
    assert!(publish.is_none());
    assert_eq!(srv.pop_command().as_deref(), Some("volume:0.42"));
    assert_eq!(srv.pop_command(), None);
}

#[test]
fn scenario_d_both_sessions_see_the_same_update() {
    let mut srv = server_with_token("abc123");
    let (s1, _) = on_connect(&srv, Some("abc123".to_string()));
    let (s2, _) = on_connect(&srv, Some("abc123".to_string()));
    assert!(matches!(s1.phase, SessionPhase::Authenticated));
    assert!(matches!(s2.phase, SessionPhase::Authenticated));
    let new_state = sample_state();
    srv.update_state(new_state);
    // Each admitted session forwards the published snapshot by
    // serializing it; both deliveries are the same message.
    let delivered_1 = state_message(&srv.get_state());
    let delivered_2 = state_message(&srv.get_state());
    assert_eq!(delivered_1, delivered_2);
    assert!(delivered_1.contains("\"type\":\"state\""));
    assert!(delivered_1.contains("\"volume\":0.8"));
}

#[test]
fn scenario_e_get_state_publishes_without_queuing() {
    let mut srv = server_with_token("abc123");
    srv.update_state(sample_state());
    let (session, _) = on_connect(&srv, Some("abc123".to_string()));
    let publish = on_frame(&mut srv, &session, "{\"type\":\"getState\"}");
    let snapshot = publish.expect("getState republishes the current snapshot");
    assert_eq!(state_message(&snapshot), state_message(&srv.get_state()));
    assert_eq!(srv.pop_command(), None, "no command is queued");
}

#[test]
fn control_frames_queue_their_symbolic_names() {
    let mut srv = server_with_token("abc123");
    let (session, _) = on_connect(&srv, Some("abc123".to_string()));
    for (frame, action) in [
        ("{\"type\":\"next\"}", "next"),
        ("{\"type\":\"prev\"}", "prev"),
        ("{\"type\":\"play\"}", "play"),
        ("{\"type\":\"pause\"}", "pause"),
        ("{\"type\":\"togglePlay\"}", "togglePlay"),
        ("{\"type\":\"mute\"}", "mute"),
        ("{\"type\":\"unmute\"}", "unmute"),
        ("{\"type\":\"favourite\"}", "favourite"),
    ] {
        assert!(on_frame(&mut srv, &session, frame).is_none());
        assert_eq!(srv.pop_command().as_deref(), Some(action), "for {frame}");
    }
}

#[test]
fn unknown_and_auth_frames_change_nothing() {
    let mut srv = server_with_token("abc123");
    let (session, _) = on_connect(&srv, Some("abc123".to_string()));
    assert!(on_frame(&mut srv, &session, "garbage").is_none());
    assert!(on_frame(&mut srv, &session, "{\"type\":\"auth\",\"token\":\"abc123\"}").is_none());
    assert!(on_frame(&mut srv, &session, "{\"type\":\"auth\",\"token\":\"wrong\"}").is_none());
    assert_eq!(srv.pop_command(), None);
}

#[test]
fn late_subscriber_starts_from_latest_snapshot() {
    let mut srv = server_with_token("abc123");
    let older = RadioState::new(
        "a".to_string(),
        "Old".to_string(),
        "FR".to_string(),
        "0.1".to_string(),
        false,
        false,
    )
    .unwrap();
    srv.update_state(older);
    srv.update_state(sample_state());
    let (_, msgs) = on_connect(&srv, Some("abc123".to_string()));
    assert!(msgs[1].contains("\"station_name\":\"Night FM\""), "never an older snapshot");
    assert!(!msgs[1].contains("Old"));
}
