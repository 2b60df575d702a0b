use radio_remote::messages::RadioState;
use radio_remote::server::RemoteServer;

fn state(id: &str, name: &str, country: &str, volume: &str, playing: bool, muted: bool) -> RadioState {
    RadioState::new(
        id.to_string(),
        name.to_string(),
        country.to_string(),
        volume.to_string(),
        playing,
        muted,
    )
    .expect("well-formed state")
}

#[test]
fn fresh_server_is_disabled_with_no_token() {
    let s = RemoteServer::new();
    assert!(!s.status());
    assert!(s.token.is_none());
    assert_eq!(s.port, 8331);
    assert!(!s.validate_token("anything"));
}

#[test]
fn generated_token_validates_and_replaces_prior() {
    let mut s = RemoteServer::new();
    let t1 = s.generate_token();
    assert!(s.validate_token(&t1));
    let t2 = s.generate_token();
    assert_ne!(t1, t2, "fresh tokens are distinct");
    assert!(s.validate_token(&t2));
    assert!(!s.validate_token(&t1), "only one token is active at a time");
}

#[test]
fn token_is_36_chars_and_exact_match_only() {
    let mut s = RemoteServer::new();
    let t = s.generate_token();
    assert_eq!(t.chars().count(), 36);
    let mut almost = t.clone();
    almost.pop();
    assert!(!s.validate_token(&almost));
    assert!(!s.validate_token(&format!("{} ", t)));
}

#[test]
fn validate_is_false_before_generate_and_after_invalidate() {
    let mut s = RemoteServer::new();
    assert!(!s.validate_token("abc123"));
    let t = s.generate_token();
    assert!(s.validate_token(&t));
    s.invalidate_token();
    assert!(!s.validate_token(&t));
    assert!(!s.validate_token(""));
}

#[test]
fn update_state_replaces_wholesale() {
    let mut s = RemoteServer::new();
    assert_eq!(s.get_state().station_name, "-");
    assert_eq!(s.get_state().volume, "1.0");
    let st = state("st1", "Radio One", "UK", "0.5", true, false);
    s.update_state(st);
    let got = s.get_state();
    assert_eq!(got.station_id, "st1");
    assert_eq!(got.station_name, "Radio One");
    assert_eq!(got.country, "UK");
    assert_eq!(got.volume, "0.5");
    assert!(got.playing);
    assert!(!got.muted);
}

#[test]
fn commands_pop_in_push_order() {
    let mut s = RemoteServer::new();
    assert_eq!(s.pop_command(), None);
    s.queue_command("next");
    s.queue_command("pause");
    s.queue_command("volume:0.7");
    assert_eq!(s.pop_command().as_deref(), Some("next"));
    assert_eq!(s.pop_command().as_deref(), Some("pause"));
    assert_eq!(s.pop_command().as_deref(), Some("volume:0.7"));
    assert_eq!(s.pop_command(), None);
}

#[test]
fn pop_is_at_most_once_per_item() {
    let mut s = RemoteServer::new();
    s.queue_command("play");
    assert_eq!(s.pop_command().as_deref(), Some("play"));
    assert_eq!(s.pop_command(), None);
}

#[test]
fn volume_text_is_validated() {
    assert!(RadioState::new(
        String::new(),
        "-".to_string(),
        "-".to_string(),
        "0.42".to_string(),
        false,
        false,
    )
    .is_some());
    for ok in ["1", "0", "0.5", "-0.5", "1e-7", "2.5E+10", "10.25"] {
        assert!(
            RadioState::new(String::new(), String::new(), String::new(), ok.to_string(), false, false)
                .is_some(),
            "{ok} is number text"
        );
    }
    for bad in ["", "abc", "007", "0.4.2", ".5", "1.", "--1", "1e", "0x10", " 1"] {
        assert!(
            RadioState::new(String::new(), String::new(), String::new(), bad.to_string(), false, false)
                .is_none(),
            "{bad} is not number text"
        );
    }
}
