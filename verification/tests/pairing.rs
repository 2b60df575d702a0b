use base64::Engine;
use radio_remote::pairing::build_url;
use radio_remote::pairing::disable_remote;
use radio_remote::pairing::enable_remote;
use radio_remote::pairing::generate_qr_code;
use radio_remote::pairing::get_local_ip;
use radio_remote::pairing::get_remote_url;
use radio_remote::pairing::parse_url_token;
use radio_remote::pairing::qr_data_url;
use radio_remote::server::RemoteServer;

#[test]
fn url_has_the_documented_shape() {
    let url = build_url("abc123", "192.168.1.7", 8331);
    assert_eq!(url, "http://192.168.1.7:8331/remote?token=abc123");
}

#[test]
fn url_round_trips_its_token() {
    for token in ["abc123", "", "x-y-z", "t?k=n", "0123456789abcdef"] {
        let url = build_url(token, "10.0.0.2", 8331);
        assert_eq!(parse_url_token(&url).as_deref(), Some(token), "token {token:?}");
    }
}

#[test]
fn parse_rejects_urls_without_token_parameter() {
    assert_eq!(parse_url_token("http://10.0.0.2:8331/remote"), None);
    assert_eq!(parse_url_token("http://10.0.0.2:8331/remote?tok=abc"), None);
    assert_eq!(parse_url_token(""), None);
}

#[test]
fn data_url_is_prefixed_standard_base64() {
    assert_eq!(qr_data_url(&vec![77, 97, 110]), "data:image/png;base64,TWFu");
    assert_eq!(qr_data_url(&vec![77, 97]), "data:image/png;base64,TWE=");
    assert_eq!(qr_data_url(&vec![77]), "data:image/png;base64,TQ==");
    assert_eq!(qr_data_url(&Vec::new()), "data:image/png;base64,");
}

#[test]
fn qr_code_is_a_png_image() {
    let payload = generate_qr_code("http://192.168.1.7:8331/remote?token=abc123")
        .expect("a short ASCII URL encodes");
    let b64 = payload.strip_prefix("data:image/png;base64,").expect("data URL prefix");
    let png = base64::engine::general_purpose::STANDARD.decode(b64).expect("valid base64");
    assert_eq!(&png[..8], &[0x89, b'P', b'N', b'G', 0x0d, 0x0a, 0x1a, 0x0a], "PNG signature");
    assert!(png.len() > 100, "a rendered image, not the URL handed back");
}

#[test]
fn enable_issues_token_and_disable_revokes_it() {
    let mut srv = RemoteServer::new();
    let outcome = enable_remote(&mut srv);
    let token = srv.token.clone().expect("enable always issues a token");
    assert!(srv.validate_token(&token));
    match outcome {
        Ok(payload) => {
            assert!(srv.status());
            assert!(payload.starts_with("data:image/png;base64,"));
            let url = get_remote_url(&srv).expect("enabled with a token and an address");
            assert_eq!(parse_url_token(&url).as_deref(), Some(token.as_str()));
        },
        Err(_) => {
            // No LAN address is discoverable on this machine; enabling
            // cannot produce a pairing payload here.
        },
    }
    disable_remote(&mut srv);
    assert!(!srv.status());
    assert!(srv.token.is_none());
    assert!(!srv.validate_token(&token));
    assert!(get_remote_url(&srv).is_err());
}

#[test]
fn get_remote_url_requires_enabled() {
    let srv = RemoteServer::new();
    assert_eq!(get_remote_url(&srv).unwrap_err(), "Remote control not enabled");
}

#[test]
fn get_remote_url_requires_a_token() {
    let mut srv = RemoteServer::new();
    srv.enabled = true;
    assert_eq!(get_remote_url(&srv).unwrap_err(), "No token available");
}

#[test]
fn local_ip_reports_text_or_error() {
    match get_local_ip() {
        Ok(ip) => assert!(!ip.is_empty()),
        Err(e) => assert!(!e.is_empty()),
    }
}
