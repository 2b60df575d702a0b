//! The pairing payload: the connection URL a phone opens, and its
//! rendering as a scannable QR image carried as a base64 data URL.
//! Enabling the service issues a fresh token and returns that
//! payload; disabling revokes the token.

use vstd::prelude::*;
use vstd::string::StringExecFns;
use base64::Engine;
use crate::text::u16_to_dec;
use crate::text::spec_dec;
use crate::text::lemma_dec_digits;
use crate::text::is_digit;
use crate::text::str_to_chars;
use crate::text::chars_to_string;
use crate::text::subvec;
use crate::server::RemoteServer;

verus! {

/// The pairing URL: fixed scheme and path, the host address and port
/// in the authority, the token as the single query parameter.
pub open spec fn spec_build_url(token: Seq<char>, host: Seq<char>, port: int) -> Seq<char> {
    "http://"@ + host + ":"@ + spec_dec(port) + "/remote?token="@ + token
}

/// Builds the pairing URL for a token, a host address and a port.
pub fn build_url(token: &str, host: &str, port: u16) -> (r: String)
    ensures
        r@ == spec_build_url(token@, host@, port as int),
{
    let mut s = String::from_str("http://");
    s.append(host);
    s.append(":");
    let d = u16_to_dec(port);
    s.append(d.as_str());
    s.append("/remote?token=");
    s.append(token);
    s
}

/// Index of the first occurrence of `c`, or the length if absent.
pub open spec fn spec_find_char(s: Seq<char>, c: char) -> int
    decreases s.len(),
{
    if s.len() == 0 {
        0
    } else if s[0] == c {
        0
    } else {
        1 + spec_find_char(s.drop_first(), c)
    }
}

/// The first occurrence decides the find: if nothing before `k`
/// matches and `k` is a match (or the end), the find is `k`.
pub proof fn lemma_find_char_at(s: Seq<char>, c: char, k: int)
    requires
        0 <= k <= s.len(),
        forall|i: int| 0 <= i < k ==> s[i] != c,
        k == s.len() || s[k] == c,
    ensures
        spec_find_char(s, c) == k,
    decreases s.len(),
{
    if s.len() > 0 && k > 0 {
        assert(s[0] != c);
        assert forall|i: int| 0 <= i < k - 1 implies s.drop_first()[i] != c by {
            assert(s.drop_first()[i] == s[i + 1]);
        }
        assert(k - 1 == s.drop_first().len() || s.drop_first()[k - 1] == c);
        lemma_find_char_at(s.drop_first(), c, k - 1);
    }
}

/// The token read back out of a URL: everything after the first
/// `?token=`, provided the first `?` is followed by `token=`.
pub open spec fn spec_parse_url_token(s: Seq<char>) -> Option<Seq<char>> {
    let i = spec_find_char(s, '?');
    if i + 7 <= s.len() && s.subrange(i + 1, i + 7) == "token="@ {
        Some(s.subrange(i + 7, s.len() as int))
    } else {
        None
    }
}

/// Reads the token back out of a pairing URL.
pub fn parse_url_token(url: &str) -> (r: Option<String>)
    ensures
        match r {
            Some(t) => spec_parse_url_token(url@) == Some(t@),
            None => spec_parse_url_token(url@) is None,
        },
{
    let cs = str_to_chars(url);
    let mut i: usize = 0;
    while i < cs.len() && cs[i] != '?'
        invariant
            i <= cs@.len(),
            cs@ == url@,
            forall|j: int| 0 <= j < i ==> cs@[j] != '?',
        decreases cs@.len() - i,
    {
        i += 1;
    }
    proof {
        lemma_find_char_at(url@, '?', i as int);
    }
    if cs.len() - i < 7 {
        return None;
    }
    let marker = subvec(&cs, i + 1, i + 7);
    if !crate::json::chars_eq_lit(&marker, "token=") {
        return None;
    }
    let t = chars_to_string(&cs, i + 7, cs.len());
    Some(t)
}

/// Round trip: parsing a built pairing URL yields the token it was
/// built with, whatever the token, for any host address free of `?`
/// (an IP address always is).
pub proof fn lemma_url_round_trip(token: Seq<char>, host: Seq<char>, port: int)
    requires
        port >= 0,
        forall|i: int| 0 <= i < host.len() ==> host[i] != '?',
    ensures
        spec_parse_url_token(spec_build_url(token, host, port)) == Some(token),
{
    reveal_strlit("http://");
    reveal_strlit(":");
    reveal_strlit("/remote?token=");
    reveal_strlit("token=");
    let url = spec_build_url(token, host, port);
    let a = "http://"@ + host + ":"@ + spec_dec(port);
    let k: int = a.len() as int + 7;
    lemma_dec_digits(port);
    assert forall|i: int| 0 <= i < k implies url[i] != '?' by {
        if i < a.len() {
            assert(url[i] == a[i]);
            if 7 <= i < 7 + host.len() {
                assert(a[i] == host[i - 7]);
            } else if 7 + host.len() + 1 <= i {
                assert(a[i] == spec_dec(port)[i - (7 + host.len() + 1)]);
                assert(is_digit(a[i]));
            }
        } else {
            assert(url[i] == "/remote?token="@[i - a.len()]);
        }
    }
    assert(url[k] == "/remote?token="@[7]);
    assert(url[k] == '?');
    lemma_find_char_at(url, '?', k);
    assert(url.subrange(k + 1, k + 7) =~= "token="@);
    assert(url.subrange(k + 7, url.len() as int) =~= token);
}

pub uninterp spec fn qr_png_of(url: Seq<char>) -> Seq<u8>;

pub uninterp spec fn qr_encodable(url: Seq<char>) -> bool;

/// Relies on qrcode's QrCode::new and its render builder, and on
/// image's PNG encoder: a QR code of the URL's bytes, rendered at no
/// less than 200 by 200 pixels and encoded as PNG. The rendering is
/// a function of the URL text alone, and whether the text fits a QR
/// code at all — named `qr_encodable` — depends on the text alone
/// too: QrCode::new fails exactly on over-capacity data, and the
/// deterministic render of a code it accepted always PNG-encodes.
#[verifier::external_body]
fn qr_png(url: &str) -> (r: Result<Vec<u8>, String>)
    ensures
        r is Ok <==> qr_encodable(url@),
        r matches Ok(b) ==> b@ == qr_png_of(url@),
{
    let code = match qrcode::QrCode::new(url.as_bytes()) {
        Ok(c) => c,
        Err(e) => return Err(e.to_string()),
    };
    let img = code.render::<image::Luma<u8>>().min_dimensions(200, 200).build();
    let mut out = std::io::Cursor::new(Vec::new());
    match img.write_to(&mut out, image::ImageFormat::Png) {
        Ok(()) => Ok(out.into_inner()),
        Err(e) => Err(e.to_string()),
    }
}

pub open spec fn spec_b64_alphabet() -> Seq<char> {
    seq![
        'A', 'B', 'C', 'D', 'E', 'F', 'G', 'H', 'I', 'J', 'K', 'L', 'M', 'N', 'O', 'P',
        'Q', 'R', 'S', 'T', 'U', 'V', 'W', 'X', 'Y', 'Z', 'a', 'b', 'c', 'd', 'e', 'f',
        'g', 'h', 'i', 'j', 'k', 'l', 'm', 'n', 'o', 'p', 'q', 'r', 's', 't', 'u', 'v',
        'w', 'x', 'y', 'z', '0', '1', '2', '3', '4', '5', '6', '7', '8', '9', '+', '/',
    ]
}

pub open spec fn spec_b64_char(v: int) -> char {
    spec_b64_alphabet()[v]
}

/// Standard base64 with padding: three bytes become four alphabet
/// characters; a final one or two bytes are padded with `=`.
pub open spec fn spec_base64(b: Seq<u8>) -> Seq<char>
    decreases b.len(),
{
    if b.len() == 0 {
        Seq::empty()
    } else if b.len() == 1 {
        let b0 = b[0] as int;
        seq![spec_b64_char(b0 / 4), spec_b64_char((b0 % 4) * 16), '=', '=']
    } else if b.len() == 2 {
        let b0 = b[0] as int;
        let b1 = b[1] as int;
        seq![
            spec_b64_char(b0 / 4),
            spec_b64_char((b0 % 4) * 16 + b1 / 16),
            spec_b64_char((b1 % 16) * 4),
            '=',
        ]
    } else {
        let b0 = b[0] as int;
        let b1 = b[1] as int;
        let b2 = b[2] as int;
        seq![
            spec_b64_char(b0 / 4),
            spec_b64_char((b0 % 4) * 16 + b1 / 16),
            spec_b64_char((b1 % 16) * 4 + b2 / 64),
            spec_b64_char(b2 % 64),
        ] + spec_base64(b.skip(3))
    }
}

/// Relies on base64's STANDARD engine: the standard alphabet, with
/// `=` padding.
#[verifier::external_body]
fn base64_encode(b: &Vec<u8>) -> (r: String)
    ensures
        r@ == spec_base64(b@),
{
    base64::engine::general_purpose::STANDARD.encode(b)
}

/// Wraps PNG bytes as a self-describing base64 data URL.
pub fn qr_data_url(png: &Vec<u8>) -> (r: String)
    ensures
        r@ == "data:image/png;base64,"@ + spec_base64(png@),
{
    let b64 = base64_encode(png);
    let mut s = String::from_str("data:image/png;base64,");
    s.append(b64.as_str());
    s
}

/// Renders a URL as a scannable QR image, returned as a base64 PNG
/// data URL. Succeeds exactly when the URL fits a QR code; an input
/// that does not is a reported error, never a crash.
pub fn generate_qr_code(url: &str) -> (r: Result<String, String>)
    ensures
        r is Ok <==> qr_encodable(url@),
        r matches Ok(s) ==> s@ == "data:image/png;base64,"@ + spec_base64(qr_png_of(url@)),
{
    match qr_png(url) {
        Ok(png) => Ok(qr_data_url(&png)),
        Err(e) => Err(e),
    }
}

/// Relies on local_ip_address::local_ip for the machine's LAN
/// address: the rendered form of whatever address the machine
/// reports, or an error when none is discoverable. Which of the two
/// comes back is a machine fact and stays unstated. Of the value
/// only the rendering's shape is assumed: an IP address renders as
/// digits, hex letters, dots and colons, never a `?`; and each of
/// the crate's three error renderings begins with a fixed sentence
/// of its own, so neither equals this library's two error messages.
#[verifier::external_body]
pub fn get_local_ip() -> (r: Result<String, String>)
    ensures
        r matches Ok(ip) ==> forall|i: int| 0 <= i < ip@.len() ==> ip@[i] != '?',
        r matches Err(e) ==> e@ != "Remote control not enabled"@ && e@
            != "No token available"@,
{
    local_ip_address::local_ip().map(|ip| ip.to_string()).map_err(|e| e.to_string())
}

/// The character sequence of the token slot, empty when none is set.
pub open spec fn token_text(token: Option<String>) -> Seq<char> {
    match token {
        Some(t) => t@,
        None => Seq::empty(),
    }
}

/// Enables remote control: always issues a fresh token (revoking any
/// prior one), marks the service enabled once the LAN address is
/// known, and returns the pairing payload for the new token.
pub fn enable_remote(server: &mut RemoteServer) -> (r: Result<String, String>)
    ensures
        final(server).token is Some,
        final(server).port == old(server).port,
        final(server).radio_state == old(server).radio_state,
        final(server).command_queue == old(server).command_queue,
        old(server).enabled ==> final(server).enabled,
        r matches Ok(s) ==> final(server).enabled && (exists|ip: Seq<char>|
            qr_encodable(
                spec_build_url(token_text(final(server).token), ip, final(server).port as int),
            ) && s@ == "data:image/png;base64,"@ + spec_base64(
                qr_png_of(
                    spec_build_url(
                        token_text(final(server).token),
                        ip,
                        final(server).port as int,
                    ),
                ),
            )),
{
    let token = server.generate_token();
    let ip = match get_local_ip() {
        Ok(ip) => ip,
        Err(e) => {
            return Err(e);
        },
    };
    let url = build_url(token.as_str(), ip.as_str(), server.port);
    server.enabled = true;
    match generate_qr_code(url.as_str()) {
        Ok(s) => {
            proof {
                assert(exists|ipx: Seq<char>|
                    qr_encodable(
                        spec_build_url(token_text(server.token), ipx, server.port as int),
                    ) && s@ == "data:image/png;base64,"@ + spec_base64(
                        qr_png_of(
                            spec_build_url(
                                token_text(server.token),
                                ipx,
                                server.port as int,
                            ),
                        ),
                    )) by {
                    assert(qr_encodable(
                        spec_build_url(token_text(server.token), ip@, server.port as int),
                    ) && s@ == "data:image/png;base64,"@ + spec_base64(
                        qr_png_of(
                            spec_build_url(token_text(server.token), ip@, server.port as int),
                        ),
                    ));
                }
            }
            Ok(s)
        },
        Err(e) => Err(e),
    }
}

/// The pairing URL for the current token. It fails with its first
/// message exactly when the service is disabled, with its second
/// exactly when the service is enabled but no token is set, and
/// otherwise only when the machine reports no LAN address (that
/// error comes back verbatim and equals neither message). On
/// success the URL has the documented shape, and parsing it back
/// yields exactly the current token.
pub fn get_remote_url(server: &RemoteServer) -> (r: Result<String, String>)
    ensures
        !server.enabled ==> (r matches Err(e) && e@ == "Remote control not enabled"@),
        server.enabled && server.token is None ==> (r matches Err(e) && e@
            == "No token available"@),
        r matches Err(e) ==> (e@ == "Remote control not enabled"@ <==> !server.enabled),
        r matches Err(e) ==> (e@ == "No token available"@ <==> (server.enabled
            && server.token is None)),
        r matches Ok(u) ==> server.enabled && server.token is Some && (exists|ip: Seq<char>|
            u@ == spec_build_url(token_text(server.token), ip, server.port as int)),
        r matches Ok(u) ==> spec_parse_url_token(u@) == Some(token_text(server.token)),
{
    proof {
        reveal_strlit("Remote control not enabled");
        reveal_strlit("No token available");
        assert("Remote control not enabled"@.len() != "No token available"@.len());
    }
    if !server.enabled {
        return Err(String::from_str("Remote control not enabled"));
    }
    match &server.token {
        Some(t) => {
            let ip = match get_local_ip() {
                Ok(ip) => ip,
                Err(e) => {
                    return Err(e);
                },
            };
            let u = build_url(t.as_str(), ip.as_str(), server.port);
            proof {
                assert(exists|ipx: Seq<char>|
                    u@ == spec_build_url(token_text(server.token), ipx, server.port as int))
                    by {
                    assert(u@ == spec_build_url(
                        token_text(server.token),
                        ip@,
                        server.port as int,
                    ));
                }
                lemma_url_round_trip(t@, ip@, server.port as int);
            }
            Ok(u)
        },
        None => Err(String::from_str("No token available")),
    }
}

/// Disables remote control and revokes the token. Already-open
/// sessions are not forcibly closed.
pub fn disable_remote(server: &mut RemoteServer)
    ensures
        !final(server).enabled,
        final(server).token is None,
        final(server).port == old(server).port,
        final(server).radio_state == old(server).radio_state,
        final(server).command_queue == old(server).command_queue,
{
    server.enabled = false;
    server.invalidate_token();
}

} // verus!
