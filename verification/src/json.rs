//! The wire codec: serialization of server messages to JSON text, and
//! the grammar of inbound client frames.
//!
//! An inbound frame is first stripped of whitespace outside string
//! literals, then matched against the serialization shapes of the
//! client commands, with the two-field messages (`auth`, `volume`)
//! accepted in either field order. Anything else decodes to
//! `Unknown` and is silently ignored, which keeps the service
//! resilient against protocol drift.

use vstd::prelude::*;
use vstd::string::StringExecFns;
use crate::text::push_char;
use crate::text::str_to_chars;
use crate::text::chars_to_string;
use crate::text::check_number;
use crate::text::is_number_text;
use crate::messages::RadioState;
use crate::messages::RemoteCommand;
use crate::messages::CmdV;
use crate::messages::ServerMessage;

verus! {

pub open spec fn spec_hex_char(d: int) -> char {
    if d == 0 { '0' } else if d == 1 { '1' } else if d == 2 { '2' }
    else if d == 3 { '3' } else if d == 4 { '4' } else if d == 5 { '5' }
    else if d == 6 { '6' } else if d == 7 { '7' } else if d == 8 { '8' }
    else if d == 9 { '9' } else if d == 10 { 'a' } else if d == 11 { 'b' }
    else if d == 12 { 'c' } else if d == 13 { 'd' } else if d == 14 { 'e' }
    else { 'f' }
}

fn hex_char(d: u32) -> (c: char)
    requires
        d < 16,
    ensures
        c == spec_hex_char(d as int),
{
    if d == 0 { '0' } else if d == 1 { '1' } else if d == 2 { '2' }
    else if d == 3 { '3' } else if d == 4 { '4' } else if d == 5 { '5' }
    else if d == 6 { '6' } else if d == 7 { '7' } else if d == 8 { '8' }
    else if d == 9 { '9' } else if d == 10 { 'a' } else if d == 11 { 'b' }
    else if d == 12 { 'c' } else if d == 13 { 'd' } else if d == 14 { 'e' }
    else { 'f' }
}

/// How one character appears inside a JSON string literal: quote,
/// backslash and the common control characters get their short
/// escapes, other control characters a `\u00..` escape, and the rest
/// stand as themselves.
pub open spec fn esc_char(c: char) -> Seq<char> {
    if c == '"' {
        seq!['\\', '"']
    } else if c == '\\' {
        seq!['\\', '\\']
    } else if c == '\n' {
        seq!['\\', 'n']
    } else if c == '\r' {
        seq!['\\', 'r']
    } else if c == '\t' {
        seq!['\\', 't']
    } else if (c as u32) < 32 {
        seq!['\\', 'u', '0', '0', spec_hex_char(c as u32 as int / 16), spec_hex_char(c as u32 as int % 16)]
    } else {
        seq![c]
    }
}

/// A whole string escaped for inclusion in a JSON string literal.
pub open spec fn spec_escape(s: Seq<char>) -> Seq<char>
    decreases s.len(),
{
    if s.len() == 0 {
        Seq::empty()
    } else {
        esc_char(s[0]) + spec_escape(s.drop_first())
    }
}

pub proof fn lemma_escape_push(a: Seq<char>, c: char)
    ensures
        spec_escape(a.push(c)) == spec_escape(a) + esc_char(c),
    decreases a.len(),
{
    if a.len() == 0 {
        assert(a.push(c)[0] == c);
        assert(a.push(c).drop_first() =~= Seq::<char>::empty());
        assert(spec_escape(a.push(c)) == esc_char(c) + spec_escape(Seq::<char>::empty()));
        assert(esc_char(c) + Seq::<char>::empty() =~= esc_char(c));
        assert(spec_escape(a) + esc_char(c) =~= esc_char(c));
    } else {
        assert(a.push(c)[0] == a[0]);
        assert(a.push(c).drop_first() =~= a.drop_first().push(c));
        lemma_escape_push(a.drop_first(), c);
        assert(spec_escape(a.push(c)) == esc_char(a[0]) + (spec_escape(a.drop_first())
            + esc_char(c)));
        assert(esc_char(a[0]) + (spec_escape(a.drop_first()) + esc_char(c)) =~= (esc_char(a[0])
            + spec_escape(a.drop_first())) + esc_char(c));
    }
}

/// Appends the escaped form of `s` to `buf`.
pub fn append_escaped(buf: &mut String, s: &str)
    ensures
        final(buf)@ == old(buf)@ + spec_escape(s@),
{
    let cs = str_to_chars(s);
    let mut i: usize = 0;
    while i < cs.len()
        invariant
            i <= cs@.len(),
            cs@ == s@,
            buf@ == old(buf)@ + spec_escape(s@.take(i as int)),
        decreases cs@.len() - i,
    {
        let c = cs[i];
        proof {
            assert(s@.take(i as int).push(s@[i as int]) =~= s@.take(i + 1 as int));
            lemma_escape_push(s@.take(i as int), s@[i as int]);
        }
        let ghost before = buf@;
        if c == '"' {
            push_char(buf, '\\');
            push_char(buf, '"');
            assert(buf@ =~= before + esc_char(c));
        } else if c == '\\' {
            push_char(buf, '\\');
            push_char(buf, '\\');
            assert(buf@ =~= before + esc_char(c));
        } else if c == '\n' {
            push_char(buf, '\\');
            push_char(buf, 'n');
            assert(buf@ =~= before + esc_char(c));
        } else if c == '\r' {
            push_char(buf, '\\');
            push_char(buf, 'r');
            assert(buf@ =~= before + esc_char(c));
        } else if c == '\t' {
            push_char(buf, '\\');
            push_char(buf, 't');
            assert(buf@ =~= before + esc_char(c));
        } else if (c as u32) < 32 {
            let u = c as u32;
            push_char(buf, '\\');
            push_char(buf, 'u');
            push_char(buf, '0');
            push_char(buf, '0');
            push_char(buf, hex_char(u / 16));
            push_char(buf, hex_char(u % 16));
            assert(buf@ =~= before + esc_char(c));
        } else {
            push_char(buf, c);
            assert(buf@ =~= before + esc_char(c));
        }
        i += 1;
    }
    assert(s@.take(cs@.len() as int) =~= s@);
}

pub open spec fn spec_bool_text(b: bool) -> Seq<char> {
    if b {
        "true"@
    } else {
        "false"@
    }
}

fn append_bool(buf: &mut String, b: bool)
    ensures
        final(buf)@ == old(buf)@ + spec_bool_text(b),
{
    if b {
        buf.append("true");
    } else {
        buf.append("false");
    }
}

/// The authentication acknowledgment sent right after the handshake.
pub open spec fn spec_auth_result_json(success: bool, message: Seq<char>) -> Seq<char> {
    "{\"type\":\"authResult\",\"success\":"@ + spec_bool_text(success) + ",\"message\":\""@
        + spec_escape(message) + "\"}"@
}

/// A playback snapshot as a state-update message. The volume text is
/// spliced in unescaped: it is a JSON number whenever the snapshot is
/// well formed.
pub open spec fn spec_state_json(st: RadioState) -> Seq<char> {
    "{\"type\":\"state\",\"station_id\":\""@ + spec_escape(st.station_id@)
        + "\",\"station_name\":\""@ + spec_escape(st.station_name@) + "\",\"country\":\""@
        + spec_escape(st.country@) + "\",\"volume\":"@ + st.volume@ + ",\"playing\":"@
        + spec_bool_text(st.playing) + ",\"muted\":"@ + spec_bool_text(st.muted) + "}"@
}

pub open spec fn spec_command_json(action: Seq<char>) -> Seq<char> {
    "{\"type\":\"command\",\"action\":\""@ + spec_escape(action) + "\"}"@
}

pub open spec fn spec_error_json(message: Seq<char>) -> Seq<char> {
    "{\"type\":\"error\",\"message\":\""@ + spec_escape(message) + "\"}"@
}

pub open spec fn spec_server_message_json(m: ServerMessage) -> Seq<char> {
    match m {
        ServerMessage::AuthResult { success, message } => spec_auth_result_json(
            success,
            message@,
        ),
        ServerMessage::State(st) => spec_state_json(st),
        ServerMessage::Command { action } => spec_command_json(action@),
        ServerMessage::Error { message } => spec_error_json(message@),
    }
}

/// Serializes one server-to-client message as JSON text.
pub fn server_message_json(m: &ServerMessage) -> (r: String)
    ensures
        r@ == spec_server_message_json(*m),
{
    match m {
        ServerMessage::AuthResult { success, message } => {
            let mut buf = String::new();
            buf.append("{\"type\":\"authResult\",\"success\":");
            assert(buf@ =~= "{\"type\":\"authResult\",\"success\":"@);
            append_bool(&mut buf, *success);
            buf.append(",\"message\":\"");
            append_escaped(&mut buf, message.as_str());
            buf.append("\"}");
            buf
        },
        ServerMessage::State(st) => {
            let mut buf = String::new();
            buf.append("{\"type\":\"state\",\"station_id\":\"");
            assert(buf@ =~= "{\"type\":\"state\",\"station_id\":\""@);
            append_escaped(&mut buf, st.station_id.as_str());
            buf.append("\",\"station_name\":\"");
            append_escaped(&mut buf, st.station_name.as_str());
            buf.append("\",\"country\":\"");
            append_escaped(&mut buf, st.country.as_str());
            buf.append("\",\"volume\":");
            buf.append(st.volume.as_str());
            buf.append(",\"playing\":");
            append_bool(&mut buf, st.playing);
            buf.append(",\"muted\":");
            append_bool(&mut buf, st.muted);
            buf.append("}");
            buf
        },
        ServerMessage::Command { action } => {
            let mut buf = String::new();
            buf.append("{\"type\":\"command\",\"action\":\"");
            assert(buf@ =~= "{\"type\":\"command\",\"action\":\""@);
            append_escaped(&mut buf, action.as_str());
            buf.append("\"}");
            buf
        },
        ServerMessage::Error { message } => {
            let mut buf = String::new();
            buf.append("{\"type\":\"error\",\"message\":\"");
            assert(buf@ =~= "{\"type\":\"error\",\"message\":\""@);
            append_escaped(&mut buf, message.as_str());
            buf.append("\"}");
            buf
        },
    }
}

/// Serializes a playback snapshot as the state-update message every
/// subscriber receives.
pub fn state_message(state: &RadioState) -> (r: String)
    ensures
        r@ == spec_state_json(*state),
{
    server_message_json(&ServerMessage::State(state.duplicate()))
}

pub open spec fn is_json_ws(c: char) -> bool {
    c == ' ' || c == '\t' || c == '\n' || c == '\r'
}

/// The frame with its insignificant whitespace discarded: whitespace
/// outside string literals is dropped, everything inside them (the
/// wire's strings carry no escapes, so quotes simply alternate) is
/// kept.
pub open spec fn spec_strip_ws_from(s: Seq<char>, i: int, in_str: bool) -> Seq<char>
    decreases s.len() - i,
{
    if !(0 <= i < s.len()) {
        Seq::empty()
    } else if s[i] == '"' {
        seq!['"'] + spec_strip_ws_from(s, i + 1, !in_str)
    } else if !in_str && is_json_ws(s[i]) {
        spec_strip_ws_from(s, i + 1, in_str)
    } else {
        seq![s[i]] + spec_strip_ws_from(s, i + 1, in_str)
    }
}

pub open spec fn spec_strip_ws(s: Seq<char>) -> Seq<char> {
    spec_strip_ws_from(s, 0, false)
}

fn strip_ws(cs: &Vec<char>) -> (r: Vec<char>)
    ensures
        r@ == spec_strip_ws(cs@),
{
    let mut out: Vec<char> = Vec::new();
    let mut in_str = false;
    let mut i: usize = 0;
    while i < cs.len()
        invariant
            i <= cs@.len(),
            spec_strip_ws(cs@) == out@ + spec_strip_ws_from(cs@, i as int, in_str),
        decreases cs@.len() - i,
    {
        let c = cs[i];
        let ghost pre_out = out@;
        let ghost f0 = in_str;
        if c == '"' {
            out.push(c);
            in_str = !in_str;
            proof {
                assert(spec_strip_ws_from(cs@, i as int, f0) == seq!['"']
                    + spec_strip_ws_from(cs@, i + 1 as int, !f0));
                assert(out@ =~= pre_out + seq!['"']);
                assert((pre_out + seq!['"']) + spec_strip_ws_from(cs@, i + 1 as int, !f0)
                    =~= pre_out + (seq!['"'] + spec_strip_ws_from(cs@, i + 1 as int, !f0)));
            }
        } else if !in_str && (c == ' ' || c == '\t' || c == '\n' || c == '\r') {
            proof {
                assert(spec_strip_ws_from(cs@, i as int, f0) == spec_strip_ws_from(
                    cs@,
                    i + 1 as int,
                    f0,
                ));
            }
        } else {
            out.push(c);
            proof {
                assert(spec_strip_ws_from(cs@, i as int, f0) == seq![cs@[i as int]]
                    + spec_strip_ws_from(cs@, i + 1 as int, f0));
                assert(out@ =~= pre_out + seq![cs@[i as int]]);
                assert((pre_out + seq![cs@[i as int]]) + spec_strip_ws_from(
                    cs@,
                    i + 1 as int,
                    f0,
                ) =~= pre_out + (seq![cs@[i as int]] + spec_strip_ws_from(
                    cs@,
                    i + 1 as int,
                    f0,
                )));
            }
        }
        i += 1;
    }
    assert(spec_strip_ws_from(cs@, i as int, in_str) =~= Seq::<char>::empty());
    assert(out@ + Seq::<char>::empty() =~= out@);
    out
}

/// The canonical auth frame: the token stands between the fixed
/// prefix and the closing `"}`, and contains neither a quote nor a
/// backslash (a token never needs escaping on this wire).
pub open spec fn auth_shaped(s: Seq<char>) -> bool {
    let p = "{\"type\":\"auth\",\"token\":\""@;
    &&& s.len() >= p.len() + 2
    &&& s.subrange(0, p.len() as int) == p
    &&& s[s.len() - 2] == '"'
    &&& s[s.len() - 1] == '}'
    &&& forall|i: int|
        p.len() <= i < s.len() - 2 ==> s[i] != '"' && s[i] != '\\'
}

pub open spec fn auth_token_of(s: Seq<char>) -> Seq<char> {
    s.subrange("{\"type\":\"auth\",\"token\":\""@.len() as int, s.len() - 2)
}

/// The canonical volume frame: decimal number text between the fixed
/// prefix and the closing brace.
pub open spec fn volume_shaped(s: Seq<char>) -> bool {
    let p = "{\"type\":\"volume\",\"value\":"@;
    &&& s.len() >= p.len() + 1
    &&& s.subrange(0, p.len() as int) == p
    &&& s[s.len() - 1] == '}'
    &&& is_number_text(s.subrange(p.len() as int, s.len() - 1))
}

pub open spec fn volume_text_of(s: Seq<char>) -> Seq<char> {
    s.subrange("{\"type\":\"volume\",\"value\":"@.len() as int, s.len() - 1)
}

/// The auth frame with its two fields in the other order.
pub open spec fn auth_rev_shaped(s: Seq<char>) -> bool {
    let p = "{\"token\":\""@;
    let q = "\",\"type\":\"auth\"}"@;
    &&& s.len() >= p.len() + q.len()
    &&& s.subrange(0, p.len() as int) == p
    &&& s.subrange(s.len() - q.len(), s.len() as int) == q
    &&& forall|i: int|
        p.len() <= i < s.len() - q.len() ==> s[i] != '"' && s[i] != '\\'
}

pub open spec fn auth_rev_token_of(s: Seq<char>) -> Seq<char> {
    s.subrange(
        "{\"token\":\""@.len() as int,
        s.len() - "\",\"type\":\"auth\"}"@.len(),
    )
}

/// The volume frame with its two fields in the other order.
pub open spec fn volume_rev_shaped(s: Seq<char>) -> bool {
    let p = "{\"value\":"@;
    let q = ",\"type\":\"volume\"}"@;
    &&& s.len() >= p.len() + q.len()
    &&& s.subrange(0, p.len() as int) == p
    &&& s.subrange(s.len() - q.len(), s.len() as int) == q
    &&& is_number_text(s.subrange(p.len() as int, s.len() - q.len()))
}

pub open spec fn volume_rev_text_of(s: Seq<char>) -> Seq<char> {
    s.subrange(
        "{\"value\":"@.len() as int,
        s.len() - ",\"type\":\"volume\"}"@.len(),
    )
}

/// What one inbound frame decodes to: the whitespace-stripped text,
/// matched against the serialization shapes of the client commands.
pub open spec fn spec_parse(s: Seq<char>) -> CmdV {
    spec_parse_frame(spec_strip_ws(s))
}

/// The shape match itself, over text already free of insignificant
/// whitespace. The one-field commands have one shape each; the
/// two-field messages (`auth`, `volume`) are recognized in either
/// field order. Everything else is `Unknown`.
pub open spec fn spec_parse_frame(s: Seq<char>) -> CmdV {
    if s == "{\"type\":\"next\"}"@ {
        CmdV::Next
    } else if s == "{\"type\":\"prev\"}"@ {
        CmdV::Previous
    } else if s == "{\"type\":\"play\"}"@ {
        CmdV::Play
    } else if s == "{\"type\":\"pause\"}"@ {
        CmdV::Pause
    } else if s == "{\"type\":\"togglePlay\"}"@ {
        CmdV::TogglePlay
    } else if s == "{\"type\":\"mute\"}"@ {
        CmdV::Mute
    } else if s == "{\"type\":\"unmute\"}"@ {
        CmdV::Unmute
    } else if s == "{\"type\":\"favourite\"}"@ {
        CmdV::Favourite
    } else if s == "{\"type\":\"getState\"}"@ {
        CmdV::GetState
    } else if auth_shaped(s) {
        CmdV::Auth(auth_token_of(s))
    } else if volume_shaped(s) {
        CmdV::Volume(volume_text_of(s))
    } else if auth_rev_shaped(s) {
        CmdV::Auth(auth_rev_token_of(s))
    } else if volume_rev_shaped(s) {
        CmdV::Volume(volume_rev_text_of(s))
    } else {
        CmdV::Unknown
    }
}

fn eq_chars(a: &Vec<char>, b: &Vec<char>) -> (r: bool)
    ensures
        r <==> a@ == b@,
{
    if a.len() != b.len() {
        return false;
    }
    let mut i: usize = 0;
    while i < a.len()
        invariant
            i <= a@.len(),
            a@.len() == b@.len(),
            forall|j: int| 0 <= j < i ==> a@[j] == b@[j],
        decreases a@.len() - i,
    {
        if a[i] != b[i] {
            return false;
        }
        i += 1;
    }
    assert(a@ =~= b@);
    true
}

/// Whether a character vector spells exactly a given literal.
pub fn chars_eq_lit(a: &Vec<char>, lit: &str) -> (r: bool)
    ensures
        r <==> a@ == lit@,
{
    let l = str_to_chars(lit);
    eq_chars(a, &l)
}

fn starts_with(a: &Vec<char>, p: &Vec<char>) -> (r: bool)
    ensures
        r <==> (a@.len() >= p@.len() && a@.subrange(0, p@.len() as int) == p@),
{
    if a.len() < p.len() {
        return false;
    }
    let mut i: usize = 0;
    while i < p.len()
        invariant
            i <= p@.len(),
            p@.len() <= a@.len(),
            forall|j: int| 0 <= j < i ==> a@[j] == p@[j],
        decreases p@.len() - i,
    {
        if a[i] != p[i] {
            assert(a@.subrange(0, p@.len() as int)[i as int] != p@[i as int]);
            return false;
        }
        i += 1;
    }
    assert(a@.subrange(0, p@.len() as int) =~= p@);
    true
}

fn ends_with(a: &Vec<char>, q: &Vec<char>) -> (r: bool)
    ensures
        r <==> (a@.len() >= q@.len() && a@.subrange(a@.len() - q@.len(), a@.len() as int)
            == q@),
{
    if a.len() < q.len() {
        return false;
    }
    let base = a.len() - q.len();
    let mut i: usize = 0;
    while i < q.len()
        invariant
            i <= q@.len(),
            base as int == a@.len() - q@.len(),
            a@.len() <= usize::MAX,
            forall|j: int| 0 <= j < i ==> a@[base + j] == q@[j],
        decreases q@.len() - i,
    {
        if a[base + i] != q[i] {
            assert(a@.subrange(a@.len() - q@.len(), a@.len() as int)[i as int] != q@[
                i as int
            ]);
            return false;
        }
        i += 1;
    }
    assert(a@.subrange(a@.len() - q@.len(), a@.len() as int) =~= q@);
    true
}

fn range_clean(a: &Vec<char>, from: usize, to: usize) -> (r: bool)
    requires
        from <= to <= a@.len(),
    ensures
        r <==> forall|i: int| from <= i < to ==> a@[i] != '"' && a@[i] != '\\',
{
    let mut i: usize = from;
    while i < to
        invariant
            from <= i <= to,
            to <= a@.len(),
            forall|j: int| from <= j < i ==> a@[j] != '"' && a@[j] != '\\',
        decreases to - i,
    {
        if a[i] == '"' || a[i] == '\\' {
            return false;
        }
        i += 1;
    }
    true
}

/// Decodes one inbound client frame: whitespace outside string
/// literals is insignificant, the two-field messages are accepted in
/// either field order, and anything outside the grammar comes back
/// as `Unknown`.
pub fn parse_command(text: &str) -> (r: RemoteCommand)
    ensures
        r@ == spec_parse(text@),
{
    let raw = str_to_chars(text);
    let cs = strip_ws(&raw);
    if chars_eq_lit(&cs, "{\"type\":\"next\"}") {
        return RemoteCommand::Next;
    }
    if chars_eq_lit(&cs, "{\"type\":\"prev\"}") {
        return RemoteCommand::Previous;
    }
    if chars_eq_lit(&cs, "{\"type\":\"play\"}") {
        return RemoteCommand::Play;
    }
    if chars_eq_lit(&cs, "{\"type\":\"pause\"}") {
        return RemoteCommand::Pause;
    }
    if chars_eq_lit(&cs, "{\"type\":\"togglePlay\"}") {
        return RemoteCommand::TogglePlay;
    }
    if chars_eq_lit(&cs, "{\"type\":\"mute\"}") {
        return RemoteCommand::Mute;
    }
    if chars_eq_lit(&cs, "{\"type\":\"unmute\"}") {
        return RemoteCommand::Unmute;
    }
    if chars_eq_lit(&cs, "{\"type\":\"favourite\"}") {
        return RemoteCommand::Favourite;
    }
    if chars_eq_lit(&cs, "{\"type\":\"getState\"}") {
        return RemoteCommand::GetState;
    }
    let auth_pre = str_to_chars("{\"type\":\"auth\",\"token\":\"");
    if cs.len() >= 2 && cs.len() - 2 >= auth_pre.len() && starts_with(&cs, &auth_pre)
        && cs[cs.len() - 2] == '"' && cs[cs.len() - 1] == '}'
        && range_clean(&cs, auth_pre.len(), cs.len() - 2) {
        let token = chars_to_string(&cs, auth_pre.len(), cs.len() - 2);
        assert(auth_shaped(cs@));
        assert(token@ == auth_token_of(cs@));
        return RemoteCommand::Auth { token };
    }
    assert(!auth_shaped(cs@));
    let vol_pre = str_to_chars("{\"type\":\"volume\",\"value\":");
    if cs.len() >= 1 && cs.len() - 1 >= vol_pre.len() && starts_with(&cs, &vol_pre)
        && cs[cs.len() - 1] == '}' && check_number(&cs, vol_pre.len(), cs.len() - 1) {
        let value = chars_to_string(&cs, vol_pre.len(), cs.len() - 1);
        assert(volume_shaped(cs@));
        assert(value@ == volume_text_of(cs@));
        return RemoteCommand::Volume { value };
    }
    assert(!volume_shaped(cs@));
    let auth_rev_pre = str_to_chars("{\"token\":\"");
    let auth_rev_suf = str_to_chars("\",\"type\":\"auth\"}");
    if cs.len() >= auth_rev_suf.len() && cs.len() - auth_rev_suf.len() >= auth_rev_pre.len()
        && starts_with(&cs, &auth_rev_pre) && ends_with(&cs, &auth_rev_suf)
        && range_clean(&cs, auth_rev_pre.len(), cs.len() - auth_rev_suf.len()) {
        let token = chars_to_string(&cs, auth_rev_pre.len(), cs.len() - auth_rev_suf.len());
        assert(auth_rev_shaped(cs@));
        assert(token@ == auth_rev_token_of(cs@));
        return RemoteCommand::Auth { token };
    }
    assert(!auth_rev_shaped(cs@));
    let vol_rev_pre = str_to_chars("{\"value\":");
    let vol_rev_suf = str_to_chars(",\"type\":\"volume\"}");
    if cs.len() >= vol_rev_suf.len() && cs.len() - vol_rev_suf.len() >= vol_rev_pre.len()
        && starts_with(&cs, &vol_rev_pre) && ends_with(&cs, &vol_rev_suf)
        && check_number(&cs, vol_rev_pre.len(), cs.len() - vol_rev_suf.len()) {
        let value = chars_to_string(&cs, vol_rev_pre.len(), cs.len() - vol_rev_suf.len());
        assert(volume_rev_shaped(cs@));
        assert(value@ == volume_rev_text_of(cs@));
        return RemoteCommand::Volume { value };
    }
    assert(!volume_rev_shaped(cs@));
    RemoteCommand::Unknown
}

} // verus!
