//! The per-connection session machine. Each live connection runs one
//! `Session` through the handshake and then through one `on_frame`
//! call per inbound frame. The transport performs the effects these
//! functions decide: it sends the returned strings to the client and
//! publishes a returned snapshot to every subscriber.

use vstd::prelude::*;
use vstd::string::StringExecFns;
use crate::messages::RadioState;
use crate::messages::RemoteCommand;
use crate::messages::CmdV;
use crate::json::spec_auth_result_json;
use crate::json::spec_state_json;
use crate::json::spec_parse;
use crate::json::parse_command;
use crate::json::server_message_json;
use crate::json::state_message;
use crate::messages::ServerMessage;
use crate::server::RemoteServer;
use crate::server::spec_validate;
use crate::server::queue_model;

verus! {

/// Where a session stands: awaiting the handshake, admitted, or
/// closed for good (no transition leads out of `Closed`).
pub enum SessionPhase {
    AwaitingAuth,
    Authenticated,
    Closed,
}

/// One live connection's state.
pub struct Session {
    pub phase: SessionPhase,
}

/// Query parameters of a connection request: the pairing token, if
/// one was attached.
pub struct WsQuery {
    pub token: Option<String>,
}

/// The handshake's outcome, decided by the token attached to the
/// connection request: the session's phase and the exact messages
/// sent to the client, in order.
pub open spec fn spec_admission(server: RemoteServer, token: Option<String>) -> (
    SessionPhase,
    Seq<Seq<char>>,
) {
    match token {
        Some(t) => if spec_validate(server.token, t@) {
            (
                SessionPhase::Authenticated,
                seq![
                    spec_auth_result_json(true, "Connected"@),
                    spec_state_json(server.radio_state),
                ],
            )
        } else {
            (SessionPhase::Closed, seq![spec_auth_result_json(false, "Invalid token"@)])
        },
        None => (
            SessionPhase::Closed,
            seq![spec_auth_result_json(false, "No token provided"@)],
        ),
    }
}

/// Runs the authentication handshake for a new connection. A valid
/// token admits the session and is acknowledged together with the
/// current snapshot, so a late subscriber still starts from the
/// latest published state; a bad or missing token is refused and the
/// session is closed with no further messages.
pub fn on_connect(server: &RemoteServer, token: Option<String>) -> (r: (Session, Vec<String>))
    ensures
        r.0.phase == spec_admission(*server, token).0,
        queue_model(r.1@) == spec_admission(*server, token).1,
{
    match token {
        Some(t) => {
            if server.validate_token(t.as_str()) {
                let mut msgs: Vec<String> = Vec::new();
                let ok = ServerMessage::AuthResult {
                    success: true,
                    message: String::from_str("Connected"),
                };
                msgs.push(server_message_json(&ok));
                msgs.push(state_message(&server.radio_state));
                assert(queue_model(msgs@) =~= spec_admission(*server, Some(t)).1);
                (Session { phase: SessionPhase::Authenticated }, msgs)
            } else {
                let mut msgs: Vec<String> = Vec::new();
                let no = ServerMessage::AuthResult {
                    success: false,
                    message: String::from_str("Invalid token"),
                };
                msgs.push(server_message_json(&no));
                assert(queue_model(msgs@) =~= spec_admission(*server, Some(t)).1);
                (Session { phase: SessionPhase::Closed }, msgs)
            }
        },
        None => {
            let mut msgs: Vec<String> = Vec::new();
            let no = ServerMessage::AuthResult {
                success: false,
                message: String::from_str("No token provided"),
            };
            msgs.push(server_message_json(&no));
            assert(queue_model(msgs@) =~= spec_admission(*server, None::<String>).1);
            (Session { phase: SessionPhase::Closed }, msgs)
        },
    }
}

/// What one decoded frame does to the queue, stated over the frame's
/// parse: the command name that is appended, if any.
pub open spec fn queued_action_of(cmd: CmdV) -> Option<Seq<char>> {
    match cmd {
        CmdV::Next => Some("next"@),
        CmdV::Previous => Some("prev"@),
        CmdV::Play => Some("play"@),
        CmdV::Pause => Some("pause"@),
        CmdV::TogglePlay => Some("togglePlay"@),
        CmdV::Mute => Some("mute"@),
        CmdV::Unmute => Some("unmute"@),
        CmdV::Favourite => Some("favourite"@),
        CmdV::Volume(v) => Some("volume:"@ + v),
        CmdV::Auth(_) => None,
        CmdV::GetState => None,
        CmdV::Unknown => None,
    }
}

/// Handles one inbound frame from an admitted session.
///
/// Control commands are queued for the host by their symbolic name,
/// a volume command as one composite `volume:<value>` action carrying
/// the number text from the wire. `getState` queues nothing and asks
/// for a re-publish of the current snapshot to every subscriber, the
/// requester included, which is the returned value. A repeated `auth`
/// frame is tolerated and changes nothing; an unrecognized or
/// malformed frame is silently ignored. The handler never touches
/// playback state itself: it only queues intent.
pub fn on_frame(server: &mut RemoteServer, session: &Session, text: &str) -> (publish: Option<
    RadioState,
>)
    requires
        session.phase is Authenticated,
    ensures
        final(server).enabled == old(server).enabled,
        final(server).token == old(server).token,
        final(server).port == old(server).port,
        final(server).radio_state == old(server).radio_state,
        match queued_action_of(spec_parse(text@)) {
            Some(a) => queue_model(final(server).command_queue@) == queue_model(
                old(server).command_queue@,
            ).push(a),
            None => final(server).command_queue == old(server).command_queue,
        },
        publish == (if spec_parse(text@) is GetState {
            Some(old(server).radio_state)
        } else {
            None::<RadioState>
        }),
{
    let cmd = parse_command(text);
    match cmd {
        RemoteCommand::Auth { token: _ } => None,
        RemoteCommand::Next => {
            server.queue_command("next");
            None
        },
        RemoteCommand::Previous => {
            server.queue_command("prev");
            None
        },
        RemoteCommand::Play => {
            server.queue_command("play");
            None
        },
        RemoteCommand::Pause => {
            server.queue_command("pause");
            None
        },
        RemoteCommand::TogglePlay => {
            server.queue_command("togglePlay");
            None
        },
        RemoteCommand::Mute => {
            server.queue_command("mute");
            None
        },
        RemoteCommand::Unmute => {
            server.queue_command("unmute");
            None
        },
        RemoteCommand::Favourite => {
            server.queue_command("favourite");
            None
        },
        RemoteCommand::Volume { value } => {
            let mut action = String::from_str("volume:");
            action.append(value.as_str());
            server.queue_command(action.as_str());
            None
        },
        RemoteCommand::GetState => Some(server.get_state()),
        RemoteCommand::Unknown => None,
    }
}

/// A session admitted after a state update observes that update (or
/// a later one, if more have been published meanwhile): the second
/// handshake message is exactly the serialization of the snapshot
/// current at admission, never an older one.
pub proof fn lemma_admission_sees_latest(server: RemoteServer, t: String, s: RadioState)
    requires
        server.radio_state == s,
        spec_validate(server.token, t@),
    ensures
        spec_admission(server, Some(t)).0 is Authenticated,
        spec_admission(server, Some(t)).1.len() == 2,
        spec_admission(server, Some(t)).1[1] == spec_state_json(s),
{
}

} // verus!
