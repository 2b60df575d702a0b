//! The value types of the wire protocol: the playback snapshot sent
//! to clients, the commands clients send, and the messages the server
//! sends back.

use vstd::prelude::*;
use crate::text::is_number_text;

verus! {

/// A complete playback snapshot. Each update replaces the previous
/// value wholesale; no field is ever patched in place.
///
/// The volume is carried as decimal number text (for example `"0.42"`),
/// exactly as it appears on the wire; converting it to or from a
/// machine float is the host application's concern.
pub struct RadioState {
    pub station_id: String,
    pub station_name: String,
    pub country: String,
    pub volume: String,
    pub playing: bool,
    pub muted: bool,
}

impl RadioState {
    /// The volume text must be a decimal number, so that a snapshot
    /// always serializes to well-formed JSON.
    pub open spec fn wf(self) -> bool {
        is_number_text(self.volume@)
    }

    /// Builds a snapshot, rejecting volume text that is not decimal
    /// number text.
    pub fn new(
        station_id: String,
        station_name: String,
        country: String,
        volume: String,
        playing: bool,
        muted: bool,
    ) -> (r: Option<RadioState>)
        ensures
            match r {
                Some(st) => {
                    &&& st.wf()
                    &&& st.station_id == station_id
                    &&& st.station_name == station_name
                    &&& st.country == country
                    &&& st.volume == volume
                    &&& st.playing == playing
                    &&& st.muted == muted
                },
                None => !is_number_text(volume@),
            },
    {
        let chars = crate::text::str_to_chars(volume.as_str());
        let n = chars.len();
        if crate::text::check_number(&chars, 0, n) {
            assert(chars@.subrange(0, chars@.len() as int) =~= volume@);
            Some(
                RadioState { station_id, station_name, country, volume, playing, muted },
            )
        } else {
            assert(chars@.subrange(0, chars@.len() as int) =~= volume@);
            None
        }
    }

    /// The placeholder snapshot used before the host ever publishes:
    /// empty station id, name and country shown as `-`, full volume,
    /// not playing, not muted.
    pub fn placeholder() -> (r: RadioState)
        ensures
            r.station_id@ == ""@,
            r.station_name@ == "-"@,
            r.country@ == "-"@,
            r.volume@ == "1.0"@,
            !r.playing,
            !r.muted,
            r.wf(),
    {
        proof {
            reveal_strlit("");
            lemma_one_point_zero_is_number();
        }
        let id = String::new();
        assert(id@ =~= ""@);
        RadioState {
            station_id: id,
            station_name: String::from_str("-"),
            country: String::from_str("-"),
            volume: String::from_str("1.0"),
            playing: false,
            muted: false,
        }
    }

    /// A copy whose fields equal this snapshot's, usable where the
    /// contracts must track the value.
    pub fn duplicate(&self) -> (r: RadioState)
        ensures
            r == *self,
    {
        RadioState {
            station_id: self.station_id.clone(),
            station_name: self.station_name.clone(),
            country: self.country.clone(),
            volume: self.volume.clone(),
            playing: self.playing,
            muted: self.muted,
        }
    }
}

proof fn lemma_one_point_zero_is_number()
    ensures
        is_number_text("1.0"@),
{
    reveal_strlit("1.0");
    let s = "1.0"@;
    assert(s.len() == 3);
    assert(s[0] == '1' && s[1] == '.' && s[2] == '0');
    assert(!crate::text::is_digit('.'));
    assert(crate::text::spec_skip_digits(s, 1) == 1);
    assert(crate::text::spec_skip_digits(s, 3) == 3);
    assert(crate::text::spec_skip_digits(s, 2) == 3);
    assert(crate::text::spec_skip_digits(s, 0) == 1);
    assert(crate::text::number_tail_ok(s, 1));
}

impl Clone for RadioState {
    fn clone(&self) -> (r: Self)
        ensures
            r == *self,
    {
        self.duplicate()
    }
}

impl Default for RadioState {
    fn default() -> (r: Self)
        ensures
            r.station_id@ == ""@,
            r.station_name@ == "-"@,
            r.country@ == "-"@,
            r.volume@ == "1.0"@,
            !r.playing,
            !r.muted,
            r.wf(),
    {
        RadioState::placeholder()
    }
}

/// A command decoded from one inbound client frame. `Unknown` stands
/// for any frame outside the recognized grammar; such frames are
/// silently ignored.
pub enum RemoteCommand {
    Auth { token: String },
    Next,
    Previous,
    Play,
    Pause,
    TogglePlay,
    Volume { value: String },
    Mute,
    Unmute,
    Favourite,
    GetState,
    Unknown,
}

/// The mathematical shadow of `RemoteCommand`: the carried strings as
/// character sequences.
pub enum CmdV {
    Auth(Seq<char>),
    Next,
    Previous,
    Play,
    Pause,
    TogglePlay,
    Volume(Seq<char>),
    Mute,
    Unmute,
    Favourite,
    GetState,
    Unknown,
}

impl View for RemoteCommand {
    type V = CmdV;

    open spec fn view(&self) -> CmdV {
        match self {
            RemoteCommand::Auth { token } => CmdV::Auth(token@),
            RemoteCommand::Next => CmdV::Next,
            RemoteCommand::Previous => CmdV::Previous,
            RemoteCommand::Play => CmdV::Play,
            RemoteCommand::Pause => CmdV::Pause,
            RemoteCommand::TogglePlay => CmdV::TogglePlay,
            RemoteCommand::Volume { value } => CmdV::Volume(value@),
            RemoteCommand::Mute => CmdV::Mute,
            RemoteCommand::Unmute => CmdV::Unmute,
            RemoteCommand::Favourite => CmdV::Favourite,
            RemoteCommand::GetState => CmdV::GetState,
            RemoteCommand::Unknown => CmdV::Unknown,
        }
    }
}

/// A message from the server to a client. `Command` is defined by the
/// protocol but unused by the current flows.
pub enum ServerMessage {
    AuthResult { success: bool, message: String },
    State(RadioState),
    Command { action: String },
    Error { message: String },
}

} // verus!
