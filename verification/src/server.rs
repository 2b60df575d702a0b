//! The remote-control server context: the single pairing token, the
//! current playback snapshot, the FIFO queue of commands awaiting the
//! host, and the enabled flag. One value of this type is the whole
//! shared state of the service; the transport layer keeps it behind a
//! lock and holds the lock only across these short calls.

use vstd::prelude::*;
use crate::messages::RadioState;

verus! {

/// Shared state of the remote-control service.
pub struct RemoteServer {
    pub enabled: bool,
    pub token: Option<String>,
    pub port: u16,
    pub radio_state: RadioState,
    pub command_queue: Vec<String>,
}

/// Whether a candidate proves possession of the current pairing
/// token: some token is set and the candidate equals it exactly.
pub open spec fn spec_validate(token: Option<String>, candidate: Seq<char>) -> bool {
    match token {
        Some(t) => t@ == candidate,
        None => false,
    }
}

/// The queue as the sequence of command texts it holds, oldest first.
pub open spec fn queue_model(q: Seq<String>) -> Seq<Seq<char>> {
    Seq::new(q.len(), |i: int| q[i]@)
}

/// Relies on uuid's Uuid::new_v4 and its hyphenated rendering: a
/// fresh random identifier, 36 characters long. Nothing more is
/// assumed of the value; unguessability is the generator's concern.
#[verifier::external_body]
fn fresh_token_text() -> (r: String)
    ensures
        r@.len() == 36,
{
    uuid::Uuid::new_v4().to_string()
}

impl RemoteServer {
    pub open spec fn wf(self) -> bool {
        self.radio_state.wf()
    }

    /// A fresh, disabled server: no token, placeholder snapshot,
    /// empty queue, the fixed pairing port.
    pub fn new() -> (r: RemoteServer)
        ensures
            !r.enabled,
            r.token is None,
            r.port == 8331u16,
            r.radio_state.station_id@ == ""@,
            r.radio_state.station_name@ == "-"@,
            r.radio_state.country@ == "-"@,
            r.radio_state.volume@ == "1.0"@,
            !r.radio_state.playing,
            !r.radio_state.muted,
            queue_model(r.command_queue@) =~= Seq::<Seq<char>>::empty(),
            r.wf(),
    {
        let r = RemoteServer {
            enabled: false,
            token: None,
            port: 8331,
            radio_state: RadioState::placeholder(),
            command_queue: Vec::new(),
        };
        assert(queue_model(r.command_queue@) =~= Seq::<Seq<char>>::empty());
        r
    }

    /// Issues a fresh pairing token, replacing any existing one, and
    /// returns it. Everything else is untouched.
    pub fn generate_token(&mut self) -> (t: String)
        ensures
            final(self).token == Some(t),
            t@.len() == 36,
            final(self).enabled == old(self).enabled,
            final(self).port == old(self).port,
            final(self).radio_state == old(self).radio_state,
            final(self).command_queue == old(self).command_queue,
    {
        let t = fresh_token_text();
        let copy = t.clone();
        self.token = Some(copy);
        t
    }

    /// True exactly when a token is set and the candidate equals it.
    pub fn validate_token(&self, token: &str) -> (r: bool)
        ensures
            r == spec_validate(self.token, token@),
    {
        match &self.token {
            Some(t) => {
                let cand = String::from_str(token);
                t.eq(&cand)
            },
            None => false,
        }
    }

    /// Clears the current token unconditionally; idempotent.
    pub fn invalidate_token(&mut self)
        ensures
            final(self).token is None,
            final(self).enabled == old(self).enabled,
            final(self).port == old(self).port,
            final(self).radio_state == old(self).radio_state,
            final(self).command_queue == old(self).command_queue,
    {
        self.token = None;
    }

    /// Replaces the current snapshot wholesale. The caller publishes
    /// the same value to every live subscriber.
    pub fn update_state(&mut self, state: RadioState)
        requires
            state.wf(),
        ensures
            final(self).radio_state == state,
            final(self).wf(),
            final(self).enabled == old(self).enabled,
            final(self).token == old(self).token,
            final(self).port == old(self).port,
            final(self).command_queue == old(self).command_queue,
    {
        self.radio_state = state;
    }

    /// The current snapshot.
    pub fn get_state(&self) -> (r: RadioState)
        ensures
            r == self.radio_state,
    {
        self.radio_state.duplicate()
    }

    /// Appends a command to the tail of the queue; never fails.
    pub fn queue_command(&mut self, action: &str)
        ensures
            queue_model(final(self).command_queue@) == queue_model(old(self).command_queue@).push(
                action@,
            ),
            final(self).enabled == old(self).enabled,
            final(self).token == old(self).token,
            final(self).port == old(self).port,
            final(self).radio_state == old(self).radio_state,
    {
        let owned = String::from_str(action);
        self.command_queue.push(owned);
        assert(queue_model(self.command_queue@) =~= queue_model(
            old(self).command_queue@,
        ).push(action@));
    }

    /// Removes and returns the oldest queued command, if any.
    pub fn pop_command(&mut self) -> (r: Option<String>)
        ensures
            old(self).command_queue@.len() == 0 ==> r is None && *final(self) == *old(self),
            old(self).command_queue@.len() > 0 ==> {
                &&& match r {
                    Some(s) => s@ == queue_model(old(self).command_queue@)[0],
                    None => false,
                }
                &&& queue_model(final(self).command_queue@) == queue_model(
                    old(self).command_queue@,
                ).drop_first()
            },
            final(self).enabled == old(self).enabled,
            final(self).token == old(self).token,
            final(self).port == old(self).port,
            final(self).radio_state == old(self).radio_state,
    {
        if self.command_queue.len() == 0 {
            None
        } else {
            let head = self.command_queue.remove(0);
            assert(queue_model(self.command_queue@) =~= queue_model(
                old(self).command_queue@,
            ).drop_first());
            Some(head)
        }
    }

    /// Whether remote control is currently enabled.
    pub fn status(&self) -> (r: bool)
        ensures
            r == self.enabled,
    {
        self.enabled
    }
}

impl Default for RemoteServer {
    fn default() -> (r: Self)
        ensures
            !r.enabled,
            r.token is None,
            r.port == 8331u16,
            r.command_queue@.len() == 0,
            r.wf(),
    {
        let r = RemoteServer::new();
        assert(queue_model(r.command_queue@).len() == r.command_queue@.len());
        r
    }
}

/// Only one token is active at a time: once a new token is in place,
/// no other candidate validates, however valid it may once have been.
pub proof fn lemma_single_active_token(token: Option<String>, t1: Seq<char>, t2: Seq<char>)
    requires
        spec_validate(token, t2),
        t1 != t2,
    ensures
        !spec_validate(token, t1),
{
}

/// Nothing validates while no token is set, which is the state both
/// before any generation and after an invalidation.
pub proof fn lemma_no_token_rejects_all(candidate: Seq<char>)
    ensures
        !spec_validate(None::<String>, candidate),
{
}

pub open spec fn spec_push_all(q: Seq<Seq<char>>, xs: Seq<Seq<char>>) -> Seq<Seq<char>>
    decreases xs.len(),
{
    if xs.len() == 0 {
        q
    } else {
        spec_push_all(q.push(xs[0]), xs.drop_first())
    }
}

/// Serialized pushes append in order, so the queue drains in exactly
/// the relative order a single producer pushed: after pushing `xs`
/// onto `q`, the queue holds `q + xs`, and each pop takes the front.
pub proof fn lemma_fifo_order(q: Seq<Seq<char>>, xs: Seq<Seq<char>>)
    ensures
        spec_push_all(q, xs) == q + xs,
    decreases xs.len(),
{
    if xs.len() == 0 {
        assert(q + xs =~= q);
    } else {
        lemma_fifo_order(q.push(xs[0]), xs.drop_first());
        assert(q.push(xs[0]) + xs.drop_first() =~= q + xs);
    }
}

} // verus!
