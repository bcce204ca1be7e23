//! Decisions of the listener and of one connection on the local IPC link to
//! the Native Hook: when waiting for the hook has lasted too long, how the
//! reconnects are counted, when a liveness ping is due and what each message
//! from the hook means. The caller owns the socket, the clock (instants in
//! microseconds) and the queues, and hands each outcome in.

use vstd::prelude::*;
use crate::hook_ipc::{LIVENESS_PING_INTERVAL_MICROS, LIVENESS_PONG_TIMEOUT_MICROS, MAX_DATA_BURST};

verus! {

/// What the listener has seen so far.
#[derive(Clone, Copy, Debug, PartialEq, Eq, Structural)]
pub struct ListenerState {
    pub started: u64,
    pub disconnected_at: u64,
    pub connected_once: bool,
    pub reconnects: u32,
}

/// How a connection to the hook ended.
#[derive(Clone, Copy, Debug, PartialEq, Eq, Structural)]
pub enum ConnectionOutcome {
    Shutdown,
    Disconnected,
    ProtocolError,
    IoError,
}

/// What the listener does after a connection ended.
#[derive(Clone, Copy, Debug, PartialEq, Eq, Structural)]
pub enum ListenerAction {
    /// Stop without error.
    Stop,
    /// Report the error and stop.
    Fail,
    /// Drop queued work and wait for the hook to come back; on a clean
    /// disconnection the link is first published as reconnecting.
    AwaitReconnect { publish_reconnecting: bool },
}

/// How the link to the hook is published.
#[derive(Clone, Copy, Debug, PartialEq, Eq, Structural)]
pub enum LinkConnection {
    Connected,
    Reconnecting,
}

/// The counters published with the link's state.
#[derive(Clone, Copy, Debug, PartialEq, Eq, Structural)]
pub struct LinkStatus {
    pub connection: LinkConnection,
    pub reconnects: u32,
    pub hook_data_dropped: u64,
    pub client_data_dropped: u64,
    pub malformed_frames: u64,
}

/// The health the hook reports of its side of the link.
#[derive(Clone, Copy, Debug, PartialEq, Eq, Structural)]
pub struct HookHealth {
    pub reconnects: u32,
    pub hook_data_dropped: u64,
    pub client_data_dropped: u64,
    pub malformed_frames: u64,
}

/// The status published when the hook reports its health: connected, with
/// the larger of the two reconnect counts and of the two client drop counts,
/// and the hook's own drop and malformed-frame counts.
pub fn merged_health(reconnects: u32, client_dropped: u64, health: HookHealth) -> (s: LinkStatus)
    ensures
        s == (LinkStatus {
            connection: LinkConnection::Connected,
            reconnects: if reconnects >= health.reconnects { reconnects } else { health.reconnects },
            hook_data_dropped: health.hook_data_dropped,
            client_data_dropped: if client_dropped >= health.client_data_dropped { client_dropped } else { health.client_data_dropped },
            malformed_frames: health.malformed_frames,
        }),
{
    LinkStatus {
        connection: LinkConnection::Connected,
        reconnects: if reconnects >= health.reconnects { reconnects } else { health.reconnects },
        hook_data_dropped: health.hook_data_dropped,
        client_data_dropped: if client_dropped >= health.client_data_dropped { client_dropped } else { health.client_data_dropped },
        malformed_frames: health.malformed_frames,
    }
}

/// The status published when a connection comes up (`Connected`) or ends
/// cleanly (`Reconnecting`): the reconnect and client drop counts, the
/// hook's counts zero.
pub fn link_status(connection: LinkConnection, reconnects: u32, client_dropped: u64) -> (s: LinkStatus)
    ensures
        s == (LinkStatus { connection, reconnects, hook_data_dropped: 0, client_data_dropped: client_dropped, malformed_frames: 0 }),
{
    LinkStatus { connection, reconnects, hook_data_dropped: 0, client_data_dropped: client_dropped, malformed_frames: 0 }
}

/// Microseconds from `from` to `now`, none when `now` is earlier.
pub open spec fn spec_elapsed(from: u64, now: u64) -> int {
    if now >= from { now - from } else { 0 }
}

/// The failure the listener reports at `now`, if waiting has lasted too
/// long: since the start before the first connection, since the last
/// disconnection after it.
pub open spec fn spec_listener_expired(s: ListenerState, now: u64, initial_timeout: u64, reconnect_timeout: u64) -> Option<Seq<char>> {
    if s.connected_once {
        if spec_elapsed(s.disconnected_at, now) >= reconnect_timeout {
            Some("Native Hook local IPC reconnect timed out"@)
        } else {
            None
        }
    } else if spec_elapsed(s.started, now) >= initial_timeout {
        Some("Native Hook local IPC connection timed out"@)
    } else {
        None
    }
}

impl ListenerState {
    /// A listener started at `now`, before any connection.
    pub fn new(now: u64) -> (s: ListenerState)
        ensures
            s == (ListenerState { started: now, disconnected_at: now, connected_once: false, reconnects: 0 }),
    {
        ListenerState { started: now, disconnected_at: now, connected_once: false, reconnects: 0 }
    }

    /// The failure message when waiting for the hook has lasted too long.
    pub fn deadline_failure(&self, now: u64, initial_timeout: u64, reconnect_timeout: u64) -> (r: Option<&'static str>)
        ensures
            match (r, spec_listener_expired(*self, now, initial_timeout, reconnect_timeout)) {
                (Some(m), Some(n)) => m@ == n,
                (None, None) => true,
                _ => false,
            },
    {
        proof {
            reveal_strlit("Native Hook local IPC reconnect timed out");
            reveal_strlit("Native Hook local IPC connection timed out");
        }
        if self.connected_once {
            let waited = if now >= self.disconnected_at { now - self.disconnected_at } else { 0 };
            if waited >= reconnect_timeout {
                Some("Native Hook local IPC reconnect timed out")
            } else {
                None
            }
        } else {
            let waited = if now >= self.started { now - self.started } else { 0 };
            if waited >= initial_timeout {
                Some("Native Hook local IPC connection timed out")
            } else {
                None
            }
        }
    }

    /// A connection was accepted: after an earlier one it counts as a
    /// reconnect (the count saturates). Returns the count to report.
    pub fn on_accepted(&mut self) -> (reconnects: u32)
        ensures
            final(self).reconnects == (if old(self).connected_once {
                if old(self).reconnects == u32::MAX { u32::MAX } else { (old(self).reconnects + 1) as u32 }
            } else {
                old(self).reconnects
            }),
            final(self).started == old(self).started,
            final(self).disconnected_at == old(self).disconnected_at,
            final(self).connected_once == old(self).connected_once,
            reconnects == final(self).reconnects,
    {
        if self.connected_once {
            self.reconnects = self.reconnects.saturating_add(1);
        }
        self.reconnects
    }

    /// The handshake succeeded: the hook has been connected.
    pub fn on_handshake(&mut self)
        ensures
            *final(self) == (ListenerState { connected_once: true, ..*old(self) }),
    {
        self.connected_once = true;
    }

    /// A connection ended at `now`: a shutdown stops the listener, a
    /// protocol error fails it, and a disconnection or another I/O error
    /// starts the reconnect wait (a disconnection is published as
    /// reconnecting).
    pub fn on_connection_end(&mut self, outcome: ConnectionOutcome, now: u64) -> (a: ListenerAction)
        ensures
            a == (match outcome {
                ConnectionOutcome::Shutdown => ListenerAction::Stop,
                ConnectionOutcome::ProtocolError => ListenerAction::Fail,
                ConnectionOutcome::Disconnected => ListenerAction::AwaitReconnect { publish_reconnecting: true },
                ConnectionOutcome::IoError => ListenerAction::AwaitReconnect { publish_reconnecting: false },
            }),
            *final(self) == (if a is AwaitReconnect {
                ListenerState { disconnected_at: now, ..*old(self) }
            } else {
                *old(self)
            }),
    {
        match outcome {
            ConnectionOutcome::Shutdown => ListenerAction::Stop,
            ConnectionOutcome::ProtocolError => ListenerAction::Fail,
            ConnectionOutcome::Disconnected => {
                self.disconnected_at = now;
                ListenerAction::AwaitReconnect { publish_reconnecting: true }
            },
            ConnectionOutcome::IoError => {
                self.disconnected_at = now;
                ListenerAction::AwaitReconnect { publish_reconnecting: false }
            },
        }
    }
}

/// A message from the hook, by kind.
#[derive(Clone, Copy, Debug, PartialEq, Eq, Structural)]
pub enum HookMessageKind {
    Handshake,
    Ready,
    Game,
    InputDelayResult { id: u32 },
    Pong { id: u32 },
    Health,
    Goodbye,
}

/// What a message from the hook asks of the caller.
#[derive(Clone, Copy, Debug, PartialEq, Eq, Structural)]
pub enum MessageOutcome {
    /// Pass the game packet on.
    Forward,
    /// Hand the result to the caller waiting on this Input Delay call.
    Answer { id: u32 },
    /// The liveness ping was answered.
    Alive,
    /// Publish the hook's health, merged by `merged_health`.
    Publish,
    /// The hook said goodbye: the connection ended.
    Disconnected,
    /// The hook broke the protocol; the connection fails.
    Fail(LinkFailure),
}

/// How the hook broke the protocol.
#[derive(Clone, Copy, Debug, PartialEq, Eq, Structural)]
pub enum LinkFailure {
    UnexpectedHandshake,
    UnexpectedInputDelayId,
    UnexpectedPong,
}

impl LinkFailure {
    /// The message the connection fails with.
    pub fn message(&self) -> (m: &'static str)
        ensures
            m@ == (match *self {
                LinkFailure::UnexpectedHandshake => "unexpected handshake message after ready"@,
                LinkFailure::UnexpectedInputDelayId => "unexpected Input Delay response id"@,
                LinkFailure::UnexpectedPong => "unexpected local IPC liveness response"@,
            }),
    {
        match self {
            LinkFailure::UnexpectedHandshake => "unexpected handshake message after ready",
            LinkFailure::UnexpectedInputDelayId => "unexpected Input Delay response id",
            LinkFailure::UnexpectedPong => "unexpected local IPC liveness response",
        }
    }
}

/// The state of one connection: when the next ping is due, the ping
/// awaiting its pong and the deadline of that pong, the id of the next ping,
/// and the ids of the Input Delay calls awaiting a result.
pub struct LinkState {
    pub next_ping_at: u64,
    pub pending_ping: Option<(u32, u64)>,
    pub next_ping_id: u32,
    pub pending_calls: Vec<u32>,
}

/// A link as values.
pub type LinkView = (u64, Option<(u32, u64)>, u32, Seq<u32>);

impl View for LinkState {
    type V = LinkView;

    open spec fn view(&self) -> LinkView {
        (self.next_ping_at, self.pending_ping, self.next_ping_id, self.pending_calls@)
    }
}

/// `s` without `id`.
pub open spec fn spec_without(s: Seq<u32>, id: u32) -> Seq<u32>
    decreases s.len(),
{
    if s.len() == 0 {
        s
    } else if s.last() == id {
        spec_without(s.drop_last(), id)
    } else {
        spec_without(s.drop_last(), id).push(s.last())
    }
}

/// The link after a message from the hook, and what the message asks.
pub open spec fn spec_on_message(v: LinkView, m: HookMessageKind) -> (LinkView, MessageOutcome) {
    match m {
        HookMessageKind::Handshake | HookMessageKind::Ready =>
            (v, MessageOutcome::Fail(LinkFailure::UnexpectedHandshake)),
        HookMessageKind::Game => (v, MessageOutcome::Forward),
        HookMessageKind::InputDelayResult { id } => if v.3.contains(id) {
            ((v.0, v.1, v.2, spec_without(v.3, id)), MessageOutcome::Answer { id })
        } else {
            (v, MessageOutcome::Fail(LinkFailure::UnexpectedInputDelayId))
        },
        HookMessageKind::Pong { id } => match v.1 {
            Some((expected, _)) => if expected == id {
                ((v.0, None, v.2, v.3), MessageOutcome::Alive)
            } else {
                (v, MessageOutcome::Fail(LinkFailure::UnexpectedPong))
            },
            None => (v, MessageOutcome::Fail(LinkFailure::UnexpectedPong)),
        },
        HookMessageKind::Health => (v, MessageOutcome::Publish),
        HookMessageKind::Goodbye => (v, MessageOutcome::Disconnected),
    }
}

/// The liveness ping due at `now`, if any: none while a write is under way
/// or a ping awaits its pong, or before the ping time; otherwise the next id
/// (wrapping), with its pong due a second later and the next ping a quarter
/// second later.
pub open spec fn spec_ping_due(v: LinkView, write_pending: bool, now: u64) -> (LinkView, Option<u32>) {
    if !write_pending && v.1 is None && now >= v.0 {
        (
            ((now + LIVENESS_PING_INTERVAL_MICROS) as u64, Some((v.2, (now + LIVENESS_PONG_TIMEOUT_MICROS) as u64)),
                (if v.2 == u32::MAX { 0 } else { v.2 + 1 }) as u32, v.3),
            Some(v.2),
        )
    } else {
        (v, None)
    }
}

fn without(calls: &Vec<u32>, id: u32) -> (out: Vec<u32>)
    ensures
        out@ == spec_without(calls@, id),
{
    let mut out: Vec<u32> = Vec::new();
    let mut i: usize = 0;
    while i < calls.len()
        invariant
            i <= calls@.len(),
            out@ == spec_without(calls@.take(i as int), id),
        decreases calls@.len() - i,
    {
        proof {
            assert(calls@.take(i + 1).drop_last() == calls@.take(i as int));
        }
        if calls[i] != id {
            out.push(calls[i]);
        }
        i = i + 1;
    }
    proof {
        assert(calls@.take(calls@.len() as int) == calls@);
    }
    out
}

fn contains_id(calls: &Vec<u32>, id: u32) -> (r: bool)
    ensures
        r == calls@.contains(id),
{
    let mut i: usize = 0;
    while i < calls.len()
        invariant
            i <= calls@.len(),
            forall|k: int| 0 <= k < i ==> calls@[k] != id,
        decreases calls@.len() - i,
    {
        if calls[i] == id {
            return true;
        }
        i = i + 1;
    }
    false
}

impl LinkState {
    /// A connection that came up at `now`: its first ping is due a quarter
    /// second later.
    pub fn new(now: u64) -> (s: LinkState)
        requires
            now + LIVENESS_PING_INTERVAL_MICROS <= u64::MAX,
        ensures
            s@ == ((now + LIVENESS_PING_INTERVAL_MICROS) as u64, None::<(u32, u64)>, 1u32, Seq::<u32>::empty()),
    {
        LinkState { next_ping_at: now + LIVENESS_PING_INTERVAL_MICROS, pending_ping: None, next_ping_id: 1, pending_calls: Vec::new() }
    }

    /// Whether the awaited pong is overdue at `now`: the connection fails.
    pub fn liveness_expired(&self, now: u64) -> (r: bool)
        ensures
            r == (self.pending_ping matches Some((_, deadline)) && now >= deadline),
    {
        match self.pending_ping {
            Some((_, deadline)) => now >= deadline,
            None => false,
        }
    }

    /// An Input Delay call with `id` was sent and awaits its result.
    pub fn register_call(&mut self, id: u32)
        ensures
            final(self)@ == (old(self)@.0, old(self)@.1, old(self)@.2,
                if old(self)@.3.contains(id) { old(self)@.3 } else { old(self)@.3.push(id) }),
    {
        if !contains_id(&self.pending_calls, id) {
            self.pending_calls.push(id);
        }
    }

    /// Takes in one message from the hook.
    pub fn on_message(&mut self, m: HookMessageKind) -> (o: MessageOutcome)
        ensures
            (final(self)@, o) == spec_on_message(old(self)@, m),
    {
        match m {
            HookMessageKind::Handshake | HookMessageKind::Ready =>
                MessageOutcome::Fail(LinkFailure::UnexpectedHandshake),
            HookMessageKind::Game => MessageOutcome::Forward,
            HookMessageKind::InputDelayResult { id } => {
                if contains_id(&self.pending_calls, id) {
                    self.pending_calls = without(&self.pending_calls, id);
                    MessageOutcome::Answer { id }
                } else {
                    MessageOutcome::Fail(LinkFailure::UnexpectedInputDelayId)
                }
            },
            HookMessageKind::Pong { id } => match self.pending_ping {
                Some((expected, _)) => {
                    if expected == id {
                        self.pending_ping = None;
                        MessageOutcome::Alive
                    } else {
                        MessageOutcome::Fail(LinkFailure::UnexpectedPong)
                    }
                },
                None => MessageOutcome::Fail(LinkFailure::UnexpectedPong),
            },
            HookMessageKind::Health => MessageOutcome::Publish,
            HookMessageKind::Goodbye => MessageOutcome::Disconnected,
        }
    }

    /// The id of the liveness ping to write now, if one is due.
    pub fn ping_due(&mut self, write_pending: bool, now: u64) -> (r: Option<u32>)
        requires
            now + LIVENESS_PONG_TIMEOUT_MICROS <= u64::MAX,
        ensures
            (final(self)@, r) == spec_ping_due(old(self)@, write_pending, now),
    {
        if !write_pending && self.pending_ping.is_none() && now >= self.next_ping_at {
            let id = self.next_ping_id;
            self.next_ping_id = self.next_ping_id.wrapping_add(1);
            self.pending_ping = Some((id, now + LIVENESS_PONG_TIMEOUT_MICROS));
            self.next_ping_at = now + LIVENESS_PING_INTERVAL_MICROS;
            Some(id)
        } else {
            None
        }
    }
}

/// Whether another queued game packet may be written this turn: at most
/// `MAX_DATA_BURST` per turn, and none while a write is under way.
pub fn may_send_data(sent_this_turn: usize, write_pending: bool) -> (r: bool)
    ensures
        r == (sent_this_turn < MAX_DATA_BURST && !write_pending),
{
    sent_this_turn < MAX_DATA_BURST && !write_pending
}

/// While a ping awaits its pong no other ping is sent, and a pong answers
/// only the ping awaited.
pub proof fn law_one_ping_in_flight(v: LinkView, write_pending: bool, now: u64, id: u32)
    requires
        v.1 is Some,
    ensures
        spec_ping_due(v, write_pending, now) == (v, None::<u32>),
        (spec_on_message(v, HookMessageKind::Pong { id }).1 == MessageOutcome::Alive) <==> ((v.1->0).0 == id),
{
}

/// An answered Input Delay call no longer awaits a result, so a second
/// result with its id is refused.
pub proof fn law_call_answered_once(v: LinkView, id: u32)
    requires
        v.3.contains(id),
    ensures
        spec_on_message(v, HookMessageKind::InputDelayResult { id }).1 == (MessageOutcome::Answer { id }),
        spec_on_message(spec_on_message(v, HookMessageKind::InputDelayResult { id }).0, HookMessageKind::InputDelayResult { id }).1
            == MessageOutcome::Fail(LinkFailure::UnexpectedInputDelayId),
{
    lemma_without_drops(v.3, id);
}

proof fn lemma_without_drops(s: Seq<u32>, id: u32)
    ensures
        !spec_without(s, id).contains(id),
    decreases s.len(),
{
    if s.len() > 0 {
        lemma_without_drops(s.drop_last(), id);
        if s.last() != id {
            let w = spec_without(s.drop_last(), id);
            assert(w.push(s.last()).contains(id) ==> w.contains(id)) by {
                if w.push(s.last()).contains(id) {
                    let k = choose|k: int| 0 <= k < w.push(s.last()).len() && w.push(s.last())[k] == id;
                    assert(k < w.len());
                    assert(w[k] == id);
                }
            }
        }
    }
}

} // verus!
