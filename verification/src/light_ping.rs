//! The course of a light ping run: a connection, then up to five pings, each
//! sent, answered or not, and followed by a pause. The caller performs each
//! action and hands back what came of it; the decisions are made here.

use vstd::prelude::*;
use crate::latency::sorted_u64;
use crate::probe::{
    LIGHT_PING_COUNT, LIGHT_PING_INTERVAL_MILLIS, LIGHT_PING_TIMEOUT_SECONDS, LightPingReport,
    LightPingTarget, light_ping_report,
};
use crate::text::push_str;

verus! {

/// Where a light ping run stands.
#[derive(Clone, Copy, Debug, PartialEq, Eq, Structural)]
pub enum LightPingPhase {
    Connecting,
    Sending,
    AwaitingPong,
    Resting,
    Finished,
}

/// A light ping run: the ping in hand (numbered from 1), the pings sent and
/// answered, the answered round trips and the first failure seen.
pub struct LightPingState {
    pub phase: LightPingPhase,
    pub id: u8,
    pub sent: u8,
    pub received: u8,
    pub rtts: Vec<u64>,
    pub failure_reason: Option<String>,
}

/// A run as values: phase, ping id, sent, received, round trips, failure.
pub type LightPingView = (LightPingPhase, u8, u8, u8, Seq<u64>, Option<Seq<char>>);

pub open spec fn opt_text(s: Option<String>) -> Option<Seq<char>> {
    match s {
        Some(t) => Some(t@),
        None => None,
    }
}

impl View for LightPingState {
    type V = LightPingView;

    open spec fn view(&self) -> LightPingView {
        (self.phase, self.id, self.sent, self.received, self.rtts@, opt_text(self.failure_reason))
    }
}

/// What came of the last action.
pub enum PingEvent {
    Connected,
    ConnectFailed(String),
    ConnectTimedOut,
    Sent,
    SendFailed(String),
    /// A datagram arrived; `pong_id` is the id of the pong it holds, if it
    /// holds one.
    Datagram { pong_id: Option<u64>, elapsed_ms: u64 },
    RecvFailed(String),
    RecvTimedOut,
    Rested,
}

/// What the caller does next.
#[derive(Clone, Copy, Debug, PartialEq, Eq, Structural)]
pub enum PingAction {
    Connect { timeout_seconds: u64 },
    SendPing { id: u64 },
    Receive { timeout_seconds: u64 },
    Sleep { millis: u64 },
    Report,
}

/// The action a run in state `v` waits on.
pub open spec fn spec_pending_action(v: LightPingView) -> PingAction {
    match v.0 {
        LightPingPhase::Connecting => PingAction::Connect { timeout_seconds: LIGHT_PING_TIMEOUT_SECONDS },
        LightPingPhase::Sending => PingAction::SendPing { id: v.1 as u64 },
        LightPingPhase::AwaitingPong => PingAction::Receive { timeout_seconds: LIGHT_PING_TIMEOUT_SECONDS },
        LightPingPhase::Resting => PingAction::Sleep { millis: LIGHT_PING_INTERVAL_MILLIS },
        LightPingPhase::Finished => PingAction::Report,
    }
}

/// The counts agree with the phase: the ping in hand is one of the five,
/// it is counted as sent once its send succeeded, it is not answered before
/// its pong is awaited, and every answer has its round trip.
pub open spec fn spec_ping_wf(v: LightPingView) -> bool {
    &&& 1 <= v.1 <= LIGHT_PING_COUNT
    &&& v.3 <= v.2
    &&& v.4.len() == v.3
    &&& match v.0 {
        LightPingPhase::Connecting => v.1 == 1 && v.2 == 0,
        LightPingPhase::Sending => v.2 == v.1 - 1,
        LightPingPhase::AwaitingPong => v.2 == v.1 && v.3 < v.2,
        LightPingPhase::Resting => v.2 == v.1,
        LightPingPhase::Finished => v.2 <= v.1,
    }
}

/// The failure to keep: the one already seen, else `m`.
pub open spec fn keep_first(failure: Option<Seq<char>>, m: Seq<char>) -> Option<Seq<char>> {
    if failure is Some { failure } else { Some(m) }
}

/// The run after event `e`. An event that does not answer the pending
/// action leaves the run as it is.
pub open spec fn spec_ping_next(v: LightPingView, e: PingEvent) -> LightPingView {
    let (phase, id, sent, received, rtts, failure) = v;
    match phase {
        LightPingPhase::Connecting => match e {
            PingEvent::Connected => (LightPingPhase::Sending, id, sent, received, rtts, failure),
            PingEvent::ConnectFailed(t) =>
                (LightPingPhase::Finished, id, sent, received, rtts, Some("connect failed: "@ + t@)),
            PingEvent::ConnectTimedOut =>
                (LightPingPhase::Finished, id, sent, received, rtts, Some("connect timed out"@)),
            _ => v,
        },
        LightPingPhase::Sending => match e {
            PingEvent::Sent => (LightPingPhase::AwaitingPong, id, (sent + 1) as u8, received, rtts, failure),
            PingEvent::SendFailed(t) =>
                (LightPingPhase::Finished, id, sent, received, rtts, Some("send failed: "@ + t@)),
            _ => v,
        },
        LightPingPhase::AwaitingPong => match e {
            PingEvent::Datagram { pong_id, elapsed_ms } => if pong_id == Some(id as u64) {
                (LightPingPhase::Resting, id, sent, (received + 1) as u8, rtts.push(elapsed_ms), failure)
            } else {
                (LightPingPhase::Resting, id, sent, received, rtts, failure)
            },
            PingEvent::RecvFailed(t) =>
                (LightPingPhase::Resting, id, sent, received, rtts, keep_first(failure, "recv failed: "@ + t@)),
            PingEvent::RecvTimedOut =>
                (LightPingPhase::Resting, id, sent, received, rtts, keep_first(failure, "ping timed out"@)),
            _ => v,
        },
        LightPingPhase::Resting => match e {
            PingEvent::Rested => if id == LIGHT_PING_COUNT {
                (LightPingPhase::Finished, id, sent, received, rtts, failure)
            } else {
                (LightPingPhase::Sending, (id + 1) as u8, sent, received, rtts, failure)
            },
            _ => v,
        },
        LightPingPhase::Finished => v,
    }
}

fn message(prefix: &str, detail: &String) -> (m: String)
    ensures
        m@ == prefix@ + detail@,
{
    let mut m = String::from_str(prefix);
    push_str(&mut m, detail.as_str());
    m
}

impl LightPingState {
    /// A run about to connect, to send ping 1 first.
    pub fn new() -> (s: LightPingState)
        ensures
            s@ == (LightPingPhase::Connecting, 1u8, 0u8, 0u8, Seq::<u64>::empty(), None::<Seq<char>>),
            spec_ping_wf(s@),
    {
        LightPingState {
            phase: LightPingPhase::Connecting,
            id: 1,
            sent: 0,
            received: 0,
            rtts: Vec::new(),
            failure_reason: None,
        }
    }

    /// The action the run waits on.
    pub fn pending_action(&self) -> (a: PingAction)
        ensures
            a == spec_pending_action(self@),
    {
        match self.phase {
            LightPingPhase::Connecting => PingAction::Connect { timeout_seconds: LIGHT_PING_TIMEOUT_SECONDS },
            LightPingPhase::Sending => PingAction::SendPing { id: self.id as u64 },
            LightPingPhase::AwaitingPong => PingAction::Receive { timeout_seconds: LIGHT_PING_TIMEOUT_SECONDS },
            LightPingPhase::Resting => PingAction::Sleep { millis: LIGHT_PING_INTERVAL_MILLIS },
            LightPingPhase::Finished => PingAction::Report,
        }
    }

    /// Takes in what came of the pending action and says what to do next.
    /// A failed send ends the run; a failed or missing answer is noted, the
    /// first such failure kept, and the run goes on; only a pong with the id
    /// of the ping in hand counts as an answer.
    pub fn step(&mut self, event: PingEvent) -> (a: PingAction)
        requires
            spec_ping_wf(old(self)@),
        ensures
            final(self)@ == spec_ping_next(old(self)@, event),
            spec_ping_wf(final(self)@),
            a == spec_pending_action(final(self)@),
    {
        let ghost e = event;
        match self.phase {
            LightPingPhase::Connecting => match event {
                PingEvent::Connected => {
                    self.phase = LightPingPhase::Sending;
                },
                PingEvent::ConnectFailed(t) => {
                    self.failure_reason = Some(message("connect failed: ", &t));
                    self.phase = LightPingPhase::Finished;
                },
                PingEvent::ConnectTimedOut => {
                    self.failure_reason = Some(String::from_str("connect timed out"));
                    self.phase = LightPingPhase::Finished;
                },
                _ => {},
            },
            LightPingPhase::Sending => match event {
                PingEvent::Sent => {
                    self.sent = self.sent + 1;
                    self.phase = LightPingPhase::AwaitingPong;
                },
                PingEvent::SendFailed(t) => {
                    self.failure_reason = Some(message("send failed: ", &t));
                    self.phase = LightPingPhase::Finished;
                },
                _ => {},
            },
            LightPingPhase::AwaitingPong => match event {
                PingEvent::Datagram { pong_id, elapsed_ms } => {
                    let answered = match pong_id {
                        Some(p) => p == self.id as u64,
                        None => false,
                    };
                    if answered {
                        self.rtts.push(elapsed_ms);
                        self.received = self.received + 1;
                    }
                    self.phase = LightPingPhase::Resting;
                },
                PingEvent::RecvFailed(t) => {
                    if self.failure_reason.is_none() {
                        self.failure_reason = Some(message("recv failed: ", &t));
                    }
                    self.phase = LightPingPhase::Resting;
                },
                PingEvent::RecvTimedOut => {
                    if self.failure_reason.is_none() {
                        self.failure_reason = Some(String::from_str("ping timed out"));
                    }
                    self.phase = LightPingPhase::Resting;
                },
                _ => {},
            },
            LightPingPhase::Resting => match event {
                PingEvent::Rested => {
                    if self.id == LIGHT_PING_COUNT {
                        self.phase = LightPingPhase::Finished;
                    } else {
                        self.id = self.id + 1;
                        self.phase = LightPingPhase::Sending;
                    }
                },
                _ => {},
            },
            LightPingPhase::Finished => {},
        }
        proof {
            assert(self@ =~~= spec_ping_next(old(self)@, e));
        }
        self.pending_action()
    }

    /// The report of the run for `target`: see `light_ping_report`.
    pub fn report(self, target: LightPingTarget) -> (r: LightPingReport)
        ensures
            r.target == target,
            r.sent == self.sent,
            r.received == self.received,
            r.median_rtt_ms == (if self.rtts@.len() == 0 { None } else {
                Some(sorted_u64(self.rtts@)[(self.rtts@.len() / 2) as int] as u128)
            }),
            self.received != 0 ==> r.failure_reason is None,
            self.received == 0 ==> match self.failure_reason {
                Some(f) => r.failure_reason matches Some(m) && m@ == f@,
                None => r.failure_reason matches Some(m) && m@ == "no pongs received"@,
            },
    {
        light_ping_report(target, self.sent, self.received, &self.rtts, self.failure_reason)
    }
}

/// Once a failure is noted, a later failed or missing answer leaves it as
/// it is.
pub proof fn law_first_failure_is_kept(v: LightPingView, e: PingEvent)
    requires
        spec_ping_wf(v),
        v.5 is Some,
        v.0 != LightPingPhase::Connecting,
        !(e is SendFailed),
    ensures
        spec_ping_next(v, e).5 == v.5,
{
}

/// A run never sends more than five pings nor counts more answers than it
/// sent, whatever happens.
pub proof fn law_counts_stay_bounded(v: LightPingView, e: PingEvent)
    requires
        spec_ping_wf(v),
    ensures
        spec_ping_next(v, e).2 <= LIGHT_PING_COUNT,
        spec_ping_next(v, e).3 <= spec_ping_next(v, e).2,
        spec_ping_wf(spec_ping_next(v, e)),
{
}

} // verus!
