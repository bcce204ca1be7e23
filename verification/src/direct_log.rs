//! Log lines of the direct data plane: incident transitions and the
//! end-of-session summary.

use vstd::prelude::*;
use crate::lan_data::{LanDataDropReason, LanDataPlaneSnapshot, LanDataStage};
use crate::lan_ledger::{LanDataDirection, LanIncidentTransition, LanIncidentTransitionKind};
use crate::logging::LogLevel;
use crate::text::{push_decimal, push_str, spec_decimal};

verus! {

pub open spec fn spec_kind_name(k: LanIncidentTransitionKind) -> Seq<char> {
    match k {
        LanIncidentTransitionKind::Started => "Started"@,
        LanIncidentTransitionKind::Recovered => "Recovered"@,
        LanIncidentTransitionKind::Closed => "Closed"@,
    }
}

pub open spec fn spec_direction_name(d: LanDataDirection) -> Seq<char> {
    match d {
        LanDataDirection::Send => "Send"@,
        LanDataDirection::Receive => "Receive"@,
    }
}

pub open spec fn spec_stage_name(s: LanDataStage) -> Seq<char> {
    match s {
        LanDataStage::OutboundQueue => "OutboundQueue"@,
        LanDataStage::UdpSend => "UdpSend"@,
        LanDataStage::InboundQueue => "InboundQueue"@,
        LanDataStage::HookQueue => "HookQueue"@,
    }
}

pub open spec fn spec_reason_name(r: LanDataDropReason) -> Seq<char> {
    match r {
        LanDataDropReason::QueueFull => "QueueFull"@,
        LanDataDropReason::QueueClosed => "QueueClosed"@,
        LanDataDropReason::PeerUnavailable => "PeerUnavailable"@,
        LanDataDropReason::GenerationClosed => "GenerationClosed"@,
        LanDataDropReason::PayloadTooLarge => "PayloadTooLarge"@,
        LanDataDropReason::EncodeFailed => "EncodeFailed"@,
        LanDataDropReason::SendFailed => "SendFailed"@,
        LanDataDropReason::HookDisconnected => "HookDisconnected"@,
        LanDataDropReason::SessionClosed => "SessionClosed"@,
    }
}

fn kind_name(k: LanIncidentTransitionKind) -> (s: &'static str)
    ensures
        s@ == spec_kind_name(k),
{
    match k {
        LanIncidentTransitionKind::Started => "Started",
        LanIncidentTransitionKind::Recovered => "Recovered",
        LanIncidentTransitionKind::Closed => "Closed",
    }
}

fn direction_name(d: LanDataDirection) -> (s: &'static str)
    ensures
        s@ == spec_direction_name(d),
{
    match d {
        LanDataDirection::Send => "Send",
        LanDataDirection::Receive => "Receive",
    }
}

fn stage_name(s: LanDataStage) -> (r: &'static str)
    ensures
        r@ == spec_stage_name(s),
{
    match s {
        LanDataStage::OutboundQueue => "OutboundQueue",
        LanDataStage::UdpSend => "UdpSend",
        LanDataStage::InboundQueue => "InboundQueue",
        LanDataStage::HookQueue => "HookQueue",
    }
}

fn reason_name(r: LanDataDropReason) -> (s: &'static str)
    ensures
        s@ == spec_reason_name(r),
{
    match r {
        LanDataDropReason::QueueFull => "QueueFull",
        LanDataDropReason::QueueClosed => "QueueClosed",
        LanDataDropReason::PeerUnavailable => "PeerUnavailable",
        LanDataDropReason::GenerationClosed => "GenerationClosed",
        LanDataDropReason::PayloadTooLarge => "PayloadTooLarge",
        LanDataDropReason::EncodeFailed => "EncodeFailed",
        LanDataDropReason::SendFailed => "SendFailed",
        LanDataDropReason::HookDisconnected => "HookDisconnected",
        LanDataDropReason::SessionClosed => "SessionClosed",
    }
}

/// A started incident is a warning; a recovery or closing is information.
pub fn transition_level(kind: LanIncidentTransitionKind) -> (l: LogLevel)
    ensures
        l == (if kind == LanIncidentTransitionKind::Started { LogLevel::Warn } else { LogLevel::Info }),
{
    match kind {
        LanIncidentTransitionKind::Started => LogLevel::Warn,
        _ => LogLevel::Info,
    }
}

pub open spec fn spec_transition_log(t: LanIncidentTransition) -> Seq<char> {
    "Direct data incident kind="@ + spec_kind_name(t.kind) + " peer_slot="@ + spec_decimal(t.peer_slot as nat)
        + " epoch="@ + spec_decimal(t.lifecycle_epoch as nat) + " direction="@ + spec_direction_name(t.direction)
        + " stage="@ + spec_stage_name(t.stage) + " reason="@ + spec_reason_name(t.reason) + " outage_ms="@
        + spec_decimal((t.duration / 1000) as nat) + " packets_dropped="@ + spec_decimal(t.dropped_packets as nat)
}

/// The log line of an incident transition.
pub fn transition_log(t: &LanIncidentTransition) -> (s: String)
    ensures
        s@ == spec_transition_log(*t),
{
    let mut s = String::new();
    push_str(&mut s, "Direct data incident kind=");
    push_str(&mut s, kind_name(t.kind));
    push_str(&mut s, " peer_slot=");
    push_decimal(&mut s, t.peer_slot as u128);
    push_str(&mut s, " epoch=");
    push_decimal(&mut s, t.lifecycle_epoch as u128);
    push_str(&mut s, " direction=");
    push_str(&mut s, direction_name(t.direction));
    push_str(&mut s, " stage=");
    push_str(&mut s, stage_name(t.stage));
    push_str(&mut s, " reason=");
    push_str(&mut s, reason_name(t.reason));
    push_str(&mut s, " outage_ms=");
    push_decimal(&mut s, (t.duration / 1000) as u128);
    push_str(&mut s, " packets_dropped=");
    push_decimal(&mut s, t.dropped_packets as u128);
    s
}

pub open spec fn spec_summary_line(s: LanDataPlaneSnapshot) -> Seq<char> {
    "Direct data summary peers="@ + spec_decimal(s.peers@.len()) + " send_queued="@ + spec_decimal(s.send.queued as nat)
        + " send_succeeded="@ + spec_decimal(s.send.resolved_success as nat) + " send_dropped="@
        + spec_decimal(s.send.dropped as nat) + " receive_queued="@ + spec_decimal(s.receive.queued as nat)
        + " hook_queue_accepted="@ + spec_decimal(s.receive.resolved_success as nat) + " receive_dropped="@
        + spec_decimal(s.receive.dropped as nat) + " transitions_dropped="@ + spec_decimal(s.transitions_dropped as nat)
}

/// The end-of-session summary of the direct data plane.
pub fn direct_summary_line(snapshot: &LanDataPlaneSnapshot) -> (s: String)
    ensures
        s@ == spec_summary_line(*snapshot),
{
    let mut s = String::new();
    push_str(&mut s, "Direct data summary peers=");
    push_decimal(&mut s, snapshot.peers.len() as u128);
    push_str(&mut s, " send_queued=");
    push_decimal(&mut s, snapshot.send.queued as u128);
    push_str(&mut s, " send_succeeded=");
    push_decimal(&mut s, snapshot.send.resolved_success as u128);
    push_str(&mut s, " send_dropped=");
    push_decimal(&mut s, snapshot.send.dropped as u128);
    push_str(&mut s, " receive_queued=");
    push_decimal(&mut s, snapshot.receive.queued as u128);
    push_str(&mut s, " hook_queue_accepted=");
    push_decimal(&mut s, snapshot.receive.resolved_success as u128);
    push_str(&mut s, " receive_dropped=");
    push_decimal(&mut s, snapshot.receive.dropped as u128);
    push_str(&mut s, " transitions_dropped=");
    push_decimal(&mut s, snapshot.transitions_dropped as u128);
    s
}

/// How a runtime task ended.
#[derive(Clone, Debug, PartialEq, Eq)]
pub enum TaskExit {
    /// The task returned normally.
    Finished,
    /// The task returned an error, described.
    Failed(String),
    /// The task panicked, described.
    Panicked(String),
    /// No task was left to wait for.
    NoneLeft,
}

/// Why a session's tasks stopped, unless the session was cancelled.
pub fn task_exit_message(task_name: &str, cancelled: bool, exit: &TaskExit) -> (m: Option<String>)
    ensures
        cancelled ==> m is None,
        !cancelled ==> (m matches Some(text) && text@ == match *exit {
            TaskExit::Finished => task_name@ + " exited"@,
            TaskExit::Failed(e) => task_name@ + " failed: "@ + e@,
            TaskExit::Panicked(e) => task_name@ + " panicked: "@ + e@,
            TaskExit::NoneLeft => task_name@ + "s exited"@,
        }),
{
    if cancelled {
        return None;
    }
    let mut s = String::new();
    push_str(&mut s, task_name);
    match exit {
        TaskExit::Finished => push_str(&mut s, " exited"),
        TaskExit::Failed(e) => {
            push_str(&mut s, " failed: ");
            push_str(&mut s, e.as_str());
        },
        TaskExit::Panicked(e) => {
            push_str(&mut s, " panicked: ");
            push_str(&mut s, e.as_str());
        },
        TaskExit::NoneLeft => push_str(&mut s, "s exited"),
    }
    Some(s)
}

} // verus!
