//! Session health: traffic, queue, delivery, round-trip and direct-data-plane
//! evidence, with a quality verdict computed over the window since the previous
//! snapshot so that a recovered session is not judged by old anomalies.
//! Instants and durations are microseconds.

use vstd::prelude::*;
use crate::latency::{LatencyAccumulator, LatencySummary, sat_add, sat_sub};
use crate::health_stats::{
    PacketStageSnapshot, PacketStageStats, QueueHealthSnapshot, RuntimeRttSnapshot,
    RuntimeRttStats, spec_queue_after, spec_live_pings,
};
use crate::delivery::{DeliveryHealthSnapshot, DeliveryStats, DeliveryStreamId};
use crate::direct_health::{
    DirectFlowHealthSnapshot, DirectFlowWindow, DirectOutcomeWindow, same_flow,
    spec_flow_from_lan,
};
use crate::lan_data::LanDataPlaneSnapshot;
use crate::text::{push_decimal, push_str, spec_decimal};

verus! {

/// Seconds after the session start during which quality is not judged.
pub const ACTIVE_TRAFFIC_STARTUP_GRACE_SECONDS: u64 = 15;
/// Delivery gaps in one window that make the session worth watching.
pub const WATCH_DELIVERY_GAPS: u64 = 1;
/// Delivery gaps in one window that make the session poor.
pub const POOR_DELIVERY_GAPS: u64 = 10;
/// Reordered deliveries in one window that make the session worth watching.
pub const WATCH_DELIVERY_REORDERED: u64 = 10;
/// Runtime round-trip timeouts in one window that make the session poor.
pub const POOR_RUNTIME_RTT_TIMEOUTS: u64 = 3;

#[derive(Clone, Copy, Debug, PartialEq, Eq, Structural)]
pub enum SessionQuality {
    Unavailable,
    Good,
    Watch,
    Poor,
}

#[derive(Clone, Copy, Debug, PartialEq, Eq, Structural)]
pub enum QualityConfidence {
    Unrated,
    Low,
    Medium,
    High,
}

/// Why a window is not good, listed in this order.
#[derive(Clone, Copy, Debug, PartialEq, Eq, Structural)]
pub enum SessionQualityReason {
    LocalQueueDrop,
    NetworkSendDrop,
    DirectSendDrop,
    DirectReceiveDrop,
    DeliveryGap,
    DeliveryReordered,
    HookSendStall,
    RuntimeRttTimeout,
    StartupOrIdle,
}

impl SessionQuality {
    pub open spec fn spec_name(self) -> Seq<char> {
        match self {
            SessionQuality::Unavailable => "unavailable"@,
            SessionQuality::Good => "good"@,
            SessionQuality::Watch => "watch"@,
            SessionQuality::Poor => "poor"@,
        }
    }

    /// The lower-case name of the quality.
    pub fn name(self) -> (s: &'static str)
        ensures
            s@ == self.spec_name(),
    {
        match self {
            SessionQuality::Unavailable => "unavailable",
            SessionQuality::Good => "good",
            SessionQuality::Watch => "watch",
            SessionQuality::Poor => "poor",
        }
    }
}

/// Evidence and anomalies observed since the previous snapshot.
#[derive(Clone, Copy, Debug, PartialEq, Eq, Structural)]
pub struct SessionHealthWindow {
    pub duration_seconds: u64,
    pub hook_in_packets: u64,
    pub network_recv_packets: u64,
    pub direct: DirectFlowWindow,
    pub network_send_dropped: u64,
    pub queue_drops: u64,
    pub delivery_gaps: u64,
    pub delivery_reordered: u64,
    pub runtime_rtt_sent: u64,
    pub runtime_rtt_timeouts: u64,
    pub hook_send_over_500_ms: u64,
    pub hook_send_over_1000_ms: u64,
    pub network_gap_over_500_ms: u64,
    pub network_gap_over_1000_ms: u64,
}

impl SessionHealthWindow {
    pub open spec fn spec_zero() -> SessionHealthWindow {
        SessionHealthWindow {
            duration_seconds: 0,
            hook_in_packets: 0,
            network_recv_packets: 0,
            direct: DirectFlowWindow {
                send: DirectOutcomeWindow { resolved_success: 0, dropped: 0 },
                receive: DirectOutcomeWindow { resolved_success: 0, dropped: 0 },
            },
            network_send_dropped: 0,
            queue_drops: 0,
            delivery_gaps: 0,
            delivery_reordered: 0,
            runtime_rtt_sent: 0,
            runtime_rtt_timeouts: 0,
            hook_send_over_500_ms: 0,
            hook_send_over_1000_ms: 0,
            network_gap_over_500_ms: 0,
            network_gap_over_1000_ms: 0,
        }
    }
}

impl Default for SessionHealthWindow {
    fn default() -> (w: SessionHealthWindow)
        ensures
            w == SessionHealthWindow::spec_zero(),
    {
        SessionHealthWindow {
            duration_seconds: 0,
            hook_in_packets: 0,
            network_recv_packets: 0,
            direct: DirectFlowWindow {
                send: DirectOutcomeWindow { resolved_success: 0, dropped: 0 },
                receive: DirectOutcomeWindow { resolved_success: 0, dropped: 0 },
            },
            network_send_dropped: 0,
            queue_drops: 0,
            delivery_gaps: 0,
            delivery_reordered: 0,
            runtime_rtt_sent: 0,
            runtime_rtt_timeouts: 0,
            hook_send_over_500_ms: 0,
            hook_send_over_1000_ms: 0,
            network_gap_over_500_ms: 0,
            network_gap_over_1000_ms: 0,
        }
    }
}

/// Lifetime totals at one snapshot; windows are differences of baselines.
#[derive(Clone, Copy, Debug, PartialEq, Eq, Structural)]
pub struct QualityBaseline {
    pub hook_in_packets: u64,
    pub network_recv_packets: u64,
    pub direct_send_succeeded: u64,
    pub direct_send_dropped: u64,
    pub direct_receive_accepted: u64,
    pub direct_receive_dropped: u64,
    pub network_send_dropped: u64,
    pub queue_drops: u64,
    pub delivery_gaps: u64,
    pub delivery_reordered: u64,
    pub runtime_rtt_sent: u64,
    pub runtime_rtt_timeouts: u64,
    pub hook_send_over_500_ms: u64,
    pub hook_send_over_1000_ms: u64,
    pub network_gap_over_500_ms: u64,
    pub network_gap_over_1000_ms: u64,
}

impl QualityBaseline {
    pub open spec fn spec_zero() -> QualityBaseline {
        QualityBaseline {
            hook_in_packets: 0,
            network_recv_packets: 0,
            direct_send_succeeded: 0,
            direct_send_dropped: 0,
            direct_receive_accepted: 0,
            direct_receive_dropped: 0,
            network_send_dropped: 0,
            queue_drops: 0,
            delivery_gaps: 0,
            delivery_reordered: 0,
            runtime_rtt_sent: 0,
            runtime_rtt_timeouts: 0,
            hook_send_over_500_ms: 0,
            hook_send_over_1000_ms: 0,
            network_gap_over_500_ms: 0,
            network_gap_over_1000_ms: 0,
        }
    }

    pub fn zero() -> (b: QualityBaseline)
        ensures
            b == QualityBaseline::spec_zero(),
    {
        QualityBaseline {
            hook_in_packets: 0,
            network_recv_packets: 0,
            direct_send_succeeded: 0,
            direct_send_dropped: 0,
            direct_receive_accepted: 0,
            direct_receive_dropped: 0,
            network_send_dropped: 0,
            queue_drops: 0,
            delivery_gaps: 0,
            delivery_reordered: 0,
            runtime_rtt_sent: 0,
            runtime_rtt_timeouts: 0,
            hook_send_over_500_ms: 0,
            hook_send_over_1000_ms: 0,
            network_gap_over_500_ms: 0,
            network_gap_over_1000_ms: 0,
        }
    }

    /// The window from `previous` to `self` lasting `duration_micros`: each
    /// counter is the increase since `previous` (zero if it went down).
    pub open spec fn spec_delta(self, previous: QualityBaseline, duration_micros: u64) -> SessionHealthWindow {
        SessionHealthWindow {
            duration_seconds: (duration_micros / 1_000_000) as u64,
            hook_in_packets: sat_sub(self.hook_in_packets, previous.hook_in_packets),
            network_recv_packets: sat_sub(self.network_recv_packets, previous.network_recv_packets),
            direct: DirectFlowWindow {
                send: DirectOutcomeWindow {
                    resolved_success: sat_sub(self.direct_send_succeeded, previous.direct_send_succeeded),
                    dropped: sat_sub(self.direct_send_dropped, previous.direct_send_dropped),
                },
                receive: DirectOutcomeWindow {
                    resolved_success: sat_sub(self.direct_receive_accepted, previous.direct_receive_accepted),
                    dropped: sat_sub(self.direct_receive_dropped, previous.direct_receive_dropped),
                },
            },
            network_send_dropped: sat_sub(self.network_send_dropped, previous.network_send_dropped),
            queue_drops: sat_sub(self.queue_drops, previous.queue_drops),
            delivery_gaps: sat_sub(self.delivery_gaps, previous.delivery_gaps),
            delivery_reordered: sat_sub(self.delivery_reordered, previous.delivery_reordered),
            runtime_rtt_sent: sat_sub(self.runtime_rtt_sent, previous.runtime_rtt_sent),
            runtime_rtt_timeouts: sat_sub(self.runtime_rtt_timeouts, previous.runtime_rtt_timeouts),
            hook_send_over_500_ms: sat_sub(self.hook_send_over_500_ms, previous.hook_send_over_500_ms),
            hook_send_over_1000_ms: sat_sub(self.hook_send_over_1000_ms, previous.hook_send_over_1000_ms),
            network_gap_over_500_ms: sat_sub(self.network_gap_over_500_ms, previous.network_gap_over_500_ms),
            network_gap_over_1000_ms: sat_sub(self.network_gap_over_1000_ms, previous.network_gap_over_1000_ms),
        }
    }

    pub fn delta(self, previous: QualityBaseline, duration_micros: u64) -> (w: SessionHealthWindow)
        ensures
            w == self.spec_delta(previous, duration_micros),
    {
        SessionHealthWindow {
            duration_seconds: duration_micros / 1_000_000,
            hook_in_packets: self.hook_in_packets.saturating_sub(previous.hook_in_packets),
            network_recv_packets: self.network_recv_packets.saturating_sub(previous.network_recv_packets),
            direct: DirectFlowWindow {
                send: DirectOutcomeWindow {
                    resolved_success: self.direct_send_succeeded.saturating_sub(previous.direct_send_succeeded),
                    dropped: self.direct_send_dropped.saturating_sub(previous.direct_send_dropped),
                },
                receive: DirectOutcomeWindow {
                    resolved_success: self.direct_receive_accepted.saturating_sub(previous.direct_receive_accepted),
                    dropped: self.direct_receive_dropped.saturating_sub(previous.direct_receive_dropped),
                },
            },
            network_send_dropped: self.network_send_dropped.saturating_sub(previous.network_send_dropped),
            queue_drops: self.queue_drops.saturating_sub(previous.queue_drops),
            delivery_gaps: self.delivery_gaps.saturating_sub(previous.delivery_gaps),
            delivery_reordered: self.delivery_reordered.saturating_sub(previous.delivery_reordered),
            runtime_rtt_sent: self.runtime_rtt_sent.saturating_sub(previous.runtime_rtt_sent),
            runtime_rtt_timeouts: self.runtime_rtt_timeouts.saturating_sub(previous.runtime_rtt_timeouts),
            hook_send_over_500_ms: self.hook_send_over_500_ms.saturating_sub(previous.hook_send_over_500_ms),
            hook_send_over_1000_ms: self.hook_send_over_1000_ms.saturating_sub(previous.hook_send_over_1000_ms),
            network_gap_over_500_ms: self.network_gap_over_500_ms.saturating_sub(previous.network_gap_over_500_ms),
            network_gap_over_1000_ms: self.network_gap_over_1000_ms.saturating_sub(previous.network_gap_over_1000_ms),
        }
    }
}

impl Default for QualityBaseline {
    fn default() -> (b: QualityBaseline)
        ensures
            b == QualityBaseline::spec_zero(),
    {
        QualityBaseline::zero()
    }
}

pub struct QualityAssessment {
    pub quality: SessionQuality,
    pub confidence: QualityConfidence,
    pub reasons: Vec<SessionQualityReason>,
}

/// Outcomes of the direct data plane that reached a terminal state in the window.
pub open spec fn spec_direct_resolved(w: SessionHealthWindow) -> nat {
    (w.direct.send.resolved_success + w.direct.send.dropped + w.direct.receive.resolved_success
        + w.direct.receive.dropped) as nat
}

/// The window carries traffic: packets, pings or resolved direct outcomes.
pub open spec fn spec_has_evidence(w: SessionHealthWindow) -> bool {
    w.hook_in_packets > 0 || w.network_recv_packets > 0 || w.runtime_rtt_sent > 0
        || spec_direct_resolved(w) > 0
}

/// Nothing is judged during the startup grace period or without evidence.
pub open spec fn spec_startup_or_idle(elapsed_seconds: u64, w: SessionHealthWindow) -> bool {
    elapsed_seconds < ACTIVE_TRAFFIC_STARTUP_GRACE_SECONDS || !spec_has_evidence(w)
}

/// `s` with `r` appended when `cond` holds.
pub open spec fn push_if(s: Seq<SessionQualityReason>, cond: bool, r: SessionQualityReason) -> Seq<
    SessionQualityReason,
> {
    if cond { s.push(r) } else { s }
}

/// The anomalies of an active window, in reason order.
pub open spec fn spec_reasons(w: SessionHealthWindow) -> Seq<SessionQualityReason> {
    let s0 = Seq::<SessionQualityReason>::empty();
    let s1 = push_if(s0, w.queue_drops > 0, SessionQualityReason::LocalQueueDrop);
    let s2 = push_if(s1, w.network_send_dropped > 0, SessionQualityReason::NetworkSendDrop);
    let s3 = push_if(s2, w.direct.send.dropped > 0, SessionQualityReason::DirectSendDrop);
    let s4 = push_if(s3, w.direct.receive.dropped > 0, SessionQualityReason::DirectReceiveDrop);
    let s5 = push_if(s4, w.delivery_gaps >= WATCH_DELIVERY_GAPS, SessionQualityReason::DeliveryGap);
    let s6 = push_if(
        s5,
        w.delivery_reordered >= WATCH_DELIVERY_REORDERED,
        SessionQualityReason::DeliveryReordered,
    );
    let s7 = push_if(s6, w.hook_send_over_500_ms > 0, SessionQualityReason::HookSendStall);
    push_if(s7, w.runtime_rtt_timeouts > 0, SessionQualityReason::RuntimeRttTimeout)
}

/// An active window is poor when anything was dropped, when delivery gaps
/// reach the poor level, when a hook send stalled past a second, or when
/// several runtime pings timed out.
pub open spec fn spec_poor(w: SessionHealthWindow) -> bool {
    ||| w.queue_drops > 0
    ||| w.network_send_dropped > 0
    ||| w.direct.send.dropped > 0
    ||| w.direct.receive.dropped > 0
    ||| w.delivery_gaps >= POOR_DELIVERY_GAPS
    ||| (w.hook_send_over_500_ms > 0 && w.hook_send_over_1000_ms > 0)
    ||| w.runtime_rtt_timeouts >= POOR_RUNTIME_RTT_TIMEOUTS
}

/// Packets, pings and direct outcomes in the window.
pub open spec fn spec_evidence_count(w: SessionHealthWindow) -> nat {
    (w.hook_in_packets + w.network_recv_packets + w.runtime_rtt_sent) as nat + spec_direct_resolved(w)
}

pub open spec fn spec_quality(elapsed_seconds: u64, w: SessionHealthWindow) -> SessionQuality {
    if spec_startup_or_idle(elapsed_seconds, w) {
        SessionQuality::Unavailable
    } else if spec_poor(w) {
        SessionQuality::Poor
    } else if spec_reasons(w).len() == 0 {
        SessionQuality::Good
    } else {
        SessionQuality::Watch
    }
}

pub open spec fn spec_confidence(elapsed_seconds: u64, w: SessionHealthWindow) -> QualityConfidence {
    if spec_startup_or_idle(elapsed_seconds, w) {
        QualityConfidence::Unrated
    } else if spec_evidence_count(w) >= 40 {
        QualityConfidence::High
    } else if spec_evidence_count(w) >= 10 {
        QualityConfidence::Medium
    } else {
        QualityConfidence::Low
    }
}

pub open spec fn spec_assessment_reasons(elapsed_seconds: u64, w: SessionHealthWindow) -> Seq<
    SessionQualityReason,
> {
    if spec_startup_or_idle(elapsed_seconds, w) {
        seq![SessionQualityReason::StartupOrIdle]
    } else {
        spec_reasons(w)
    }
}

fn push_when(reasons: &mut Vec<SessionQualityReason>, cond: bool, r: SessionQualityReason)
    ensures
        final(reasons)@ == push_if(old(reasons)@, cond, r),
{
    if cond {
        reasons.push(r);
    }
}

/// Judges a window `elapsed_seconds` into the session.
pub fn classify_quality(elapsed_seconds: u64, window: SessionHealthWindow) -> (a: QualityAssessment)
    ensures
        a.quality == spec_quality(elapsed_seconds, window),
        a.confidence == spec_confidence(elapsed_seconds, window),
        a.reasons@ == spec_assessment_reasons(elapsed_seconds, window),
{
    let direct_resolved: u128 = window.direct.send.resolved_success as u128
        + window.direct.send.dropped as u128 + window.direct.receive.resolved_success as u128
        + window.direct.receive.dropped as u128;
    let has_evidence = window.hook_in_packets > 0 || window.network_recv_packets > 0
        || window.runtime_rtt_sent > 0 || direct_resolved > 0;
    if elapsed_seconds < ACTIVE_TRAFFIC_STARTUP_GRACE_SECONDS || !has_evidence {
        let mut reasons: Vec<SessionQualityReason> = Vec::new();
        reasons.push(SessionQualityReason::StartupOrIdle);
        return QualityAssessment {
            quality: SessionQuality::Unavailable,
            confidence: QualityConfidence::Unrated,
            reasons,
        };
    }
    let mut reasons: Vec<SessionQualityReason> = Vec::new();
    push_when(&mut reasons, window.queue_drops > 0, SessionQualityReason::LocalQueueDrop);
    push_when(&mut reasons, window.network_send_dropped > 0, SessionQualityReason::NetworkSendDrop);
    push_when(&mut reasons, window.direct.send.dropped > 0, SessionQualityReason::DirectSendDrop);
    push_when(&mut reasons, window.direct.receive.dropped > 0, SessionQualityReason::DirectReceiveDrop);
    push_when(&mut reasons, window.delivery_gaps >= WATCH_DELIVERY_GAPS, SessionQualityReason::DeliveryGap);
    push_when(
        &mut reasons,
        window.delivery_reordered >= WATCH_DELIVERY_REORDERED,
        SessionQualityReason::DeliveryReordered,
    );
    push_when(&mut reasons, window.hook_send_over_500_ms > 0, SessionQualityReason::HookSendStall);
    push_when(&mut reasons, window.runtime_rtt_timeouts > 0, SessionQualityReason::RuntimeRttTimeout);
    let poor = window.queue_drops > 0 || window.network_send_dropped > 0
        || window.direct.send.dropped > 0 || window.direct.receive.dropped > 0
        || window.delivery_gaps >= POOR_DELIVERY_GAPS
        || (window.hook_send_over_500_ms > 0 && window.hook_send_over_1000_ms > 0)
        || window.runtime_rtt_timeouts >= POOR_RUNTIME_RTT_TIMEOUTS;
    let evidence: u128 = window.hook_in_packets as u128 + window.network_recv_packets as u128
        + window.runtime_rtt_sent as u128 + direct_resolved;
    let quality = if poor {
        SessionQuality::Poor
    } else if reasons.len() == 0 {
        SessionQuality::Good
    } else {
        SessionQuality::Watch
    };
    let confidence = if evidence >= 40 {
        QualityConfidence::High
    } else if evidence >= 10 {
        QualityConfidence::Medium
    } else {
        QualityConfidence::Low
    };
    QualityAssessment { quality, confidence, reasons }
}


impl QualityConfidence {
    pub open spec fn spec_debug_name(self) -> Seq<char> {
        match self {
            QualityConfidence::Unrated => "None"@,
            QualityConfidence::Low => "Low"@,
            QualityConfidence::Medium => "Medium"@,
            QualityConfidence::High => "High"@,
        }
    }

    /// The variant's name as written in a log line.
    pub fn debug_name(self) -> (s: &'static str)
        ensures
            s@ == self.spec_debug_name(),
    {
        match self {
            QualityConfidence::Unrated => "None",
            QualityConfidence::Low => "Low",
            QualityConfidence::Medium => "Medium",
            QualityConfidence::High => "High",
        }
    }
}

impl SessionQualityReason {
    /// The variant's name as written in a log line.
    pub fn debug_name(self) -> (s: &'static str)
        ensures
            s@ == spec_reason_name(self),
    {
        match self {
            SessionQualityReason::LocalQueueDrop => "LocalQueueDrop",
            SessionQualityReason::NetworkSendDrop => "NetworkSendDrop",
            SessionQualityReason::DirectSendDrop => "DirectSendDrop",
            SessionQualityReason::DirectReceiveDrop => "DirectReceiveDrop",
            SessionQualityReason::DeliveryGap => "DeliveryGap",
            SessionQualityReason::DeliveryReordered => "DeliveryReordered",
            SessionQualityReason::HookSendStall => "HookSendStall",
            SessionQualityReason::RuntimeRttTimeout => "RuntimeRttTimeout",
            SessionQualityReason::StartupOrIdle => "StartupOrIdle",
        }
    }
}

pub open spec fn spec_reason_name(r: SessionQualityReason) -> Seq<char> {
    match r {
        SessionQualityReason::LocalQueueDrop => "LocalQueueDrop"@,
        SessionQualityReason::NetworkSendDrop => "NetworkSendDrop"@,
        SessionQualityReason::DirectSendDrop => "DirectSendDrop"@,
        SessionQualityReason::DirectReceiveDrop => "DirectReceiveDrop"@,
        SessionQualityReason::DeliveryGap => "DeliveryGap"@,
        SessionQualityReason::DeliveryReordered => "DeliveryReordered"@,
        SessionQualityReason::HookSendStall => "HookSendStall"@,
        SessionQualityReason::RuntimeRttTimeout => "RuntimeRttTimeout"@,
        SessionQualityReason::StartupOrIdle => "StartupOrIdle"@,
    }
}

/// Hand-offs of direct-path packets to the hook.
#[derive(Clone, Copy, Debug, PartialEq, Eq, Structural)]
pub struct DirectReceiveHandoffSnapshot {
    pub enabled: bool,
    pub attempted: u64,
    pub dropped: u64,
    /// The last hand-off was dropped.
    pub saturated: bool,
}

/// Delivery evidence under its earlier name.
pub type SequenceHealthSnapshot = DeliveryHealthSnapshot;

/// Everything known about a session at one instant, with the verdict over the
/// window since the previous snapshot.
#[derive(Debug)]
pub struct SessionHealthSnapshot {
    pub elapsed_seconds: u64,
    pub quality: SessionQuality,
    pub confidence: QualityConfidence,
    pub reasons: Vec<SessionQualityReason>,
    pub window: SessionHealthWindow,
    pub hook_in_recv: PacketStageSnapshot,
    pub network_recv: PacketStageSnapshot,
    pub network_send_duration: LatencySummary,
    pub hook_out_send_duration: LatencySummary,
    pub queues: QueueHealthSnapshot,
    pub network_send_dropped: u64,
    pub delivery: DeliveryHealthSnapshot,
    pub runtime_rtt: RuntimeRttSnapshot,
    pub direct: DirectFlowHealthSnapshot,
    pub direct_receive: DirectReceiveHandoffSnapshot,
}

pub type SessionHealthSummary = SessionHealthSnapshot;

impl QualityBaseline {
    /// The lifetime totals that a snapshot's components carry.
    pub open spec fn spec_from_snapshots(
        hook_in: PacketStageSnapshot,
        network_recv: PacketStageSnapshot,
        queues: QueueHealthSnapshot,
        network_send_dropped: u64,
        delivery: DeliveryHealthSnapshot,
        runtime_rtt: RuntimeRttSnapshot,
        hook_send: LatencySummary,
        direct: DirectFlowHealthSnapshot,
    ) -> QualityBaseline {
        QualityBaseline {
            hook_in_packets: hook_in.packets,
            network_recv_packets: network_recv.packets,
            direct_send_succeeded: direct.send.resolved_success,
            direct_send_dropped: direct.send.dropped,
            direct_receive_accepted: direct.receive.resolved_success,
            direct_receive_dropped: direct.receive.dropped,
            network_send_dropped,
            queue_drops: sat_add(queues.outbound_dropped, queues.inbound_dropped),
            delivery_gaps: delivery.confirmed_gaps,
            delivery_reordered: delivery.reordered,
            runtime_rtt_sent: runtime_rtt.sent,
            runtime_rtt_timeouts: runtime_rtt.timed_out,
            hook_send_over_500_ms: hook_send.over_500_ms,
            hook_send_over_1000_ms: hook_send.over_1000_ms,
            network_gap_over_500_ms: network_recv.gap.over_500_ms,
            network_gap_over_1000_ms: network_recv.gap.over_1000_ms,
        }
    }

    pub fn from_snapshots(
        hook_in: PacketStageSnapshot,
        network_recv: PacketStageSnapshot,
        queues: QueueHealthSnapshot,
        network_send_dropped: u64,
        delivery: DeliveryHealthSnapshot,
        runtime_rtt: RuntimeRttSnapshot,
        hook_send: LatencySummary,
        direct: &DirectFlowHealthSnapshot,
    ) -> (b: QualityBaseline)
        ensures
            b == QualityBaseline::spec_from_snapshots(
                hook_in,
                network_recv,
                queues,
                network_send_dropped,
                delivery,
                runtime_rtt,
                hook_send,
                *direct,
            ),
    {
        QualityBaseline {
            hook_in_packets: hook_in.packets,
            network_recv_packets: network_recv.packets,
            direct_send_succeeded: direct.send.resolved_success,
            direct_send_dropped: direct.send.dropped,
            direct_receive_accepted: direct.receive.resolved_success,
            direct_receive_dropped: direct.receive.dropped,
            network_send_dropped,
            queue_drops: queues.total_dropped(),
            delivery_gaps: delivery.confirmed_gaps,
            delivery_reordered: delivery.reordered,
            runtime_rtt_sent: runtime_rtt.sent,
            runtime_rtt_timeouts: runtime_rtt.timed_out,
            hook_send_over_500_ms: hook_send.over_500_ms,
            hook_send_over_1000_ms: hook_send.over_1000_ms,
            network_gap_over_500_ms: network_recv.gap.over_500_ms,
            network_gap_over_1000_ms: network_recv.gap.over_1000_ms,
        }
    }
}

/// Live health accounting of one session. Instants are microseconds.
#[derive(Debug)]
pub struct SessionHealth {
    pub start: u64,
    pub runtime_rtt_enabled: bool,
    pub runtime_rtt_timeout: u64,
    pub hook_in_recv: PacketStageStats,
    pub network_recv: PacketStageStats,
    pub network_send_duration: LatencyAccumulator,
    pub hook_out_send_duration: LatencyAccumulator,
    pub queues: QueueHealthSnapshot,
    pub network_send_dropped: u64,
    pub delivery: DeliveryStats,
    pub runtime_rtt: RuntimeRttStats,
    pub direct: DirectFlowHealthSnapshot,
    pub direct_receive: DirectReceiveHandoffSnapshot,
    pub quality_baseline: QualityBaseline,
    pub last_snapshot: u64,
}

impl SessionHealth {
    pub open spec fn wf(&self) -> bool {
        &&& self.hook_in_recv.wf()
        &&& self.network_recv.wf()
        &&& self.network_send_duration.wf()
        &&& self.hook_out_send_duration.wf()
        &&& self.delivery.wf()
        &&& self.runtime_rtt.wf()
    }

    /// A session started at `now`, with runtime pings on or off and the
    /// timeout after which an unanswered ping counts as lost.
    pub fn new(runtime_rtt_enabled: bool, runtime_rtt_timeout: u64, now: u64) -> (h: SessionHealth)
        ensures
            h.wf(),
            h.start == now,
            h.last_snapshot == now,
            h.runtime_rtt_enabled == runtime_rtt_enabled,
            h.runtime_rtt_timeout == runtime_rtt_timeout,
            h.hook_in_recv.packets == 0 && h.hook_in_recv.last_seen is None,
            h.network_recv.packets == 0 && h.network_recv.last_seen is None,
            h.network_send_duration.count == 0,
            h.hook_out_send_duration.count == 0,
            h.hook_out_send_duration.over_500_ms == 0,
            h.hook_out_send_duration.over_1000_ms == 0,
            h.queues == QueueHealthSnapshot::spec_zero(),
            h.network_send_dropped == 0,
            h.delivery.confirmed_gaps == 0 && h.delivery.reordered == 0,
            h.delivery.peers@.len() == 0,
            h.runtime_rtt.sent == 0 && h.runtime_rtt.timed_out == 0,
            h.runtime_rtt.pending@.len() == 0,
            !h.direct.enabled,
            h.direct.send.resolved_success == 0 && h.direct.send.dropped == 0,
            h.direct.receive.resolved_success == 0 && h.direct.receive.dropped == 0,
            h.direct_receive == (DirectReceiveHandoffSnapshot { enabled: false, attempted: 0, dropped: 0, saturated: false }),
            h.quality_baseline == QualityBaseline::spec_zero(),
    {
        SessionHealth {
            start: now,
            runtime_rtt_enabled,
            runtime_rtt_timeout,
            hook_in_recv: PacketStageStats::new(),
            network_recv: PacketStageStats::new(),
            network_send_duration: LatencyAccumulator::new(),
            hook_out_send_duration: LatencyAccumulator::new(),
            queues: QueueHealthSnapshot::zero(),
            network_send_dropped: 0,
            delivery: DeliveryStats::new(),
            runtime_rtt: RuntimeRttStats::new(),
            direct: DirectFlowHealthSnapshot::disabled(),
            direct_receive: DirectReceiveHandoffSnapshot { enabled: false, attempted: 0, dropped: 0, saturated: false },
            quality_baseline: QualityBaseline::zero(),
            last_snapshot: now,
        }
    }

    /// A packet of `bytes` bytes read from the hook at `now`.
    pub fn observe_hook_in_recv(&mut self, bytes: usize, now: u64)
        requires
            old(self).wf(),
        ensures
            final(self).wf(),
            old(self).hook_in_recv.spec_observed(final(self).hook_in_recv, bytes, now),
            *final(self) == (SessionHealth { hook_in_recv: final(self).hook_in_recv, ..*old(self) }),
    {
        self.hook_in_recv.observe(bytes, now);
    }

    /// A packet of `bytes` bytes received from the network at `now`.
    pub fn observe_network_recv(&mut self, bytes: usize, now: u64)
        requires
            old(self).wf(),
        ensures
            final(self).wf(),
            old(self).network_recv.spec_observed(final(self).network_recv, bytes, now),
            *final(self) == (SessionHealth { network_recv: final(self).network_recv, ..*old(self) }),
    {
        self.network_recv.observe(bytes, now);
    }

    /// One attempt to queue a packet for the network.
    pub fn observe_outbound_enqueue(&mut self, accepted: bool)
        requires
            old(self).wf(),
        ensures
            final(self).wf(),
            *final(self) == (SessionHealth {
                queues: spec_queue_after(old(self).queues, true, accepted),
                ..*old(self)
            }),
    {
        self.queues.observe_outbound(accepted);
    }

    /// One attempt to queue a received packet for the hook.
    pub fn observe_inbound_enqueue(&mut self, accepted: bool)
        requires
            old(self).wf(),
        ensures
            final(self).wf(),
            *final(self) == (SessionHealth {
                queues: spec_queue_after(old(self).queues, false, accepted),
                ..*old(self)
            }),
    {
        self.queues.observe_inbound(accepted);
    }

    /// Direct-path packets are handed to the hook in this session.
    pub fn enable_direct_receive_handoff(&mut self)
        requires
            old(self).wf(),
        ensures
            final(self).wf(),
            *final(self) == (SessionHealth {
                direct_receive: DirectReceiveHandoffSnapshot { enabled: true, ..old(self).direct_receive },
                ..*old(self)
            }),
    {
        self.direct_receive.enabled = true;
    }

    /// A direct-path packet handed towards the hook, accepted or dropped: it
    /// is counted, and the hand-off is saturated while drops continue.
    pub fn observe_direct_receive_handoff(&mut self, accepted: bool)
        requires
            old(self).wf(),
        ensures
            final(self).wf(),
            *final(self) == (SessionHealth {
                direct_receive: DirectReceiveHandoffSnapshot {
                    enabled: old(self).direct_receive.enabled,
                    attempted: sat_add(old(self).direct_receive.attempted, 1),
                    dropped: sat_add(old(self).direct_receive.dropped, if accepted { 0 } else { 1 }),
                    saturated: !accepted,
                },
                ..*old(self)
            }),
    {
        self.direct_receive.attempted = self.direct_receive.attempted.saturating_add(1);
        if !accepted {
            self.direct_receive.dropped = self.direct_receive.dropped.saturating_add(1);
        }
        self.direct_receive.saturated = !accepted;
    }

    /// A network send that took `duration` microseconds.
    pub fn observe_network_send_duration(&mut self, duration: u64)
        requires
            old(self).wf(),
        ensures
            final(self).wf(),
            old(self).network_send_duration.spec_observed(final(self).network_send_duration, duration / 1000),
            *final(self) == (SessionHealth {
                network_send_duration: final(self).network_send_duration,
                ..*old(self)
            }),
    {
        self.network_send_duration.observe(duration / 1000);
    }

    /// A hook send that took `duration` microseconds.
    pub fn observe_hook_out_send_duration(&mut self, duration: u64)
        requires
            old(self).wf(),
        ensures
            final(self).wf(),
            old(self).hook_out_send_duration.spec_observed(final(self).hook_out_send_duration, duration / 1000),
            *final(self) == (SessionHealth {
                hook_out_send_duration: final(self).hook_out_send_duration,
                ..*old(self)
            }),
    {
        self.hook_out_send_duration.observe(duration / 1000);
    }

    /// A packet that could not be handed to the network.
    pub fn observe_network_send_drop(&mut self)
        requires
            old(self).wf(),
        ensures
            final(self).wf(),
            *final(self) == (SessionHealth {
                network_send_dropped: sat_add(old(self).network_send_dropped, 1),
                ..*old(self)
            }),
    {
        self.network_send_dropped = self.network_send_dropped.saturating_add(1);
    }

    /// Delivery sequence `sequence` of `stream` received from `peer`.
    pub fn observe_delivery(&mut self, peer: u64, stream: DeliveryStreamId, sequence: u64)
        requires
            old(self).wf(),
        ensures
            final(self).wf(),
            old(self).delivery.spec_observed(final(self).delivery, peer, stream, sequence),
            *final(self) == (SessionHealth { delivery: final(self).delivery, ..*old(self) }),
    {
        self.delivery.observe(peer, stream, sequence);
    }

    /// Replaces the direct data-plane report with one built from `lan`.
    pub fn refresh_direct(&mut self, lan: LanDataPlaneSnapshot)
        requires
            old(self).wf(),
        ensures
            final(self).wf(),
            spec_flow_from_lan(final(self).direct, lan),
            *final(self) == (SessionHealth { direct: final(self).direct, ..*old(self) }),
    {
        self.direct = DirectFlowHealthSnapshot::from_lan(&lan);
    }

    /// The pending runtime pings after expiring those older than the timeout.
    pub open spec fn spec_rtt_expired(&self, after: RuntimeRttStats, now: u64) -> bool {
        if self.runtime_rtt_enabled {
            let live = spec_live_pings(self.runtime_rtt.pending@, now, self.runtime_rtt_timeout);
            &&& after.wf()
            &&& after.pending@ == live
            &&& after.timed_out == sat_add(
                self.runtime_rtt.timed_out,
                (self.runtime_rtt.pending@.len() - live.len()) as u64,
            )
            &&& after.next_id == self.runtime_rtt.next_id
            &&& after.sent == self.runtime_rtt.sent
            &&& after.received == self.runtime_rtt.received
            &&& after.latency == self.runtime_rtt.latency
        } else {
            after == self.runtime_rtt
        }
    }

    fn expire_runtime_rtt(&mut self, now: u64)
        requires
            old(self).wf(),
        ensures
            final(self).wf(),
            old(self).spec_rtt_expired(final(self).runtime_rtt, now),
            *final(self) == (SessionHealth { runtime_rtt: final(self).runtime_rtt, ..*old(self) }),
    {
        if self.runtime_rtt_enabled {
            self.runtime_rtt.expire(now, self.runtime_rtt_timeout);
        }
    }

    /// With runtime pings on, expires old pings and issues a new one sent at
    /// `now`; with them off, does nothing and returns `None`.
    pub fn next_health_ping(&mut self, now: u64) -> (id: Option<u64>)
        requires
            old(self).wf(),
        ensures
            final(self).wf(),
            !old(self).runtime_rtt_enabled ==> id is None && *final(self) == *old(self),
            old(self).runtime_rtt_enabled ==> (id matches Some(i) && {
                let expired_pending = spec_live_pings(old(self).runtime_rtt.pending@, now, old(self).runtime_rtt_timeout);
                &&& i == sat_add(old(self).runtime_rtt.next_id, 1)
                &&& final(self).runtime_rtt.next_id == i
                &&& final(self).runtime_rtt.sent == sat_add(old(self).runtime_rtt.sent, 1)
                &&& final(self).runtime_rtt.received == old(self).runtime_rtt.received
                &&& final(self).runtime_rtt.timed_out == sat_add(
                    old(self).runtime_rtt.timed_out,
                    (old(self).runtime_rtt.pending@.len() - expired_pending.len()) as u64,
                )
                &&& crate::health_stats::spec_has_ping(final(self).runtime_rtt.pending@, i)
                &&& forall|p: crate::health_stats::PendingPing| #![auto] p.id != i ==> (
                    final(self).runtime_rtt.pending@.contains(p) <==> expired_pending.contains(p))
            }),
            *final(self) == (SessionHealth { runtime_rtt: final(self).runtime_rtt, ..*old(self) }),
    {
        if !self.runtime_rtt_enabled {
            return None;
        }
        self.expire_runtime_rtt(now);
        Some(self.runtime_rtt.next_ping(now))
    }

    /// The answer to ping `id` arrived at `now`; ignored with pings off.
    pub fn observe_health_pong(&mut self, id: u64, now: u64)
        requires
            old(self).wf(),
        ensures
            final(self).wf(),
            !old(self).runtime_rtt_enabled ==> *final(self) == *old(self),
            old(self).runtime_rtt_enabled ==> old(self).runtime_rtt.spec_pong_observed(final(self).runtime_rtt, id, now),
            *final(self) == (SessionHealth { runtime_rtt: final(self).runtime_rtt, ..*old(self) }),
    {
        if self.runtime_rtt_enabled {
            self.runtime_rtt.observe_pong(id, now);
        }
    }

    /// Reports the session at `now` and starts a new quality window there.
    pub fn snapshot(&mut self, now: u64) -> (s: SessionHealthSnapshot)
        requires
            old(self).wf(),
        ensures
            final(self).wf(),
            old(self).spec_rtt_expired(final(self).runtime_rtt, now),
            s.hook_in_recv == old(self).hook_in_recv.spec_snapshot(),
            s.network_recv == old(self).network_recv.spec_snapshot(),
            s.network_send_duration == old(self).network_send_duration.spec_summary(),
            s.hook_out_send_duration == old(self).hook_out_send_duration.spec_summary(),
            s.queues == old(self).queues,
            s.network_send_dropped == old(self).network_send_dropped,
            s.delivery == old(self).delivery.spec_snapshot(),
            s.runtime_rtt == final(self).runtime_rtt.spec_snapshot(old(self).runtime_rtt_enabled),
            same_flow(s.direct, old(self).direct),
            s.direct_receive == old(self).direct_receive,
            s.elapsed_seconds == sat_sub(now, old(self).start) / 1_000_000,
            s.window == final(self).quality_baseline.spec_delta(
                old(self).quality_baseline,
                sat_sub(now, old(self).last_snapshot),
            ),
            final(self).quality_baseline == QualityBaseline::spec_from_snapshots(
                s.hook_in_recv,
                s.network_recv,
                s.queues,
                s.network_send_dropped,
                s.delivery,
                s.runtime_rtt,
                s.hook_out_send_duration,
                s.direct,
            ),
            s.quality == spec_quality(s.elapsed_seconds, s.window),
            s.confidence == spec_confidence(s.elapsed_seconds, s.window),
            s.reasons@ == spec_assessment_reasons(s.elapsed_seconds, s.window),
            *final(self) == (SessionHealth {
                runtime_rtt: final(self).runtime_rtt,
                quality_baseline: final(self).quality_baseline,
                last_snapshot: now,
                ..*old(self)
            }),
    {
        self.expire_runtime_rtt(now);
        let hook_in_recv = self.hook_in_recv.snapshot();
        let network_recv = self.network_recv.snapshot();
        let queues = self.queues;
        let delivery = self.delivery.snapshot();
        let runtime_rtt = self.runtime_rtt.snapshot(self.runtime_rtt_enabled);
        let network_send_duration = self.network_send_duration.summary();
        let hook_out_send_duration = self.hook_out_send_duration.summary();
        let elapsed_seconds = now.saturating_sub(self.start) / 1_000_000;
        let direct = self.direct.duplicate();
        let current = QualityBaseline::from_snapshots(
            hook_in_recv,
            network_recv,
            queues,
            self.network_send_dropped,
            delivery,
            runtime_rtt,
            hook_out_send_duration,
            &direct,
        );
        let window = current.delta(self.quality_baseline, now.saturating_sub(self.last_snapshot));
        self.quality_baseline = current;
        self.last_snapshot = now;
        let assessment = classify_quality(elapsed_seconds, window);
        SessionHealthSnapshot {
            elapsed_seconds,
            quality: assessment.quality,
            confidence: assessment.confidence,
            reasons: assessment.reasons,
            window,
            hook_in_recv,
            network_recv,
            network_send_duration,
            hook_out_send_duration,
            queues,
            network_send_dropped: self.network_send_dropped,
            delivery,
            runtime_rtt,
            direct,
            direct_receive: self.direct_receive,
        }
    }
}


/// A duration in milliseconds as `<n>ms`, or `-` when there is none.
pub open spec fn spec_display_ms(value: Option<u64>) -> Seq<char> {
    match value {
        Some(v) => spec_decimal(v as nat) + "ms"@,
        None => "-"@,
    }
}

/// The reason names separated by `, `.
pub open spec fn spec_joined_reasons(rs: Seq<SessionQualityReason>) -> Seq<char>
    decreases rs.len(),
{
    if rs.len() == 0 {
        Seq::empty()
    } else if rs.len() == 1 {
        spec_reason_name(rs[0])
    } else {
        spec_joined_reasons(rs.drop_last()) + ", "@ + spec_reason_name(rs.last())
    }
}

/// The one-line summary of a snapshot under `label`.
pub open spec fn spec_compact_log_line(s: SessionHealthSnapshot, label: Seq<char>) -> Seq<char> {
    label + ": quality="@ + s.quality.spec_name() + " confidence="@ + s.confidence.spec_debug_name()
        + " reasons=["@ + spec_joined_reasons(s.reasons@) + "] window="@
        + spec_decimal(s.window.duration_seconds as nat) + "s hook_in="@
        + spec_decimal(s.hook_in_recv.packets as nat) + " relay_recv="@
        + spec_decimal(s.network_recv.packets as nat) + " rtt_p95="@
        + spec_display_ms(s.runtime_rtt.latency.p95_ms) + " queue_drops="@
        + spec_decimal(sat_add(s.queues.outbound_dropped, s.queues.inbound_dropped) as nat)
        + " seq_gaps="@ + spec_decimal(s.delivery.confirmed_gaps as nat) + " relay_gap_p95="@
        + spec_display_ms(s.network_recv.gap.p95_ms) + " hook_out_p95="@
        + spec_display_ms(s.hook_out_send_duration.p95_ms)
}

fn push_display_ms(out: &mut String, value: Option<u64>)
    ensures
        final(out)@ == old(out)@ + spec_display_ms(value),
{
    match value {
        Some(v) => {
            push_decimal(out, v as u128);
            push_str(out, "ms");
        },
        None => push_str(out, "-"),
    }
}

fn push_reasons(out: &mut String, rs: &Vec<SessionQualityReason>)
    ensures
        final(out)@ == old(out)@ + spec_joined_reasons(rs@),
{
    let ghost start = out@;
    let mut i: usize = 0;
    while i < rs.len()
        invariant
            i <= rs@.len(),
            out@ == start + spec_joined_reasons(rs@.take(i as int)),
        decreases rs@.len() - i,
    {
        proof {
            assert(rs@.take(i + 1).drop_last() == rs@.take(i as int));
            assert(rs@.take(i + 1).last() == rs@[i as int]);
        }
        if i > 0 {
            push_str(out, ", ");
        }
        push_str(out, rs[i].debug_name());
        proof {
            if i == 0 {
                assert(rs@.take(0) =~= Seq::<SessionQualityReason>::empty());
            }
        }
        i = i + 1;
    }
    proof {
        assert(rs@.take(rs@.len() as int) == rs@);
    }
}

impl SessionHealthSnapshot {
    /// One log line with the verdict and the headline counters.
    pub fn compact_log_line(&self, label: &str) -> (line: String)
        ensures
            line@ == spec_compact_log_line(*self, label@),
    {
        let mut out = String::new();
        push_str(&mut out, label);
        push_str(&mut out, ": quality=");
        push_str(&mut out, self.quality.name());
        push_str(&mut out, " confidence=");
        push_str(&mut out, self.confidence.debug_name());
        push_str(&mut out, " reasons=[");
        push_reasons(&mut out, &self.reasons);
        push_str(&mut out, "] window=");
        push_decimal(&mut out, self.window.duration_seconds as u128);
        push_str(&mut out, "s hook_in=");
        push_decimal(&mut out, self.hook_in_recv.packets as u128);
        push_str(&mut out, " relay_recv=");
        push_decimal(&mut out, self.network_recv.packets as u128);
        push_str(&mut out, " rtt_p95=");
        push_display_ms(&mut out, self.runtime_rtt.latency.p95_ms);
        push_str(&mut out, " queue_drops=");
        push_decimal(&mut out, self.queues.total_dropped() as u128);
        push_str(&mut out, " seq_gaps=");
        push_decimal(&mut out, self.delivery.confirmed_gaps as u128);
        push_str(&mut out, " relay_gap_p95=");
        push_display_ms(&mut out, self.network_recv.gap.p95_ms);
        push_str(&mut out, " hook_out_p95=");
        push_display_ms(&mut out, self.hook_out_send_duration.p95_ms);
        out
    }
}

} // verus!
