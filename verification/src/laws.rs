//! Properties that hold of the library as a whole, stated over the spec
//! functions that the operations' contracts use.

use vstd::prelude::*;
use vstd::relations::sorted_by;
use crate::direct_health::spec_loss_percent;
use crate::latency::{sorted_u64, spec_percentile, u64_leq};
use crate::room_path_quality::{
    COMPLETED_CAPACITY, MIN_COMPLETED_SAMPLES, PeerMeasurement, RoomPathQualityState,
    spec_peer_snapshot, spec_response_rtts,
};
use crate::session_health::{
    QualityBaseline, QualityConfidence, SessionHealthWindow, SessionQuality, SessionQualityReason,
    spec_confidence, spec_quality, spec_reasons, spec_startup_or_idle,
};
use crate::smoothness::{spec_current_paths, spec_is_current, spec_level};
use crate::session_health::{spec_assessment_reasons};
use crate::lan_path::{pair_below, spec_eligible, spec_priority, Candidate, CheckEntry, EndpointPair};
use crate::lan_join_code::LanEndpoint;
use crate::delivery::{DeliveryOutcome, DeliveryStats, DeliveryWindow};
use crate::latency::{sat_add, LatencyAccumulator};
use crate::room_path_quality::RoomPathQualitySnapshot;

verus! {

/// A window between two snapshots of unchanged lifetime totals holds no
/// traffic and no anomaly: only its duration is set.
pub proof fn law_unchanged_totals_give_a_quiet_window(b: QualityBaseline, duration_micros: u64)
    ensures
        b.spec_delta(b, duration_micros) == (SessionHealthWindow {
            duration_seconds: (duration_micros / 1_000_000) as u64,
            ..SessionHealthWindow::spec_zero()
        }),
{
}

/// A session is unavailable exactly during the startup grace period or in a
/// window without traffic, and exactly then its confidence is unrated.
pub proof fn law_unavailable_exactly_when_startup_or_idle(elapsed_seconds: u64, w: SessionHealthWindow)
    ensures
        (spec_quality(elapsed_seconds, w) == SessionQuality::Unavailable) == spec_startup_or_idle(elapsed_seconds, w),
        (spec_confidence(elapsed_seconds, w) == QualityConfidence::Unrated) == spec_startup_or_idle(elapsed_seconds, w),
{
}

/// An active window is good exactly when it gives no reason, and a poor one
/// always gives a reason.
pub proof fn law_good_exactly_without_reasons(elapsed_seconds: u64, w: SessionHealthWindow)
    requires
        !spec_startup_or_idle(elapsed_seconds, w),
    ensures
        (spec_quality(elapsed_seconds, w) == SessionQuality::Good) == (spec_reasons(w).len() == 0),
        spec_quality(elapsed_seconds, w) == SessionQuality::Poor ==> spec_reasons(w).len() > 0,
{
}

/// No anomaly reason is the startup reason, and each appears at most once.
pub proof fn law_reasons_are_distinct_anomalies(w: SessionHealthWindow)
    ensures
        forall|i: int| 0 <= i < spec_reasons(w).len() ==> #[trigger] spec_reasons(w)[i] != SessionQualityReason::StartupOrIdle,
        forall|i: int, j: int| 0 <= i < j < spec_reasons(w).len() ==> #[trigger] spec_reasons(w)[i] != #[trigger] spec_reasons(w)[j],
{
}

/// Loss is unknown exactly without resolved outcomes, never above 100 %,
/// zero without drops and 100 % with nothing but drops.
pub proof fn law_loss_percent_bounds(resolved_success: u64, dropped: u64)
    ensures
        spec_loss_percent(resolved_success, dropped) is None <==> resolved_success == 0 && dropped == 0,
        spec_loss_percent(resolved_success, dropped) matches Some(p) ==> p <= 100,
        resolved_success > 0 && dropped == 0 ==> spec_loss_percent(resolved_success, dropped) == Some(0u8),
        resolved_success == 0 && dropped > 0 ==> spec_loss_percent(resolved_success, dropped) == Some(100u8),
{
    let resolved: int = resolved_success + dropped;
    let d: int = dropped as int;
    if resolved > 0 {
        assert((d * 100 + resolved / 2) / resolved >= 0) by (nonlinear_arith)
            requires resolved > 0, d >= 0;
        if dropped == 0 {
            assert((0 * 100 + resolved / 2) / resolved == 0) by (nonlinear_arith)
                requires resolved > 0;
        }
        if resolved_success == 0 && dropped > 0 {
            assert((d * 100 + d / 2) / d == 100) by (nonlinear_arith)
                requires d > 0;
        }
    }
}

/// The median of a sample window never exceeds its 95th percentile.
pub proof fn law_median_at_most_p95(samples: Seq<u64>)
    ensures
        spec_percentile(sorted_u64(samples), 50) matches Some(m) ==> spec_percentile(sorted_u64(samples), 95) matches Some(p) && m <= p,
{
    let s = sorted_u64(samples);
    samples.lemma_sort_by_ensures(u64_leq());
    vstd::seq_lib::to_multiset_len(samples);
    vstd::seq_lib::to_multiset_len(s);
    if s.len() > 0 {
        let n = s.len() - 1;
        let a = (n * 50 + 50) / 100;
        let b = (n * 95 + 50) / 100;
        assert(a <= b && b <= n) by (nonlinear_arith)
            requires a == (n * 50 + 50) / 100, b == (n * 95 + 50) / 100, n >= 0;
        if a < b {
            assert(sorted_by(s, u64_leq()));
            assert((u64_leq())(s[a], s[b]));
        }
    }
}

/// A path report never counts more answers than completed probes nor more
/// than the window holds, reports loss (at most 100 %) exactly once enough
/// probes completed, and is measuring exactly until then.
pub proof fn law_path_report_bounds(m: PeerMeasurement, now: u64)
    requires
        m.wf(),
    ensures
        ({
            let s = spec_peer_snapshot(m, now);
            &&& s.responses <= s.completed
            &&& s.completed <= COMPLETED_CAPACITY
            &&& (s.loss_basis_points is Some) == (s.completed >= MIN_COMPLETED_SAMPLES)
            &&& s.loss_basis_points matches Some(l) ==> l <= 10_000
            &&& (s.state == RoomPathQualityState::Measuring) == (s.completed < MIN_COMPLETED_SAMPLES)
        }),
{
    let c = m.completed@;
    let r = spec_response_rtts(c);
    crate::room_path_quality::lemma_response_rtts_len(c);
    if c.len() >= MIN_COMPLETED_SAMPLES {
        let missing = (c.len() - r.len()) as int;
        let total = c.len() as int;
        assert((missing * 10_000) / total <= 10_000) by (nonlinear_arith)
            requires 0 <= missing <= total, total > 0;
    }
}

/// The order of verdicts from unknown to worst.
pub open spec fn severity(q: SessionQuality) -> nat {
    match q {
        SessionQuality::Unavailable => 0,
        SessionQuality::Good => 1,
        SessionQuality::Watch => 2,
        SessionQuality::Poor => 3,
    }
}

/// Smoothness is never judged better than the session's own verdict, and
/// a current path always gives a verdict.
pub proof fn law_smoothness_never_better_than_session(health_level: SessionQuality, current: Seq<RoomPathQualitySnapshot>)
    ensures
        severity(spec_level(health_level, current)) >= severity(health_level),
        current.len() > 0 ==> spec_level(health_level, current) != SessionQuality::Unavailable,
{
}


/// An active window (past the startup grace of fifteen seconds, with some
/// traffic) is poor exactly when something was dropped, when ten or more
/// delivery gaps were confirmed, when a hook send stalled past both half a
/// second and a second, or when three or more runtime pings timed out. It is
/// to be watched exactly when it is not poor but shows a delivery gap, ten
/// or more reorders, a hook send past half a second or a runtime ping
/// timeout; otherwise it is good. A runtime ping timeout is always among
/// the reasons given.
pub proof fn law_active_window_verdict(elapsed_seconds: u64, w: SessionHealthWindow)
    requires
        elapsed_seconds >= 15,
        w.hook_in_packets > 0 || w.network_recv_packets > 0 || w.runtime_rtt_sent > 0
            || w.direct.send.resolved_success > 0 || w.direct.send.dropped > 0
            || w.direct.receive.resolved_success > 0 || w.direct.receive.dropped > 0,
    ensures
        (spec_quality(elapsed_seconds, w) == SessionQuality::Poor) == (
            w.queue_drops > 0 || w.network_send_dropped > 0 || w.direct.send.dropped > 0
                || w.direct.receive.dropped > 0 || w.delivery_gaps >= 10
                || (w.hook_send_over_500_ms > 0 && w.hook_send_over_1000_ms > 0)
                || w.runtime_rtt_timeouts >= 3),
        (spec_quality(elapsed_seconds, w) == SessionQuality::Watch) == (
            spec_quality(elapsed_seconds, w) != SessionQuality::Poor && (w.delivery_gaps >= 1
                || w.delivery_reordered >= 10 || w.hook_send_over_500_ms > 0 || w.runtime_rtt_timeouts > 0)),
        spec_quality(elapsed_seconds, w) != SessionQuality::Unavailable,
        w.runtime_rtt_timeouts > 0 ==> spec_assessment_reasons(elapsed_seconds, w).contains(
            SessionQualityReason::RuntimeRttTimeout),
        w.delivery_gaps >= 1 ==> spec_assessment_reasons(elapsed_seconds, w).contains(SessionQualityReason::DeliveryGap),
        (spec_confidence(elapsed_seconds, w) == QualityConfidence::High) == (w.hook_in_packets + w.network_recv_packets
            + w.runtime_rtt_sent + w.direct.send.resolved_success + w.direct.send.dropped
            + w.direct.receive.resolved_success + w.direct.receive.dropped >= 40),
        (spec_confidence(elapsed_seconds, w) == QualityConfidence::Low) == (w.hook_in_packets + w.network_recv_packets
            + w.runtime_rtt_sent + w.direct.send.resolved_success + w.direct.send.dropped
            + w.direct.receive.resolved_success + w.direct.receive.dropped < 10),
{
    let r = spec_reasons(w);
    if w.runtime_rtt_timeouts > 0 {
        assert(r[r.len() - 1] == SessionQualityReason::RuntimeRttTimeout);
    }
    if w.delivery_gaps >= 1 {
        let s0 = Seq::<SessionQualityReason>::empty();
        let s1 = crate::session_health::push_if(s0, w.queue_drops > 0, SessionQualityReason::LocalQueueDrop);
        let s2 = crate::session_health::push_if(s1, w.network_send_dropped > 0, SessionQualityReason::NetworkSendDrop);
        let s3 = crate::session_health::push_if(s2, w.direct.send.dropped > 0, SessionQualityReason::DirectSendDrop);
        let s4 = crate::session_health::push_if(s3, w.direct.receive.dropped > 0, SessionQualityReason::DirectReceiveDrop);
        let n = s4.len() as int;
        assert(r[n] == SessionQualityReason::DeliveryGap);
    }
}

proof fn lemma_current_path_kept(paths: Seq<RoomPathQualitySnapshot>, i: int)
    requires
        0 <= i < paths.len(),
        spec_is_current(paths[i]),
    ensures
        spec_current_paths(paths).contains(paths[i]),
    decreases paths.len(),
{
    let rest = paths.drop_last();
    if i == paths.len() - 1 {
        assert(spec_current_paths(paths).last() == paths[i]);
    } else {
        assert(rest[i] == paths[i]);
        lemma_current_path_kept(rest, i);
        let k = choose|k: int| 0 <= k < spec_current_paths(rest).len() && spec_current_paths(rest)[k] == paths[i];
        if spec_is_current(paths.last()) {
            assert(spec_current_paths(paths)[k] == paths[i]);
        }
    }
}

/// A current path with ten or more completed probes whose jitter reaches
/// 80 ms, whose p95 round trip reaches 250 ms, or whose loss reaches 10 %
/// with three or more probes unanswered makes play poor, whatever the
/// session says; a current path with five or more probes whose jitter
/// reaches 30 ms or whose p95 round trip reaches 120 ms makes it at least
/// worth watching.
pub proof fn law_path_sets_smoothness_floor(health_level: SessionQuality, paths: Seq<RoomPathQualitySnapshot>, i: int)
    requires
        0 <= i < paths.len(),
        paths[i].state == RoomPathQualityState::Current,
        paths[i].completed >= 5,
    ensures
        paths[i].completed >= 10 && (
            (paths[i].jitter matches Some(j) && j >= 80_000)
            || (paths[i].p95_rtt matches Some(r) && r >= 250_000)
            || (paths[i].loss_basis_points matches Some(l) && l >= 1_000 && paths[i].completed >= paths[i].responses + 3))
            ==> spec_level(health_level, spec_current_paths(paths)) == SessionQuality::Poor,
        ((paths[i].jitter matches Some(j) && j >= 30_000) || (paths[i].p95_rtt matches Some(r) && r >= 120_000))
            ==> (spec_level(health_level, spec_current_paths(paths)) == SessionQuality::Watch
                || spec_level(health_level, spec_current_paths(paths)) == SessionQuality::Poor),
{
    lemma_current_path_kept(paths, i);
    let c = spec_current_paths(paths);
    let k = choose|k: int| 0 <= k < c.len() && c[k] == paths[i];
    assert(c[k] == paths[i]);
}

/// The priority of an endpoint is that of its last listing among the
/// candidates, and 0 when it is not listed.
pub proof fn law_priority_lookup(cands: Seq<Candidate>, e: LanEndpoint, i: int)
    ensures
        (forall|k: int| 0 <= k < cands.len() ==> #[trigger] cands[k].endpoint != e) ==> spec_priority(cands, e) == 0,
        (0 <= i < cands.len() && cands[i].endpoint == e
            && forall|k: int| i < k < cands.len() ==> #[trigger] cands[k].endpoint != e)
            ==> spec_priority(cands, e) == cands[i].priority,
    decreases cands.len(),
{
    if cands.len() > 0 {
        let rest = cands.drop_last();
        law_priority_lookup(rest, e, i);
        assert forall|k: int| 0 <= k < rest.len() implies #[trigger] rest[k] == cands[k] by {}
        if i == cands.len() - 1 {
            assert(cands.last() == cands[i]);
        }
    }
}

/// The nominated pair has the highest sum of the local endpoint's priority
/// among the local candidates and the remote endpoint's priority among the
/// remote candidates, over every pair whose checks went both ways.
pub proof fn law_selected_pair_has_highest_priority_sum(
    checks: Seq<CheckEntry>,
    local: Seq<Candidate>,
    remote: Seq<Candidate>,
    p: EndpointPair,
)
    requires
        exists|i: int| 0 <= i < checks.len() && spec_eligible(#[trigger] checks[i]) && checks[i].pair == p,
        forall|i: int| 0 <= i < checks.len() && spec_eligible(#[trigger] checks[i]) && checks[i].pair != p
            ==> pair_below(local, remote, checks[i].pair, p),
    ensures
        forall|i: int| 0 <= i < checks.len() && spec_eligible(#[trigger] checks[i])
            ==> spec_priority(local, checks[i].pair.local) + spec_priority(remote, checks[i].pair.remote)
                <= spec_priority(local, p.local) + spec_priority(remote, p.remote),
{
}

/// A sequence whose slot in the window is already marked seen is a
/// duplicate; one inside the window not yet seen is reordered; one older
/// than the window is too old.
pub proof fn law_window_classifies_old_sequences(w: DeliveryWindow, sequence: u64)
    requires
        w.wf(),
        sequence <= w.highest,
    ensures
        w.highest - sequence < 128 && w.seen@[w.highest - sequence] ==> w.spec_outcome(sequence) == DeliveryOutcome::Duplicate,
        w.highest - sequence < 128 && !w.seen@[w.highest - sequence] ==> w.spec_outcome(sequence) == DeliveryOutcome::Reordered,
        w.highest - sequence >= 128 ==> w.spec_outcome(sequence) == DeliveryOutcome::TooOld,
{
}

/// The same sequence received twice in a row, inside the window: the second
/// time it is a duplicate.
pub proof fn law_repeat_is_duplicate(w: DeliveryWindow, next: DeliveryWindow, sequence: u64)
    requires
        w.wf(),
        next.wf(),
        sequence > w.highest ==> {
            &&& next.highest == sequence
            &&& next.seen@ == crate::delivery::spec_shifted(w.seen@, (sequence - w.highest) as u64)
        },
        sequence <= w.highest ==> {
            &&& next.highest == w.highest
            &&& next.seen@ == if w.spec_outcome(sequence) == DeliveryOutcome::Reordered {
                w.seen@.update(w.highest - sequence, true)
            } else {
                w.seen@
            }
        },
        w.spec_outcome(sequence) != DeliveryOutcome::TooOld,
    ensures
        next.spec_outcome(sequence) == DeliveryOutcome::Duplicate,
{
    if sequence > w.highest {
        let advance = (sequence - w.highest) as u64;
        if advance < 128 {
            assert((seq![true] + crate::delivery::unseen((advance - 1) as nat) + w.seen@).take(128)[0] == true);
        } else {
            assert((seq![true] + crate::delivery::unseen(127nat))[0] == true);
        }
    }
}

/// Recording a packet of the peer's current stream whose sequence is
/// already marked seen in the window counts one duplicate and no reorder.
pub proof fn law_seen_packet_counts_as_duplicate(
    s: DeliveryStats,
    next: DeliveryStats,
    peer: u64,
    stream: crate::delivery::DeliveryStreamId,
    sequence: u64,
)
    requires
        s.wf(),
        s.spec_observed(next, peer, stream, sequence),
        s.spec_tracks(peer),
        s.peers@[s.spec_index_of(peer)].active.stream_id@ == stream@,
        sequence <= s.peers@[s.spec_index_of(peer)].active.highest,
        s.peers@[s.spec_index_of(peer)].active.highest - sequence < 128,
        s.peers@[s.spec_index_of(peer)].active.seen@[s.peers@[s.spec_index_of(peer)].active.highest - sequence],
    ensures
        next.duplicates == sat_add(s.duplicates, 1),
        next.reordered == s.reordered,
{
    let k = s.spec_index_of(peer);
    assert(s.peers@[k].active.wf());
}

/// Once the latency sample window is full, recording a latency keeps its
/// size and overwrites exactly one slot with the new value.
pub proof fn law_full_window_replaces_one_slot(a: LatencyAccumulator, after: LatencyAccumulator, millis: u64)
    requires
        a.wf(),
        a.spec_observed(after, millis),
        a.samples@.len() == 2048,
    ensures
        after.samples@.len() == 2048,
        exists|j: int| 0 <= j < 2048 && after.samples@ == a.samples@.update(j, millis),
{
    let j = crate::latency::spec_replace_index(after.count);
    assert(0 <= j < 2048);
    assert(after.samples@ == a.samples@.update(j, millis));
}

/// Until the latency sample window is full, recording a latency appends it.
pub proof fn law_filling_window_appends(a: LatencyAccumulator, after: LatencyAccumulator, millis: u64)
    requires
        a.wf(),
        a.spec_observed(after, millis),
        a.samples@.len() < 2048,
    ensures
        after.samples@ == a.samples@.push(millis),
{
}


/// Recording a latency: it lies between the new minimum and maximum, each of
/// which is either the new latency or the former extreme; the count grows by
/// one and each threshold counter grows by one exactly when the latency
/// exceeds its threshold (below saturation).
pub proof fn law_latency_observation(a: LatencyAccumulator, after: LatencyAccumulator, millis: u64)
    requires
        a.wf(),
        a.spec_observed(after, millis),
    ensures
        after.min_ms matches Some(x) && x <= millis && (x == millis || a.min_ms == Some(x)),
        after.max_ms matches Some(x) && x >= millis && (x == millis || a.max_ms == Some(x)),
        a.min_ms matches Some(old_min) ==> after.min_ms matches Some(x) && x <= old_min,
        a.max_ms matches Some(old_max) ==> after.max_ms matches Some(x) && x >= old_max,
        a.count < u64::MAX ==> after.count == a.count + 1,
        a.over_200_ms < u64::MAX ==> after.over_200_ms == a.over_200_ms + (if millis > 200 { 1int } else { 0int }),
        a.over_500_ms < u64::MAX ==> after.over_500_ms == a.over_500_ms + (if millis > 500 { 1int } else { 0int }),
        a.over_1000_ms < u64::MAX ==> after.over_1000_ms == a.over_1000_ms + (if millis > 1000 { 1int } else { 0int }),
{
}

/// The next sequence after the highest is in order unless an unseen
/// sequence falls off the full window, which then is one confirmed gap;
/// a sequence further ahead never counts as in order.
pub proof fn law_next_sequence_in_order(w: DeliveryWindow, sequence: u64)
    requires
        w.wf(),
        sequence > w.highest,
    ensures
        sequence == w.highest + 1 && (w.tracked_len < 128 || w.seen@[127]) ==> w.spec_outcome(sequence) == DeliveryOutcome::InOrder,
        sequence == w.highest + 1 && w.tracked_len == 128 && !w.seen@[127] ==> w.spec_outcome(sequence) == DeliveryOutcome::ConfirmedGap(1),
        sequence > w.highest + 1 ==> w.spec_outcome(sequence) != DeliveryOutcome::InOrder,
{
    if sequence == w.highest + 1 {
        assert(crate::delivery::count_unseen(w.seen@, 127, 127) == 0);
        if w.tracked_len == 128 {
            assert(crate::delivery::count_unseen(w.seen@, 127, 128)
                == crate::delivery::count_unseen(w.seen@, 127, 127) + if w.seen@[127] { 0nat } else { 1nat });
        }
    }
}

} // verus!
