//! Counters behind a session-health snapshot: packet stages with inter-arrival
//! gaps, local queue outcomes, and runtime round-trip pings. Instants and
//! durations are microseconds.

use vstd::prelude::*;
use crate::latency::{LatencyAccumulator, LatencySummary, sat_add, sat_sub, count_if};

verus! {

#[derive(Clone, Copy, Debug, PartialEq, Eq, Structural)]
pub struct PacketStageSnapshot {
    pub packets: u64,
    pub bytes: u64,
    pub gap: LatencySummary,
}

#[derive(Debug)]
pub struct PacketStageStats {
    pub packets: u64,
    pub bytes: u64,
    pub last_seen: Option<u64>,
    pub gaps: LatencyAccumulator,
}

/// Whole milliseconds elapsed from `earlier` to `now` (zero when `now` is earlier).
pub open spec fn elapsed_millis(earlier: u64, now: u64) -> u64 {
    (sat_sub(now, earlier) / 1000) as u64
}

impl PacketStageStats {
    pub open spec fn wf(&self) -> bool {
        self.gaps.wf()
    }

    pub fn new() -> (s: PacketStageStats)
        ensures
            s.wf(),
            s.packets == 0 && s.bytes == 0 && s.last_seen is None,
            s.gaps.count == 0 && s.gaps.samples@.len() == 0,
            s.gaps.min_ms is None && s.gaps.max_ms is None,
            s.gaps.over_200_ms == 0 && s.gaps.over_500_ms == 0 && s.gaps.over_1000_ms == 0,
    {
        PacketStageStats { packets: 0, bytes: 0, last_seen: None, gaps: LatencyAccumulator::new() }
    }

    /// `after` is `self` having counted a packet of `bytes` bytes at `now`.
    pub open spec fn spec_observed(&self, after: PacketStageStats, bytes: usize, now: u64) -> bool {
        &&& after.wf()
        &&& after.packets == sat_add(self.packets, 1)
        &&& after.bytes == sat_add(self.bytes, bytes as u64)
        &&& after.last_seen == Some(now)
        &&& match self.last_seen {
            None => after.gaps == self.gaps,
            Some(previous) => self.gaps.spec_observed(after.gaps, elapsed_millis(previous, now)),
        }
    }

    /// Counts a packet of `bytes` bytes arriving at `now`; from the second
    /// packet on, the gap since the previous one is recorded.
    pub fn observe(&mut self, bytes: usize, now: u64)
        requires
            old(self).wf(),
        ensures
            final(self).wf(),
            final(self).packets == sat_add(old(self).packets, 1),
            final(self).bytes == sat_add(old(self).bytes, bytes as u64),
            final(self).last_seen == Some(now),
            old(self).spec_observed(*final(self), bytes, now),
            old(self).last_seen is None ==> final(self).gaps == old(self).gaps,
            old(self).last_seen matches Some(previous) ==> {
                let m = elapsed_millis(previous, now);
                &&& final(self).gaps.count == sat_add(old(self).gaps.count, 1)
                &&& final(self).gaps.samples@ == crate::latency::spec_samples_after(
                    old(self).gaps.samples@,
                    final(self).gaps.count,
                    m,
                )
                &&& final(self).gaps.over_500_ms == sat_add(old(self).gaps.over_500_ms, count_if(m > 500))
                &&& final(self).gaps.over_1000_ms == sat_add(old(self).gaps.over_1000_ms, count_if(m > 1000))
            },
    {
        self.packets = self.packets.saturating_add(1);
        self.bytes = self.bytes.saturating_add(bytes as u64);
        let previous = self.last_seen;
        self.last_seen = Some(now);
        if let Some(previous) = previous {
            let micros = now.saturating_sub(previous);
            self.gaps.observe(micros / 1000);
        }
    }

    pub open spec fn spec_snapshot(&self) -> PacketStageSnapshot {
        PacketStageSnapshot { packets: self.packets, bytes: self.bytes, gap: self.gaps.spec_summary() }
    }

    pub fn snapshot(&self) -> (s: PacketStageSnapshot)
        requires
            self.wf(),
        ensures
            s == self.spec_snapshot(),
    {
        PacketStageSnapshot { packets: self.packets, bytes: self.bytes, gap: self.gaps.summary() }
    }
}

#[derive(Clone, Copy, Debug, PartialEq, Eq, Structural)]
pub struct QueueHealthSnapshot {
    pub outbound_enqueued: u64,
    pub outbound_full: u64,
    pub outbound_dropped: u64,
    pub inbound_enqueued: u64,
    pub inbound_full: u64,
    pub inbound_dropped: u64,
}

impl QueueHealthSnapshot {
    /// Drops in both directions (capped at `u64::MAX`).
    pub fn total_dropped(self) -> (n: u64)
        ensures
            n == sat_add(self.outbound_dropped, self.inbound_dropped),
    {
        self.outbound_dropped.saturating_add(self.inbound_dropped)
    }
}

/// Local queue outcomes: a rejected packet counts as both full and dropped.
pub type QueueStats = QueueHealthSnapshot;

/// The queue counters after one outbound (or inbound) enqueue attempt.
pub open spec fn spec_queue_after(q: QueueHealthSnapshot, outbound: bool, accepted: bool) -> QueueHealthSnapshot {
    if outbound {
        if accepted {
            QueueHealthSnapshot { outbound_enqueued: sat_add(q.outbound_enqueued, 1), ..q }
        } else {
            QueueHealthSnapshot {
                outbound_full: sat_add(q.outbound_full, 1),
                outbound_dropped: sat_add(q.outbound_dropped, 1),
                ..q
            }
        }
    } else {
        if accepted {
            QueueHealthSnapshot { inbound_enqueued: sat_add(q.inbound_enqueued, 1), ..q }
        } else {
            QueueHealthSnapshot {
                inbound_full: sat_add(q.inbound_full, 1),
                inbound_dropped: sat_add(q.inbound_dropped, 1),
                ..q
            }
        }
    }
}

impl QueueHealthSnapshot {
    pub open spec fn spec_zero() -> QueueHealthSnapshot {
        QueueHealthSnapshot {
            outbound_enqueued: 0,
            outbound_full: 0,
            outbound_dropped: 0,
            inbound_enqueued: 0,
            inbound_full: 0,
            inbound_dropped: 0,
        }
    }

    pub fn zero() -> (q: QueueHealthSnapshot)
        ensures
            q == QueueHealthSnapshot::spec_zero(),
    {
        QueueHealthSnapshot {
            outbound_enqueued: 0,
            outbound_full: 0,
            outbound_dropped: 0,
            inbound_enqueued: 0,
            inbound_full: 0,
            inbound_dropped: 0,
        }
    }

    pub fn observe_outbound(&mut self, accepted: bool)
        ensures
            *final(self) == spec_queue_after(*old(self), true, accepted),
    {
        if accepted {
            self.outbound_enqueued = self.outbound_enqueued.saturating_add(1);
        } else {
            self.outbound_full = self.outbound_full.saturating_add(1);
            self.outbound_dropped = self.outbound_dropped.saturating_add(1);
        }
    }

    pub fn observe_inbound(&mut self, accepted: bool)
        ensures
            *final(self) == spec_queue_after(*old(self), false, accepted),
    {
        if accepted {
            self.inbound_enqueued = self.inbound_enqueued.saturating_add(1);
        } else {
            self.inbound_full = self.inbound_full.saturating_add(1);
            self.inbound_dropped = self.inbound_dropped.saturating_add(1);
        }
    }
}

impl Default for QueueHealthSnapshot {
    fn default() -> (q: QueueHealthSnapshot)
        ensures
            q.outbound_enqueued == 0 && q.outbound_full == 0 && q.outbound_dropped == 0,
            q.inbound_enqueued == 0 && q.inbound_full == 0 && q.inbound_dropped == 0,
    {
        QueueHealthSnapshot::zero()
    }
}

#[derive(Clone, Copy, Debug, PartialEq, Eq, Structural)]
pub struct RuntimeRttSnapshot {
    pub enabled: bool,
    pub sent: u64,
    pub received: u64,
    pub timed_out: u64,
    pub pending: usize,
    pub latency: LatencySummary,
}

/// An outstanding ping: its id and when it was sent.
#[derive(Clone, Copy, Debug, PartialEq, Eq, Structural)]
pub struct PendingPing {
    pub id: u64,
    pub sent_at: u64,
}

/// The pings of `pending` still within `timeout` of `now`, in order.
pub open spec fn spec_live_pings(pending: Seq<PendingPing>, now: u64, timeout: u64) -> Seq<PendingPing>
    decreases pending.len(),
{
    if pending.len() == 0 {
        pending
    } else {
        let rest = spec_live_pings(pending.drop_last(), now, timeout);
        if sat_sub(now, pending.last().sent_at) <= timeout { rest.push(pending.last()) } else { rest }
    }
}

proof fn lemma_live_pings_len(pending: Seq<PendingPing>, now: u64, timeout: u64)
    ensures
        spec_live_pings(pending, now, timeout).len() <= pending.len(),
    decreases pending.len(),
{
    if pending.len() > 0 {
        lemma_live_pings_len(pending.drop_last(), now, timeout);
    }
}

/// Whether a pending ping has `id`.
pub open spec fn spec_has_ping(pending: Seq<PendingPing>, id: u64) -> bool {
    exists|i: int| 0 <= i < pending.len() && (#[trigger] pending[i]).id == id
}

/// No two entries share an id.
pub open spec fn distinct_ids(pending: Seq<PendingPing>) -> bool {
    forall|i: int, j: int| 0 <= i < j < pending.len() ==> (#[trigger] pending[i]).id != (#[trigger] pending[j]).id
}

/// The position of the entry with `id`.
pub open spec fn spec_ping_index(pending: Seq<PendingPing>, id: u64) -> int {
    choose|k: int| 0 <= k < pending.len() && (#[trigger] pending[k]).id == id
}

/// `after` is `before` with the entry for `id` set to `now` (added when absent).
pub open spec fn spec_recorded(before: Seq<PendingPing>, after: Seq<PendingPing>, id: u64, now: u64) -> bool {
    &&& distinct_ids(after)
    &&& spec_has_ping(after, id)
    &&& after[spec_ping_index(after, id)].sent_at == now
    &&& forall|p: PendingPing| #![auto] p.id != id ==> (after.contains(p) <==> before.contains(p))
}

/// The position of the entry with `id`, if any.
pub fn find_ping(pending: &Vec<PendingPing>, id: u64) -> (r: Option<usize>)
    requires
        distinct_ids(pending@),
    ensures
        r is None ==> !spec_has_ping(pending@, id),
        r matches Some(i) ==> i < pending@.len() && pending@[i as int].id == id && i == spec_ping_index(
            pending@,
            id,
        ),
{
    let mut i: usize = 0;
    while i < pending.len()
        invariant
            i <= pending@.len(),
            distinct_ids(pending@),
            forall|j: int| 0 <= j < i ==> (#[trigger] pending@[j]).id != id,
        decreases pending@.len() - i,
    {
        if pending[i].id == id {
            proof {
                assert(0 <= i < pending@.len() && pending@[i as int].id == id);
                let k = spec_ping_index(pending@, id);
                assert(0 <= k < pending@.len() && pending@[k].id == id);
                if k != i {
                    if k < i {
                        assert(pending@[k].id != pending@[i as int].id);
                    } else {
                        assert(pending@[i as int].id != pending@[k].id);
                    }
                }
            }
            return Some(i);
        }
        i = i + 1;
    }
    None
}

/// Records `id` as sent at `now`, replacing an entry with the same id.
pub fn record_ping(pending: &mut Vec<PendingPing>, id: u64, now: u64)
    requires
        distinct_ids(old(pending)@),
    ensures
        spec_recorded(old(pending)@, final(pending)@, id, now),
        spec_has_ping(final(pending)@, id),
        forall|i: int| 0 <= i < final(pending)@.len() && (#[trigger] final(pending)@[i]).id == id
            ==> final(pending)@[i].sent_at == now,
{
    let ghost before = pending@;
    match find_ping(pending, id) {
        Some(i) => {
            pending.set(i, PendingPing { id, sent_at: now });
            proof {
                assert forall|p: PendingPing| #![auto] p.id != id implies (pending@.contains(p)
                    <==> before.contains(p)) by {
                    if before.contains(p) {
                        let k = choose|k: int| 0 <= k < before.len() && before[k] == p;
                        assert(pending@[k] == p);
                    }
                    if pending@.contains(p) {
                        let k = choose|k: int| 0 <= k < pending@.len() && pending@[k] == p;
                        assert(before[k] == p);
                    }
                }
                assert forall|a: int, b: int|
                    0 <= a < b < pending@.len() implies (#[trigger] pending@[a]).id
                    != (#[trigger] pending@[b]).id by {
                    assert(before[a].id != before[b].id);
                }
                assert forall|k: int| 0 <= k < pending@.len() && (#[trigger] pending@[k]).id == id
                    implies pending@[k].sent_at == now by {
                    if k != i {
                        if k < i {
                            assert(before[k].id != before[i as int].id);
                        } else {
                            assert(before[i as int].id != before[k].id);
                        }
                    }
                }
                assert(pending@[i as int].id == id);
            }
        },
        None => {
            pending.push(PendingPing { id, sent_at: now });
            proof {
                assert forall|p: PendingPing| #![auto] p.id != id implies (pending@.contains(p)
                    <==> before.contains(p)) by {
                    if before.contains(p) {
                        let k = choose|k: int| 0 <= k < before.len() && before[k] == p;
                        assert(pending@[k] == p);
                    }
                    if pending@.contains(p) {
                        let k = choose|k: int| 0 <= k < pending@.len() && pending@[k] == p;
                        assert(k < before.len());
                        assert(before[k] == p);
                    }
                }
                assert forall|a: int, b: int|
                    0 <= a < b < pending@.len() implies (#[trigger] pending@[a]).id
                    != (#[trigger] pending@[b]).id by {
                    if b == before.len() {
                        assert(before[a].id != id);
                    } else {
                        assert(before[a].id != before[b].id);
                    }
                }
                assert forall|k: int| 0 <= k < pending@.len() && (#[trigger] pending@[k]).id == id
                    implies pending@[k].sent_at == now by {
                    if k < before.len() {
                        assert(before[k].id != id);
                    }
                }
                assert(pending@[before.len() as int].id == id);
            }
        },
    }
}

/// Removes the entry with `id` and returns when it was sent; `None`, with
/// nothing changed, when there is none.
pub fn take_ping(pending: &mut Vec<PendingPing>, id: u64) -> (r: Option<u64>)
    requires
        distinct_ids(old(pending)@),
    ensures
        distinct_ids(final(pending)@),
        r is None <==> !spec_has_ping(old(pending)@, id),
        r is None ==> final(pending)@ == old(pending)@,
        r matches Some(sent_at) ==> {
            let k = spec_ping_index(old(pending)@, id);
            &&& 0 <= k < old(pending)@.len()
            &&& old(pending)@[k].id == id
            &&& sent_at == old(pending)@[k].sent_at
            &&& final(pending)@ == old(pending)@.remove(k)
        },
{
    match find_ping(pending, id) {
        None => None,
        Some(i) => {
            let ghost before = pending@;
            let ping = pending.remove(i);
            proof {
                assert forall|a: int, b: int|
                    0 <= a < b < pending@.len() implies (#[trigger] pending@[a]).id
                    != (#[trigger] pending@[b]).id by {
                    let a0 = if a < i { a } else { a + 1 };
                    let b0 = if b < i { b } else { b + 1 };
                    assert(before[a0].id != before[b0].id);
                }
            }
            Some(ping.sent_at)
        },
    }
}

/// The entries still within `timeout` of `now`, in order.
pub fn retain_live_pings(pending: &Vec<PendingPing>, now: u64, timeout: u64) -> (kept: Vec<PendingPing>)
    requires
        distinct_ids(pending@),
    ensures
        kept@ == spec_live_pings(pending@, now, timeout),
        distinct_ids(kept@),
        kept@.len() <= pending@.len(),
{
    let mut kept: Vec<PendingPing> = Vec::new();
    let mut i: usize = 0;
    while i < pending.len()
        invariant
            i <= pending@.len(),
            kept@ == spec_live_pings(pending@.take(i as int), now, timeout),
            forall|a: int| 0 <= a < kept@.len() ==> pending@.take(i as int).contains(#[trigger] kept@[a]),
            forall|a: int, b: int| 0 <= a < b < kept@.len() ==> (#[trigger] kept@[a]).id != (#[trigger] kept@[b]).id,
            distinct_ids(pending@),
        decreases pending@.len() - i,
    {
        let ping = pending[i];
        proof {
            assert(pending@.take(i + 1).drop_last() == pending@.take(i as int));
            assert(pending@.take(i + 1).last() == ping);
        }
        if now.saturating_sub(ping.sent_at) <= timeout {
            proof {
                assert forall|a: int| 0 <= a < kept@.len() implies (#[trigger] kept@[a]).id != ping.id by {
                    assert(pending@.take(i as int).contains(kept@[a]));
                    let k = choose|k: int| 0 <= k < i && pending@.take(i as int)[k] == kept@[a];
                    assert(pending@[k].id != pending@[i as int].id);
                }
            }
            kept.push(ping);
        }
        proof {
            assert forall|a: int| 0 <= a < kept@.len() implies pending@.take(i + 1).contains(#[trigger] kept@[a]) by {
                if a < kept@.len() - 1 || !(sat_sub(now, ping.sent_at) <= timeout) {
                    assert(pending@.take(i as int).contains(kept@[a]));
                    let k = choose|k: int| 0 <= k < i && pending@.take(i as int)[k] == kept@[a];
                    assert(pending@.take(i + 1)[k] == kept@[a]);
                } else {
                    assert(pending@.take(i + 1)[i as int] == kept@[a]);
                }
            }
        }
        i = i + 1;
    }
    proof {
        assert(pending@.take(pending@.len() as int) == pending@);
        lemma_live_pings_len(pending@, now, timeout);
    }
    kept
}

#[derive(Debug)]
pub struct RuntimeRttStats {
    pub next_id: u64,
    pub sent: u64,
    pub received: u64,
    pub timed_out: u64,
    pub pending: Vec<PendingPing>,
    pub latency: LatencyAccumulator,
}

impl RuntimeRttStats {
    /// Pending ids are distinct and the latency window is bounded.
    pub open spec fn wf(&self) -> bool {
        &&& self.latency.wf()
        &&& distinct_ids(self.pending@)
    }

    pub fn new() -> (s: RuntimeRttStats)
        ensures
            s.wf(),
            s.next_id == 0 && s.sent == 0 && s.received == 0 && s.timed_out == 0,
            s.pending@.len() == 0,
            s.latency.count == 0 && s.latency.samples@.len() == 0,
            s.latency.min_ms is None && s.latency.max_ms is None,
            s.latency.over_200_ms == 0 && s.latency.over_500_ms == 0 && s.latency.over_1000_ms == 0,
    {
        RuntimeRttStats {
            next_id: 0,
            sent: 0,
            received: 0,
            timed_out: 0,
            pending: Vec::new(),
            latency: LatencyAccumulator::new(),
        }
    }

    /// Issues the next ping id (one past the last, capped) and records it as
    /// pending since `now`.
    pub fn next_ping(&mut self, now: u64) -> (id: u64)
        requires
            old(self).wf(),
        ensures
            final(self).wf(),
            id == sat_add(old(self).next_id, 1),
            final(self).next_id == id,
            final(self).sent == sat_add(old(self).sent, 1),
            final(self).received == old(self).received,
            final(self).timed_out == old(self).timed_out,
            final(self).latency == old(self).latency,
            spec_recorded(old(self).pending@, final(self).pending@, id, now),
            spec_has_ping(final(self).pending@, id),
            forall|i: int| 0 <= i < final(self).pending@.len() && (#[trigger] final(self).pending@[i]).id == id
                ==> final(self).pending@[i].sent_at == now,
            forall|p: PendingPing| #![auto] p.id != id ==> (final(self).pending@.contains(p)
                <==> old(self).pending@.contains(p)),
    {
        self.next_id = self.next_id.saturating_add(1);
        let id = self.next_id;
        self.sent = self.sent.saturating_add(1);
        record_ping(&mut self.pending, id, now);
        id
    }

    /// `next` is `self` after the pong for `id` arrived at `now`.
    pub open spec fn spec_pong_observed(&self, next: RuntimeRttStats, id: u64, now: u64) -> bool {
        &&& next.next_id == self.next_id
        &&& next.sent == self.sent
        &&& next.timed_out == self.timed_out
        &&& !spec_has_ping(self.pending@, id) ==> {
            &&& next.received == self.received
            &&& next.pending@ == self.pending@
            &&& next.latency == self.latency
        }
        &&& spec_has_ping(self.pending@, id) ==> {
            let k = spec_ping_index(self.pending@, id);
            let m = elapsed_millis(self.pending@[k].sent_at, now);
            &&& next.received == sat_add(self.received, 1)
            &&& next.pending@ == self.pending@.remove(k)
            &&& self.latency.spec_observed(next.latency, m)
        }
    }

    /// A pong for a pending ping completes it and records its round trip;
    /// any other pong is ignored.
    pub fn observe_pong(&mut self, id: u64, now: u64)
        requires
            old(self).wf(),
        ensures
            final(self).wf(),
            old(self).spec_pong_observed(*final(self), id, now),
    {
        match take_ping(&mut self.pending, id) {
            None => {},
            Some(sent_at) => {
                self.received = self.received.saturating_add(1);
                self.latency.observe(now.saturating_sub(sent_at) / 1000);
            },
        }
    }

    /// Drops pings older than `timeout` at `now`, counting them as timed out.
    pub fn expire(&mut self, now: u64, timeout: u64)
        requires
            old(self).wf(),
        ensures
            final(self).wf(),
            final(self).pending@ == spec_live_pings(old(self).pending@, now, timeout),
            final(self).timed_out == sat_add(
                old(self).timed_out,
                (old(self).pending@.len() - spec_live_pings(old(self).pending@, now, timeout).len()) as u64,
            ),
            final(self).next_id == old(self).next_id,
            final(self).sent == old(self).sent,
            final(self).received == old(self).received,
            final(self).latency == old(self).latency,
    {
        let before = self.pending.len();
        let kept = retain_live_pings(&self.pending, now, timeout);
        let expired = before - kept.len();
        self.pending = kept;
        self.timed_out = self.timed_out.saturating_add(expired as u64);
    }

    pub open spec fn spec_snapshot(&self, enabled: bool) -> RuntimeRttSnapshot {
        RuntimeRttSnapshot {
            enabled,
            sent: self.sent,
            received: self.received,
            timed_out: self.timed_out,
            pending: self.pending@.len() as usize,
            latency: self.latency.spec_summary(),
        }
    }

    pub fn snapshot(&self, enabled: bool) -> (s: RuntimeRttSnapshot)
        requires
            self.wf(),
        ensures
            s == self.spec_snapshot(enabled),
    {
        RuntimeRttSnapshot {
            enabled,
            sent: self.sent,
            received: self.received,
            timed_out: self.timed_out,
            pending: self.pending.len(),
            latency: self.latency.summary(),
        }
    }
}

} // verus!
