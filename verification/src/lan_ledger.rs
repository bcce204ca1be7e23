//! The ledger of the LAN direct data plane: per peer and per lifecycle epoch,
//! how many packets were queued, delivered and dropped (and why), how deep
//! the queues are, and the drop incidents that started, recovered or closed.
//! Instants and durations are microseconds.

use vstd::prelude::*;
use crate::latency::sat_add;
use crate::tally::{RejectionTally, merge_one, merge_into};
use crate::lan_data::{
    LanDataDropReason, LanDataPlaneSnapshot, LanDataStage, LanDirectionSnapshot,
    LanEpochDataSnapshot, LanPeerDataSnapshot, lan_rejections, rejections_of, reason_index,
    stage_index, fold_directions,
};

verus! {

/// Closed epochs whose detail is kept per peer.
pub const CLOSED_EPOCH_DETAIL_CAPACITY: usize = 8;
/// Incident transitions kept until drained.
pub const TRANSITION_CAPACITY: usize = 256;
/// Packets queued per peer and direction.
pub const PER_PEER_PACKET_QUEUE_CAPACITY: usize = 256;
/// The epoch of traffic seen before a peer's path is attached.
pub const UNATTACHED_EPOCH: u64 = 0;

#[derive(Clone, Copy, Debug, PartialEq, Eq, Structural)]
pub enum LanDataDirection {
    Send,
    Receive,
}

/// What happened to one packet at one stage.
#[derive(Clone, Copy, Debug, PartialEq, Eq, Structural)]
pub enum LanDataOutcome {
    Queued,
    Succeeded,
    Dropped(LanDataDropReason),
}

/// Running totals of one direction.
#[derive(Debug)]
pub struct DirectionTotals {
    pub queued: u64,
    pub resolved_success: u64,
    pub dropped: u64,
    pub current_queue_depth: usize,
    pub max_queue_depth: usize,
    /// Rejections per (stage, reason), in that order.
    pub rejections: Vec<RejectionTally>,
}

/// The tally of `count` rejections at `stage` for `reason`.
pub open spec fn spec_tally(stage: LanDataStage, reason: LanDataDropReason, count: u64) -> RejectionTally {
    RejectionTally { stage: stage_index(stage), reason: reason_index(reason), count }
}

/// The larger of two depths.
pub open spec fn max_usize(a: usize, b: usize) -> usize {
    if a >= b { a } else { b }
}

impl DirectionTotals {
    pub fn new() -> (t: DirectionTotals)
        ensures
            t.queued == 0 && t.resolved_success == 0 && t.dropped == 0,
            t.current_queue_depth == 0 && t.max_queue_depth == 0,
            t.rejections@.len() == 0,
    {
        DirectionTotals {
            queued: 0,
            resolved_success: 0,
            dropped: 0,
            current_queue_depth: 0,
            max_queue_depth: 0,
            rejections: Vec::new(),
        }
    }

    /// Records a new queue depth; the maximum keeps the largest seen.
    pub fn set_depth(&mut self, depth: usize)
        ensures
            old(self).spec_depth_set(*final(self), depth),
            final(self).current_queue_depth == depth,
            final(self).max_queue_depth == max_usize(old(self).max_queue_depth, depth),
            final(self).queued == old(self).queued,
            final(self).resolved_success == old(self).resolved_success,
            final(self).dropped == old(self).dropped,
            final(self).rejections@ == old(self).rejections@,
    {
        self.current_queue_depth = depth;
        if depth > self.max_queue_depth {
            self.max_queue_depth = depth;
        }
    }

    /// `after` is `self` having recorded `outcome` at `stage` with `queue_depth`.
    pub open spec fn spec_updated(&self, after: DirectionTotals, stage: LanDataStage, outcome: LanDataOutcome, queue_depth: Option<usize>) -> bool {
        &&& after.queued == sat_add(self.queued, if outcome is Queued { 1 } else { 0 })
        &&& after.resolved_success == sat_add(self.resolved_success, if outcome is Succeeded { 1 } else { 0 })
        &&& after.dropped == sat_add(self.dropped, if outcome is Dropped { 1 } else { 0 })
        &&& after.rejections@ == match outcome {
            LanDataOutcome::Dropped(reason) => merge_one(self.rejections@, spec_tally(stage, reason, 1)),
            _ => self.rejections@,
        }
        &&& after.current_queue_depth == match queue_depth {
            Some(d) => d,
            None => self.current_queue_depth,
        }
        &&& after.max_queue_depth == match queue_depth {
            Some(d) => max_usize(self.max_queue_depth, d),
            None => self.max_queue_depth,
        }
    }

    /// `after` is `self` having recorded a batch of `count` drops.
    pub open spec fn spec_batch_updated(&self, after: DirectionTotals, stage: LanDataStage, reason: LanDataDropReason, count: u64, queue_depth: usize) -> bool {
        &&& after.queued == self.queued
        &&& after.resolved_success == self.resolved_success
        &&& after.dropped == sat_add(self.dropped, count)
        &&& after.rejections@ == merge_one(self.rejections@, spec_tally(stage, reason, count))
        &&& after.current_queue_depth == queue_depth
        &&& after.max_queue_depth == max_usize(self.max_queue_depth, queue_depth)
    }

    /// `after` is `self` with a new queue depth.
    pub open spec fn spec_depth_set(&self, after: DirectionTotals, depth: usize) -> bool {
        &&& after.current_queue_depth == depth
        &&& after.max_queue_depth == max_usize(self.max_queue_depth, depth)
        &&& after.queued == self.queued
        &&& after.resolved_success == self.resolved_success
        &&& after.dropped == self.dropped
        &&& after.rejections@ == self.rejections@
    }

    /// Records one packet outcome at `stage`, and the queue depth if known.
    pub fn update(&mut self, stage: LanDataStage, outcome: LanDataOutcome, queue_depth: Option<usize>)
        ensures
            old(self).spec_updated(*final(self), stage, outcome, queue_depth),
            final(self).queued == sat_add(old(self).queued, if outcome is Queued { 1 } else { 0 }),
            final(self).resolved_success == sat_add(old(self).resolved_success, if outcome is Succeeded { 1 } else { 0 }),
            final(self).dropped == sat_add(old(self).dropped, if outcome is Dropped { 1 } else { 0 }),
            final(self).rejections@ == match outcome {
                LanDataOutcome::Dropped(reason) => merge_one(old(self).rejections@, spec_tally(stage, reason, 1)),
                _ => old(self).rejections@,
            },
            final(self).current_queue_depth == match queue_depth {
                Some(d) => d,
                None => old(self).current_queue_depth,
            },
            final(self).max_queue_depth == match queue_depth {
                Some(d) => max_usize(old(self).max_queue_depth, d),
                None => old(self).max_queue_depth,
            },
    {
        match outcome {
            LanDataOutcome::Queued => {
                self.queued = self.queued.saturating_add(1);
            },
            LanDataOutcome::Succeeded => {
                self.resolved_success = self.resolved_success.saturating_add(1);
            },
            LanDataOutcome::Dropped(reason) => {
                self.dropped = self.dropped.saturating_add(1);
                merge_into(&mut self.rejections, RejectionTally { stage: stage.index(), reason: reason.index(), count: 1 });
            },
        }
        if let Some(depth) = queue_depth {
            self.set_depth(depth);
        }
    }

    /// Records `count` packets dropped at once for `reason`, and the queue depth.
    pub fn update_dropped_batch(&mut self, stage: LanDataStage, reason: LanDataDropReason, count: u64, queue_depth: usize)
        ensures
            old(self).spec_batch_updated(*final(self), stage, reason, count, queue_depth),
            final(self).queued == old(self).queued,
            final(self).resolved_success == old(self).resolved_success,
            final(self).dropped == sat_add(old(self).dropped, count),
            final(self).rejections@ == merge_one(old(self).rejections@, spec_tally(stage, reason, count)),
            final(self).current_queue_depth == queue_depth,
            final(self).max_queue_depth == max_usize(old(self).max_queue_depth, queue_depth),
    {
        self.dropped = self.dropped.saturating_add(count);
        merge_into(&mut self.rejections, RejectionTally { stage: stage.index(), reason: reason.index(), count });
        self.set_depth(queue_depth);
    }

    /// The totals as a snapshot.
    pub fn snapshot(&self) -> (s: LanDirectionSnapshot)
        ensures
            s.queued == self.queued,
            s.resolved_success == self.resolved_success,
            s.dropped == self.dropped,
            s.current_queue_depth == self.current_queue_depth,
            s.max_queue_depth == self.max_queue_depth,
            s.rejections@ == lan_rejections(self.rejections@),
    {
        LanDirectionSnapshot {
            queued: self.queued,
            resolved_success: self.resolved_success,
            dropped: self.dropped,
            current_queue_depth: self.current_queue_depth,
            max_queue_depth: self.max_queue_depth,
            rejections: rejections_of(&self.rejections),
        }
    }
}


/// How an incident changed.
#[derive(Clone, Copy, Debug, PartialEq, Eq, Structural)]
pub enum LanIncidentTransitionKind {
    Started,
    Recovered,
    Closed,
}

/// Which drops an incident gathers: one peer slot, epoch, direction, stage and reason.
#[derive(Clone, Copy, Debug, PartialEq, Eq, Structural)]
pub struct IncidentKey {
    pub peer_slot: u32,
    pub epoch: u64,
    pub direction: LanDataDirection,
    pub stage: LanDataStage,
    pub reason: LanDataDropReason,
}

/// A run of drops that has not recovered yet.
#[derive(Clone, Copy, Debug, PartialEq, Eq, Structural)]
pub struct ActiveIncident {
    pub key: IncidentKey,
    pub started_at: u64,
    pub dropped_packets: u64,
}

/// A change of an incident, as reported to the session.
#[derive(Clone, Copy, Debug, PartialEq, Eq, Structural)]
pub struct LanIncidentTransition {
    pub peer_slot: u32,
    pub lifecycle_epoch: u64,
    pub direction: LanDataDirection,
    pub stage: LanDataStage,
    pub reason: LanDataDropReason,
    pub kind: LanIncidentTransitionKind,
    pub duration: u64,
    pub dropped_packets: u64,
}

pub open spec fn direction_index(d: LanDataDirection) -> u8 {
    match d {
        LanDataDirection::Send => 0,
        LanDataDirection::Receive => 1,
    }
}

/// Incident keys are ordered by slot, epoch, direction, stage, then reason.
pub open spec fn incident_lt(a: IncidentKey, b: IncidentKey) -> bool {
    ||| a.peer_slot < b.peer_slot
    ||| (a.peer_slot == b.peer_slot && a.epoch < b.epoch)
    ||| (a.peer_slot == b.peer_slot && a.epoch == b.epoch && direction_index(a.direction) < direction_index(b.direction))
    ||| (a.peer_slot == b.peer_slot && a.epoch == b.epoch && a.direction == b.direction
        && stage_index(a.stage) < stage_index(b.stage))
    ||| (a.peer_slot == b.peer_slot && a.epoch == b.epoch && a.direction == b.direction
        && a.stage == b.stage && reason_index(a.reason) < reason_index(b.reason))
}

fn direction_idx(d: LanDataDirection) -> (i: u8)
    ensures
        i == direction_index(d),
{
    match d {
        LanDataDirection::Send => 0,
        LanDataDirection::Receive => 1,
    }
}

fn key_less(a: IncidentKey, b: IncidentKey) -> (r: bool)
    ensures
        r == incident_lt(a, b),
{
    let ad = direction_idx(a.direction);
    let bd = direction_idx(b.direction);
    let as_ = a.stage.index();
    let bs = b.stage.index();
    let ar = a.reason.index();
    let br = b.reason.index();
    proof {
        crate::lan_data::lemma_stage_index_injective(a.stage, b.stage);
        crate::lan_data::lemma_reason_index_injective(a.reason, b.reason);
    }
    a.peer_slot < b.peer_slot
        || (a.peer_slot == b.peer_slot && a.epoch < b.epoch)
        || (a.peer_slot == b.peer_slot && a.epoch == b.epoch && ad < bd)
        || (a.peer_slot == b.peer_slot && a.epoch == b.epoch && ad == bd && as_ < bs)
        || (a.peer_slot == b.peer_slot && a.epoch == b.epoch && ad == bd && as_ == bs && ar < br)
}

/// The transition reported for `incident` when it changes to `kind` after `duration`.
pub open spec fn spec_transition(key: IncidentKey, kind: LanIncidentTransitionKind, duration: u64, dropped_packets: u64) -> LanIncidentTransition {
    LanIncidentTransition {
        peer_slot: key.peer_slot,
        lifecycle_epoch: key.epoch,
        direction: key.direction,
        stage: key.stage,
        reason: key.reason,
        kind,
        duration,
        dropped_packets,
    }
}

/// The transition list and overflow count after appending `t`: when full,
/// the oldest transition is dropped and counted.
pub open spec fn spec_push_transition(ts: Seq<LanIncidentTransition>, dropped: u64, t: LanIncidentTransition) -> (Seq<LanIncidentTransition>, u64) {
    if ts.len() >= TRANSITION_CAPACITY {
        (ts.drop_first().push(t), sat_add(dropped, 1))
    } else {
        (ts.push(t), dropped)
    }
}

/// Which incidents a closing touches.
#[derive(Clone, Copy, Debug, PartialEq, Eq, Structural)]
pub enum IncidentSelector {
    /// One peer's incidents of one epoch, direction and stage (any reason).
    Stage { peer_slot: u32, epoch: u64, direction: LanDataDirection, stage: LanDataStage },
    /// One peer's incidents of one epoch.
    Epoch { peer_slot: u32, epoch: u64 },
    /// One peer's incidents.
    Peer { peer_slot: u32 },
    /// Every incident.
    All,
}

pub open spec fn spec_selects(sel: IncidentSelector, k: IncidentKey) -> bool {
    match sel {
        IncidentSelector::Stage { peer_slot, epoch, direction, stage } => k.peer_slot == peer_slot
            && k.epoch == epoch && k.direction == direction && k.stage == stage,
        IncidentSelector::Epoch { peer_slot, epoch } => k.peer_slot == peer_slot && k.epoch == epoch,
        IncidentSelector::Peer { peer_slot } => k.peer_slot == peer_slot,
        IncidentSelector::All => true,
    }
}

fn selects(sel: IncidentSelector, k: IncidentKey) -> (r: bool)
    ensures
        r == spec_selects(sel, k),
{
    match sel {
        IncidentSelector::Stage { peer_slot, epoch, direction, stage } => k.peer_slot == peer_slot
            && k.epoch == epoch && k.direction == direction && k.stage == stage,
        IncidentSelector::Epoch { peer_slot, epoch } => k.peer_slot == peer_slot && k.epoch == epoch,
        IncidentSelector::Peer { peer_slot } => k.peer_slot == peer_slot,
        IncidentSelector::All => true,
    }
}

/// The incidents that stay open.
pub open spec fn spec_kept_incidents(incidents: Seq<ActiveIncident>, sel: IncidentSelector) -> Seq<ActiveIncident>
    decreases incidents.len(),
{
    if incidents.len() == 0 {
        incidents
    } else {
        let rest = spec_kept_incidents(incidents.drop_last(), sel);
        if spec_selects(sel, incidents.last().key) { rest } else { rest.push(incidents.last()) }
    }
}

/// The transitions and overflow count after closing the selected incidents
/// in key order at `now`.
pub open spec fn spec_closed_transitions(
    incidents: Seq<ActiveIncident>,
    sel: IncidentSelector,
    kind: LanIncidentTransitionKind,
    now: u64,
    ts: Seq<LanIncidentTransition>,
    dropped: u64,
) -> (Seq<LanIncidentTransition>, u64)
    decreases incidents.len(),
{
    if incidents.len() == 0 {
        (ts, dropped)
    } else {
        let (ts1, d1) = spec_closed_transitions(incidents.drop_last(), sel, kind, now, ts, dropped);
        let i = incidents.last();
        if spec_selects(sel, i.key) {
            let duration = if now >= i.started_at { (now - i.started_at) as u64 } else { 0 };
            spec_push_transition(ts1, d1, spec_transition(i.key, kind, duration, i.dropped_packets))
        } else {
            (ts1, d1)
        }
    }
}

/// Strictly ascending incident keys.
pub open spec fn incidents_sorted(incidents: Seq<ActiveIncident>) -> bool {
    forall|i: int, j: int| 0 <= i < j < incidents.len() ==> incident_lt((#[trigger] incidents[i]).key, (#[trigger] incidents[j]).key)
}

/// The open incidents and the reported transitions.
#[derive(Debug)]
pub struct IncidentLog {
    pub incidents: Vec<ActiveIncident>,
    pub transitions: Vec<LanIncidentTransition>,
    pub transitions_dropped: u64,
}

impl IncidentLog {
    pub open spec fn wf(&self) -> bool {
        &&& incidents_sorted(self.incidents@)
        &&& self.transitions@.len() <= TRANSITION_CAPACITY
    }

    pub fn new() -> (l: IncidentLog)
        ensures
            l.wf(),
            l.incidents@.len() == 0 && l.transitions@.len() == 0 && l.transitions_dropped == 0,
    {
        IncidentLog { incidents: Vec::new(), transitions: Vec::new(), transitions_dropped: 0 }
    }

    /// Appends a transition, dropping (and counting) the oldest when full.
    pub fn push_transition(&mut self, t: LanIncidentTransition)
        requires
            old(self).wf(),
        ensures
            final(self).wf(),
            final(self).incidents@ == old(self).incidents@,
            (final(self).transitions@, final(self).transitions_dropped) == spec_push_transition(
                old(self).transitions@,
                old(self).transitions_dropped,
                t,
            ),
    {
        if self.transitions.len() >= TRANSITION_CAPACITY {
            self.transitions.remove(0);
            self.transitions_dropped = self.transitions_dropped.saturating_add(1);
            proof {
                assert(self.transitions@ == old(self).transitions@.drop_first());
            }
        }
        self.transitions.push(t);
    }

    /// `after` is `self` having counted `count` drops under `key` at `now`.
    pub open spec fn spec_drop_recorded(&self, after: IncidentLog, key: IncidentKey, count: u64, now: u64) -> bool {
        let found = exists|i: int| 0 <= i < self.incidents@.len() && (#[trigger] self.incidents@[i]).key == key;
        if found {
            &&& after.transitions@ == self.transitions@
            &&& after.transitions_dropped == self.transitions_dropped
            &&& after.incidents@.len() == self.incidents@.len()
            &&& forall|i: int| 0 <= i < self.incidents@.len() ==> {
                let before = #[trigger] self.incidents@[i];
                after.incidents@[i] == (if before.key == key {
                    ActiveIncident { dropped_packets: sat_add(before.dropped_packets, count), ..before }
                } else {
                    before
                })
            }
        } else {
            &&& (after.transitions@, after.transitions_dropped) == spec_push_transition(
                self.transitions@,
                self.transitions_dropped,
                spec_transition(key, LanIncidentTransitionKind::Started, 0, count),
            )
            &&& after.incidents@.len() == self.incidents@.len() + 1
            &&& after.incidents@.to_multiset() == self.incidents@.to_multiset().insert(
                ActiveIncident { key, started_at: now, dropped_packets: count },
            )
        }
    }

    /// `after` is `self` having closed the selected incidents at `now`.
    pub open spec fn spec_closed(&self, after: IncidentLog, sel: IncidentSelector, kind: LanIncidentTransitionKind, now: u64) -> bool {
        &&& after.incidents@ == spec_kept_incidents(self.incidents@, sel)
        &&& (after.transitions@, after.transitions_dropped) == spec_closed_transitions(
            self.incidents@,
            sel,
            kind,
            now,
            self.transitions@,
            self.transitions_dropped,
        )
    }

    /// Counts `count` drops under `key` at `now`: an open incident gathers
    /// them; otherwise an incident starts and its start is reported.
    pub fn record_drop(&mut self, key: IncidentKey, count: u64, now: u64)
        requires
            old(self).wf(),
        ensures
            final(self).wf(),
            old(self).spec_drop_recorded(*final(self), key, count, now),
    {
        let mut pos: usize = 0;
        while pos < self.incidents.len() && key_less(self.incidents[pos].key, key)
            invariant
                pos <= self.incidents@.len(),
                forall|j: int| 0 <= j < pos ==> incident_lt((#[trigger] self.incidents@[j]).key, key),
            decreases self.incidents@.len() - pos,
        {
            pos = pos + 1;
        }
        let ghost before = self.incidents@;
        proof {
            lemma_incident_lt_facts();
        }
        if pos < self.incidents.len() && self.incidents[pos].key == key {
            let current = self.incidents[pos];
            self.incidents.set(pos, ActiveIncident { key, started_at: current.started_at, dropped_packets: current.dropped_packets.saturating_add(count) });
            proof {
                assert forall|i: int| 0 <= i < before.len() && before[i].key == key implies i == pos by {
                    if i < pos {
                        assert(incident_lt(before[i].key, key));
                        assert(!incident_lt(key, key));
                    } else if i > pos {
                        assert(incident_lt(before[pos as int].key, before[i].key));
                    }
                }
                assert forall|i: int, j: int| 0 <= i < j < self.incidents@.len() implies incident_lt((#[trigger] self.incidents@[i]).key, (#[trigger] self.incidents@[j]).key) by {
                    assert(incident_lt(before[i].key, before[j].key));
                }
            }
        } else {
            proof {
                assert forall|i: int| 0 <= i < before.len() implies (#[trigger] before[i]).key != key by {
                    if i < pos {
                        assert(incident_lt(before[i].key, key));
                    } else if pos < before.len() {
                        if i > pos {
                            assert(incident_lt(before[pos as int].key, before[i].key));
                        }
                        assert(!incident_lt(before[pos as int].key, key));
                    }
                }
            }
            self.incidents.insert(pos, ActiveIncident { key, started_at: now, dropped_packets: count });
            proof {
                vstd::seq_lib::to_multiset_insert(before, pos as int, ActiveIncident { key, started_at: now, dropped_packets: count });
                assert forall|i: int, j: int| 0 <= i < j < self.incidents@.len() implies incident_lt((#[trigger] self.incidents@[i]).key, (#[trigger] self.incidents@[j]).key) by {
                    if j < pos {
                        assert(incident_lt(before[i].key, before[j].key));
                    } else if j == pos {
                        assert(incident_lt(before[i].key, key));
                    } else if i > pos {
                        assert(incident_lt(before[i - 1].key, before[j - 1].key));
                    } else if i == pos {
                        assert(!incident_lt(before[pos as int].key, key));
                        assert(before[pos as int].key != key);
                        if j - 1 > pos {
                            assert(incident_lt(before[pos as int].key, before[j - 1].key));
                        }
                    } else {
                        assert(incident_lt(before[i].key, key));
                        assert(!incident_lt(before[pos as int].key, key));
                        assert(before[pos as int].key != key);
                        if j - 1 > pos {
                            assert(incident_lt(before[pos as int].key, before[j - 1].key));
                        }
                    }
                }
            }
            self.push_transition(LanIncidentTransition {
                peer_slot: key.peer_slot,
                lifecycle_epoch: key.epoch,
                direction: key.direction,
                stage: key.stage,
                reason: key.reason,
                kind: LanIncidentTransitionKind::Started,
                duration: 0,
                dropped_packets: count,
            });
        }
    }

    /// Closes the selected incidents at `now`, in key order, reporting each
    /// with its duration and drop count.
    pub fn close_matching(&mut self, sel: IncidentSelector, kind: LanIncidentTransitionKind, now: u64)
        requires
            old(self).wf(),
        ensures
            final(self).wf(),
            old(self).spec_closed(*final(self), sel, kind, now),
    {
        let ghost orig = self.incidents@;
        let ghost ts0 = self.transitions@;
        let ghost d0 = self.transitions_dropped;
        let mut kept: Vec<ActiveIncident> = Vec::new();
        let mut i: usize = 0;
        while i < self.incidents.len()
            invariant
                self.incidents@ == orig,
                incidents_sorted(orig),
                i <= orig.len(),
                self.transitions@.len() <= TRANSITION_CAPACITY,
                kept@ == spec_kept_incidents(orig.take(i as int), sel),
                (self.transitions@, self.transitions_dropped) == spec_closed_transitions(orig.take(i as int), sel, kind, now, ts0, d0),
                forall|a: int| 0 <= a < kept@.len() ==> exists|b: int| 0 <= b < i && orig[b] == #[trigger] kept@[a],
                incidents_sorted(kept@),
            decreases orig.len() - i,
        {
            let incident = self.incidents[i];
            proof {
                assert(orig.take(i + 1).drop_last() == orig.take(i as int));
                assert(orig.take(i + 1).last() == incident);
            }
            if selects(sel, incident.key) {
                let duration = now.saturating_sub(incident.started_at);
                let t = LanIncidentTransition {
                    peer_slot: incident.key.peer_slot,
                    lifecycle_epoch: incident.key.epoch,
                    direction: incident.key.direction,
                    stage: incident.key.stage,
                    reason: incident.key.reason,
                    kind,
                    duration,
                    dropped_packets: incident.dropped_packets,
                };
                if self.transitions.len() >= TRANSITION_CAPACITY {
                    self.transitions.remove(0);
                    self.transitions_dropped = self.transitions_dropped.saturating_add(1);
                }
                self.transitions.push(t);
                proof {
                    assert forall|a: int| 0 <= a < kept@.len() implies exists|b: int| 0 <= b < i + 1 && orig[b] == #[trigger] kept@[a] by {
                        let b = choose|b: int| 0 <= b < i && orig[b] == kept@[a];
                    }
                }
            } else {
                let ghost old_kept = kept@;
                kept.push(incident);
                proof {
                    assert forall|a: int| 0 <= a < kept@.len() implies exists|b: int| 0 <= b < i + 1 && orig[b] == #[trigger] kept@[a] by {
                        if a < old_kept.len() {
                            let b = choose|b: int| 0 <= b < i && orig[b] == old_kept[a];
                            assert(orig[b] == kept@[a]);
                        } else {
                            assert(orig[i as int] == kept@[a]);
                        }
                    }
                    assert forall|a: int, b: int| 0 <= a < b < kept@.len() implies incident_lt((#[trigger] kept@[a]).key, (#[trigger] kept@[b]).key) by {
                        if b == old_kept.len() {
                            let c = choose|c: int| 0 <= c < i && orig[c] == old_kept[a];
                            assert(incident_lt(orig[c].key, orig[i as int].key));
                        } else {
                            assert(incident_lt(old_kept[a].key, old_kept[b].key));
                        }
                    }
                }
            }
            i = i + 1;
        }
        proof {
            assert(orig.take(orig.len() as int) == orig);
        }
        self.incidents = kept;
    }
}

proof fn lemma_incident_lt_facts()
    ensures
        forall|a: IncidentKey| !incident_lt(a, a),
        forall|a: IncidentKey, b: IncidentKey| a != b ==> (incident_lt(a, b) || incident_lt(b, a)),
        forall|a: IncidentKey, b: IncidentKey, c: IncidentKey| incident_lt(a, b) && incident_lt(b, c) ==> incident_lt(a, c),
{
    assert forall|a: IncidentKey, b: IncidentKey| a != b implies (incident_lt(a, b) || incident_lt(b, a)) by {
        crate::lan_data::lemma_stage_index_injective(a.stage, b.stage);
        crate::lan_data::lemma_reason_index_injective(a.reason, b.reason);
        if a.direction != b.direction {
            assert(direction_index(a.direction) != direction_index(b.direction));
        }
    }
}


/// Totals of one lifecycle epoch of a peer's path.
#[derive(Debug)]
pub struct EpochLedger {
    pub epoch: u64,
    pub active: bool,
    pub send: DirectionTotals,
    pub receive: DirectionTotals,
}

/// Totals of one peer over its lifetime, with the detail of recent epochs.
#[derive(Debug)]
pub struct PeerLedger {
    pub peer_slot: u32,
    pub peer_steam_id64: u64,
    pub latest_epoch: u64,
    pub active_epoch: Option<u64>,
    pub send: DirectionTotals,
    pub receive: DirectionTotals,
    pub epochs: Vec<EpochLedger>,
}

/// The slot given to a Steam id.
#[derive(Clone, Copy, Debug, PartialEq, Eq, Structural)]
pub struct PeerSlot {
    pub steam_id64: u64,
    pub slot: u32,
}

/// Where a packet outcome is booked: a peer's slot and path epoch.
#[derive(Clone, Copy, Debug, PartialEq, Eq, Structural)]
pub struct PeerDataKey {
    pub steam_id64: u64,
    pub peer_slot: u32,
    pub epoch: u64,
}

/// The number of closed epochs in `s`.
pub open spec fn spec_closed_count(s: Seq<EpochLedger>) -> nat
    decreases s.len(),
{
    if s.len() == 0 { 0 } else { spec_closed_count(s.drop_last()) + if s.last().active { 0nat } else { 1nat } }
}

/// The position of the first closed epoch of `s`.
pub open spec fn spec_first_closed(s: Seq<EpochLedger>) -> int
    decreases s.len(),
{
    if s.len() == 0 { 0 } else if !s[0].active { 0 } else { 1 + spec_first_closed(s.drop_first()) }
}

/// `s` without its oldest closed epochs beyond the kept number.
pub open spec fn spec_trim_epochs(s: Seq<EpochLedger>) -> Seq<EpochLedger>
    decreases spec_closed_count(s),
{
    if spec_closed_count(s) > CLOSED_EPOCH_DETAIL_CAPACITY {
        proof {
            lemma_remove_first_closed(s);
        }
        spec_trim_epochs(s.remove(spec_first_closed(s)))
    } else {
        s
    }
}

pub proof fn lemma_closed_count_split(s: Seq<EpochLedger>)
    ensures
        s.len() > 0 ==> spec_closed_count(s) == (if s[0].active { 0nat } else { 1nat }) + spec_closed_count(s.drop_first()),
    decreases s.len(),
{
    if s.len() > 1 {
        lemma_closed_count_split(s.drop_last());
        assert(s.drop_last().drop_first() == s.drop_first().drop_last());
        assert(s.drop_first().last() == s.last());
        assert(s.drop_last()[0] == s[0]);
        assert(spec_closed_count(s.drop_first()) == spec_closed_count(s.drop_first().drop_last())
            + if s.drop_first().last().active { 0nat } else { 1nat });
    } else if s.len() == 1 {
        assert(s.drop_first().len() == 0);
        assert(s.drop_last().len() == 0);
        assert(s.last() == s[0]);
        assert(spec_closed_count(s.drop_first()) == 0);
        assert(spec_closed_count(s.drop_last()) == 0);
    }
}

pub proof fn lemma_remove_first_closed(s: Seq<EpochLedger>)
    requires
        spec_closed_count(s) > 0,
    ensures
        0 <= spec_first_closed(s) < s.len(),
        !s[spec_first_closed(s)].active,
        forall|j: int| 0 <= j < spec_first_closed(s) ==> (#[trigger] s[j]).active,
        spec_closed_count(s.remove(spec_first_closed(s))) == spec_closed_count(s) - 1,
    decreases s.len(),
{
    lemma_closed_count_split(s);
    if s.len() > 0 && s[0].active {
        lemma_remove_first_closed(s.drop_first());
        let k = spec_first_closed(s.drop_first());
        assert(s.remove(k + 1).drop_first() == s.drop_first().remove(k));
        lemma_closed_count_split(s.remove(k + 1));
        assert forall|j: int| 0 <= j < k + 1 implies (#[trigger] s[j]).active by {
            if j > 0 {
                assert(s[j] == s.drop_first()[j - 1]);
            }
        }
    } else if s.len() > 0 {
        assert(s.remove(0) == s.drop_first());
    }
}

fn closed_count(epochs: &Vec<EpochLedger>) -> (n: usize)
    ensures
        n == spec_closed_count(epochs@),
{
    let mut n: usize = 0;
    let mut i: usize = 0;
    while i < epochs.len()
        invariant
            i <= epochs@.len(),
            n == spec_closed_count(epochs@.take(i as int)),
            n <= i,
        decreases epochs@.len() - i,
    {
        proof {
            assert(epochs@.take(i + 1).drop_last() == epochs@.take(i as int));
        }
        if !epochs[i].active {
            n = n + 1;
        }
        i = i + 1;
    }
    proof {
        assert(epochs@.take(epochs@.len() as int) == epochs@);
    }
    n
}

fn first_closed(epochs: &Vec<EpochLedger>) -> (k: usize)
    requires
        spec_closed_count(epochs@) > 0,
    ensures
        k == spec_first_closed(epochs@),
{
    proof {
        lemma_remove_first_closed(epochs@);
    }
    let mut i: usize = 0;
    while i < epochs.len() && epochs[i].active
        invariant
            i <= epochs@.len(),
            0 <= spec_first_closed(epochs@) < epochs@.len(),
            !epochs@[spec_first_closed(epochs@)].active,
            i <= spec_first_closed(epochs@),
        decreases epochs@.len() - i,
    {
        i = i + 1;
    }
    i
}

/// Drops the detail of the oldest closed epochs beyond the kept number.
pub fn trim_closed_epochs(epochs: &mut Vec<EpochLedger>)
    ensures
        final(epochs)@ == spec_trim_epochs(old(epochs)@),
{
    loop
        invariant
            spec_trim_epochs(epochs@) == spec_trim_epochs(old(epochs)@),
        decreases spec_closed_count(epochs@),
    {
        let n = closed_count(epochs);
        if n <= CLOSED_EPOCH_DETAIL_CAPACITY {
            return;
        }
        let k = first_closed(epochs);
        proof {
            lemma_remove_first_closed(epochs@);
        }
        epochs.remove(k);
    }
}


/// A change booked to one direction's totals.
#[derive(Clone, Copy, Debug, PartialEq, Eq, Structural)]
pub enum TotalsUpdate {
    Outcome { stage: LanDataStage, outcome: LanDataOutcome, queue_depth: Option<usize> },
    DroppedBatch { stage: LanDataStage, reason: LanDataDropReason, count: u64, queue_depth: usize },
    Depth { queue_depth: usize },
}

/// `after` is `before` with `update` booked.
pub open spec fn spec_totals_changed(before: DirectionTotals, after: DirectionTotals, update: TotalsUpdate) -> bool {
    match update {
        TotalsUpdate::Outcome { stage, outcome, queue_depth } => before.spec_updated(after, stage, outcome, queue_depth),
        TotalsUpdate::DroppedBatch { stage, reason, count, queue_depth } => before.spec_batch_updated(after, stage, reason, count, queue_depth),
        TotalsUpdate::Depth { queue_depth } => before.spec_depth_set(after, queue_depth),
    }
}

impl DirectionTotals {
    pub fn apply(&mut self, update: TotalsUpdate)
        ensures
            spec_totals_changed(*old(self), *final(self), update),
    {
        match update {
            TotalsUpdate::Outcome { stage, outcome, queue_depth } => self.update(stage, outcome, queue_depth),
            TotalsUpdate::DroppedBatch { stage, reason, count, queue_depth } => self.update_dropped_batch(stage, reason, count, queue_depth),
            TotalsUpdate::Depth { queue_depth } => self.set_depth(queue_depth),
        }
    }
}

/// The position of the first epoch `epoch` in `s` (its length when absent).
pub open spec fn spec_epoch_position(s: Seq<EpochLedger>, epoch: u64) -> int
    decreases s.len(),
{
    if s.len() == 0 { 0 } else if s[0].epoch == epoch { 0 } else { 1 + spec_epoch_position(s.drop_first(), epoch) }
}

proof fn lemma_epoch_position(s: Seq<EpochLedger>, epoch: u64)
    ensures
        0 <= spec_epoch_position(s, epoch) <= s.len(),
        spec_epoch_position(s, epoch) < s.len() ==> s[spec_epoch_position(s, epoch)].epoch == epoch,
        forall|j: int| 0 <= j < spec_epoch_position(s, epoch) ==> (#[trigger] s[j]).epoch != epoch,
    decreases s.len(),
{
    if s.len() > 0 && s[0].epoch != epoch {
        lemma_epoch_position(s.drop_first(), epoch);
        assert forall|j: int| 0 <= j < spec_epoch_position(s, epoch) implies (#[trigger] s[j]).epoch != epoch by {
            if j > 0 {
                assert(s[j] == s.drop_first()[j - 1]);
            }
        }
    }
}

fn epoch_position(epochs: &Vec<EpochLedger>, epoch: u64) -> (r: usize)
    ensures
        r == spec_epoch_position(epochs@, epoch),
{
    proof {
        lemma_epoch_position(epochs@, epoch);
    }
    let mut i: usize = 0;
    while i < epochs.len() && epochs[i].epoch != epoch
        invariant
            i <= epochs@.len(),
            i <= spec_epoch_position(epochs@, epoch),
            spec_epoch_position(epochs@, epoch) <= epochs@.len(),
            spec_epoch_position(epochs@, epoch) < epochs@.len() ==> epochs@[spec_epoch_position(epochs@, epoch)].epoch == epoch,
        decreases epochs@.len() - i,
    {
        i = i + 1;
    }
    i
}

/// `after` is `before` with `update` booked to `direction`, both over the
/// peer's lifetime and in the first epoch numbered `epoch`, if any.
pub open spec fn spec_peer_changed(before: PeerLedger, after: PeerLedger, epoch: u64, direction: LanDataDirection, update: TotalsUpdate) -> bool {
    let pos = spec_epoch_position(before.epochs@, epoch);
    &&& after.peer_slot == before.peer_slot
    &&& after.peer_steam_id64 == before.peer_steam_id64
    &&& after.latest_epoch == before.latest_epoch
    &&& after.active_epoch == before.active_epoch
    &&& match direction {
        LanDataDirection::Send => spec_totals_changed(before.send, after.send, update) && after.receive == before.receive,
        LanDataDirection::Receive => spec_totals_changed(before.receive, after.receive, update) && after.send == before.send,
    }
    &&& after.epochs@.len() == before.epochs@.len()
    &&& forall|j: int| 0 <= j < before.epochs@.len() && j != pos ==> #[trigger] after.epochs@[j] == before.epochs@[j]
    &&& pos < before.epochs@.len() ==> {
        let b = before.epochs@[pos];
        let a = after.epochs@[pos];
        &&& a.epoch == b.epoch && a.active == b.active
        &&& match direction {
            LanDataDirection::Send => spec_totals_changed(b.send, a.send, update) && a.receive == b.receive,
            LanDataDirection::Receive => spec_totals_changed(b.receive, a.receive, update) && a.send == b.send,
        }
    }
}

impl EpochLedger {
    fn apply(&mut self, direction: LanDataDirection, update: TotalsUpdate)
        ensures
            final(self).epoch == old(self).epoch,
            final(self).active == old(self).active,
            match direction {
                LanDataDirection::Send => spec_totals_changed(old(self).send, final(self).send, update) && final(self).receive == old(self).receive,
                LanDataDirection::Receive => spec_totals_changed(old(self).receive, final(self).receive, update) && final(self).send == old(self).send,
            },
    {
        match direction {
            LanDataDirection::Send => self.send.apply(update),
            LanDataDirection::Receive => self.receive.apply(update),
        }
    }
}

impl PeerLedger {
    /// Books `update` to `direction` over the lifetime and in epoch `epoch`.
    pub fn apply(&mut self, epoch: u64, direction: LanDataDirection, update: TotalsUpdate)
        ensures
            spec_peer_changed(*old(self), *final(self), epoch, direction, update),
    {
        match direction {
            LanDataDirection::Send => self.send.apply(update),
            LanDataDirection::Receive => self.receive.apply(update),
        }
        let pos = epoch_position(&self.epochs, epoch);
        if pos < self.epochs.len() {
            let ghost before = self.epochs@;
            let mut e = self.epochs.remove(pos);
            e.apply(direction, update);
            self.epochs.insert(pos, e);
            proof {
                assert forall|j: int| 0 <= j < before.len() && j != pos implies #[trigger] self.epochs@[j] == before[j] by {
                    if j < pos {
                    } else {
                    }
                }
            }
        }
    }
}


/// Strictly ascending peer slots.
pub open spec fn peers_sorted(peers: Seq<PeerLedger>) -> bool {
    forall|i: int, j: int| 0 <= i < j < peers.len() ==> (#[trigger] peers[i]).peer_slot < (#[trigger] peers[j]).peer_slot
}

pub open spec fn spec_has_peer(peers: Seq<PeerLedger>, slot: u32) -> bool {
    exists|i: int| 0 <= i < peers.len() && (#[trigger] peers[i]).peer_slot == slot
}

pub open spec fn spec_peer_index(peers: Seq<PeerLedger>, slot: u32) -> int {
    choose|i: int| 0 <= i < peers.len() && (#[trigger] peers[i]).peer_slot == slot
}

/// The peers by slot.
pub open spec fn spec_peer_map(peers: Seq<PeerLedger>) -> Map<u32, PeerLedger> {
    Map::new(|slot: u32| spec_has_peer(peers, slot), |slot: u32| peers[spec_peer_index(peers, slot)])
}

proof fn lemma_peer_at(peers: Seq<PeerLedger>, i: int)
    requires
        peers_sorted(peers),
        0 <= i < peers.len(),
    ensures
        spec_has_peer(peers, peers[i].peer_slot),
        spec_peer_index(peers, peers[i].peer_slot) == i,
        spec_peer_map(peers).contains_key(peers[i].peer_slot),
        spec_peer_map(peers)[peers[i].peer_slot] == peers[i],
{
    let slot = peers[i].peer_slot;
    assert(peers[i].peer_slot == slot);
    let k = spec_peer_index(peers, slot);
    if k < i {
        assert(peers[k].peer_slot < peers[i].peer_slot);
    } else if k > i {
        assert(peers[i].peer_slot < peers[k].peer_slot);
    }
}

/// Replacing the peer at `i` by one with the same slot replaces it in the map.
proof fn lemma_peer_map_update(peers: Seq<PeerLedger>, i: int, p: PeerLedger)
    requires
        peers_sorted(peers),
        0 <= i < peers.len(),
        p.peer_slot == peers[i].peer_slot,
    ensures
        peers_sorted(peers.update(i, p)),
        spec_peer_map(peers.update(i, p)) == spec_peer_map(peers).insert(p.peer_slot, p),
{
    let after = peers.update(i, p);
    assert forall|a: int, b: int| 0 <= a < b < after.len() implies (#[trigger] after[a]).peer_slot < (#[trigger] after[b]).peer_slot by {
        assert(peers[a].peer_slot < peers[b].peer_slot);
    }
    let m1 = spec_peer_map(after);
    let m2 = spec_peer_map(peers).insert(p.peer_slot, p);
    assert forall|slot: u32| m1.contains_key(slot) <==> m2.contains_key(slot) by {
        if spec_has_peer(after, slot) {
            let k = choose|k: int| 0 <= k < after.len() && (#[trigger] after[k]).peer_slot == slot;
            if k != i {
                assert(peers[k].peer_slot == slot);
            }
        }
        if spec_has_peer(peers, slot) {
            let k = choose|k: int| 0 <= k < peers.len() && (#[trigger] peers[k]).peer_slot == slot;
            if k != i {
                assert(after[k].peer_slot == slot);
            } else {
                assert(after[i].peer_slot == slot);
            }
        }
        if slot == p.peer_slot {
            assert(after[i].peer_slot == slot);
        }
    }
    assert forall|slot: u32| m1.contains_key(slot) implies m1[slot] == m2[slot] by {
        let k = choose|k: int| 0 <= k < after.len() && (#[trigger] after[k]).peer_slot == slot;
        lemma_peer_at(after, k);
        if k != i {
            assert(peers[k] == after[k]);
            lemma_peer_at(peers, k);
        }
    }
    assert(m1 =~= m2);
}

/// Inserting a peer at its sorted position adds it to the map.
proof fn lemma_peer_map_insert(peers: Seq<PeerLedger>, pos: int, p: PeerLedger)
    requires
        peers_sorted(peers),
        0 <= pos <= peers.len(),
        forall|j: int| 0 <= j < pos ==> (#[trigger] peers[j]).peer_slot < p.peer_slot,
        forall|j: int| pos <= j < peers.len() ==> p.peer_slot < (#[trigger] peers[j]).peer_slot,
    ensures
        peers_sorted(peers.insert(pos, p)),
        spec_peer_map(peers.insert(pos, p)) == spec_peer_map(peers).insert(p.peer_slot, p),
        !spec_has_peer(peers, p.peer_slot),
{
    let after = peers.insert(pos, p);
    assert forall|a: int, b: int| 0 <= a < b < after.len() implies (#[trigger] after[a]).peer_slot < (#[trigger] after[b]).peer_slot by {
        if b < pos {
            assert(peers[a].peer_slot < peers[b].peer_slot);
        } else if b == pos {
        } else if a > pos {
            assert(peers[a - 1].peer_slot < peers[b - 1].peer_slot);
        } else if a == pos {
        } else {
            assert(after[b] == peers[b - 1]);
        }
    }
    if spec_has_peer(peers, p.peer_slot) {
        let k = choose|k: int| 0 <= k < peers.len() && (#[trigger] peers[k]).peer_slot == p.peer_slot;
    }
    let m1 = spec_peer_map(after);
    let m2 = spec_peer_map(peers).insert(p.peer_slot, p);
    assert forall|slot: u32| m1.contains_key(slot) <==> m2.contains_key(slot) by {
        if spec_has_peer(after, slot) {
            let k = choose|k: int| 0 <= k < after.len() && (#[trigger] after[k]).peer_slot == slot;
            if k < pos {
                assert(peers[k].peer_slot == slot);
            } else if k > pos {
                assert(peers[k - 1].peer_slot == slot);
            }
        }
        if spec_has_peer(peers, slot) {
            let k = choose|k: int| 0 <= k < peers.len() && (#[trigger] peers[k]).peer_slot == slot;
            if k < pos {
                assert(after[k].peer_slot == slot);
            } else {
                assert(after[k + 1].peer_slot == slot);
            }
        }
        if slot == p.peer_slot {
            assert(after[pos].peer_slot == slot);
        }
    }
    assert forall|slot: u32| m1.contains_key(slot) implies m1[slot] == m2[slot] by {
        let k = choose|k: int| 0 <= k < after.len() && (#[trigger] after[k]).peer_slot == slot;
        lemma_peer_at(after, k);
        if k < pos {
            assert(peers[k] == after[k]);
            lemma_peer_at(peers, k);
        } else if k > pos {
            assert(peers[k - 1] == after[k]);
            lemma_peer_at(peers, k - 1);
        }
    }
    assert(m1 =~= m2);
}

/// Distinct Steam ids in the slot table.
pub open spec fn slots_distinct(slots: Seq<PeerSlot>) -> bool {
    forall|i: int, j: int| 0 <= i < j < slots.len() ==> (#[trigger] slots[i]).steam_id64 != (#[trigger] slots[j]).steam_id64
}

pub open spec fn spec_has_slot(slots: Seq<PeerSlot>, steam_id64: u64) -> bool {
    exists|i: int| 0 <= i < slots.len() && (#[trigger] slots[i]).steam_id64 == steam_id64
}

pub open spec fn spec_slot_of(slots: Seq<PeerSlot>, steam_id64: u64) -> u32 {
    slots[choose|i: int| 0 <= i < slots.len() && (#[trigger] slots[i]).steam_id64 == steam_id64].slot
}

/// A peer with nothing booked yet.
pub open spec fn spec_fresh_totals(t: DirectionTotals) -> bool {
    t.queued == 0 && t.resolved_success == 0 && t.dropped == 0 && t.current_queue_depth == 0
        && t.max_queue_depth == 0 && t.rejections@.len() == 0
}

/// An epoch with nothing booked yet.
pub open spec fn spec_fresh_epoch(e: EpochLedger, epoch: u64, active: bool) -> bool {
    e.epoch == epoch && e.active == active && spec_fresh_totals(e.send) && spec_fresh_totals(e.receive)
}

/// The ledger of the whole data plane.
#[derive(Debug)]
pub struct LanDataLedger {
    pub slots: Vec<PeerSlot>,
    pub next_peer_slot: u32,
    pub peers: Vec<PeerLedger>,
    pub log: IncidentLog,
}

impl LanDataLedger {
    pub open spec fn wf(&self) -> bool {
        &&& slots_distinct(self.slots@)
        &&& peers_sorted(self.peers@)
        &&& self.log.wf()
    }

    /// An empty ledger; slots are handed out from 1.
    pub fn new() -> (l: LanDataLedger)
        ensures
            l.wf(),
            l.slots@.len() == 0,
            l.next_peer_slot == 1,
            l.peers@.len() == 0,
            l.log.incidents@.len() == 0 && l.log.transitions@.len() == 0 && l.log.transitions_dropped == 0,
    {
        LanDataLedger { slots: Vec::new(), next_peer_slot: 1, peers: Vec::new(), log: IncidentLog::new() }
    }

    /// The slot of `steam_id64`, handing out the next one on first sight.
    pub fn peer_slot(&mut self, steam_id64: u64) -> (slot: u32)
        requires
            old(self).wf(),
        ensures
            final(self).wf(),
            final(self).peers@ == old(self).peers@,
            final(self).log == old(self).log,
            spec_has_slot(old(self).slots@, steam_id64) ==> {
                &&& slot == spec_slot_of(old(self).slots@, steam_id64)
                &&& final(self).slots@ == old(self).slots@
                &&& final(self).next_peer_slot == old(self).next_peer_slot
            },
            !spec_has_slot(old(self).slots@, steam_id64) ==> {
                &&& slot == old(self).next_peer_slot
                &&& final(self).slots@ == old(self).slots@.push(PeerSlot { steam_id64, slot })
                &&& final(self).next_peer_slot == (if old(self).next_peer_slot == u32::MAX { u32::MAX } else { (old(self).next_peer_slot + 1) as u32 })
            },
    {
        let mut i: usize = 0;
        while i < self.slots.len()
            invariant
                i <= self.slots@.len(),
                self.wf(),
                self.slots@ == old(self).slots@,
                forall|k: int| 0 <= k < i ==> (#[trigger] self.slots@[k]).steam_id64 != steam_id64,
            decreases self.slots@.len() - i,
        {
            if self.slots[i].steam_id64 == steam_id64 {
                proof {
                    let k = choose|k: int| 0 <= k < self.slots@.len() && (#[trigger] self.slots@[k]).steam_id64 == steam_id64;
                    if k != i {
                        if k < i {
                            assert(self.slots@[k].steam_id64 != self.slots@[i as int].steam_id64);
                        } else {
                            assert(self.slots@[i as int].steam_id64 != self.slots@[k].steam_id64);
                        }
                    }
                }
                return self.slots[i].slot;
            }
            i = i + 1;
        }
        let slot = self.next_peer_slot;
        self.next_peer_slot = self.next_peer_slot.saturating_add(1);
        let ghost before = self.slots@;
        self.slots.push(PeerSlot { steam_id64, slot });
        proof {
            assert forall|a: int, b: int| 0 <= a < b < self.slots@.len() implies (#[trigger] self.slots@[a]).steam_id64 != (#[trigger] self.slots@[b]).steam_id64 by {
                if b < before.len() {
                    assert(before[a].steam_id64 != before[b].steam_id64);
                }
            }
        }
        slot
    }

    /// The position of the peer in `slot`, or where it would go.
    fn find_peer(&self, slot: u32) -> (r: Result<usize, usize>)
        requires
            peers_sorted(self.peers@),
        ensures
            r matches Ok(i) ==> i < self.peers@.len() && self.peers@[i as int].peer_slot == slot,
            r matches Err(pos) ==> {
                &&& pos <= self.peers@.len()
                &&& forall|j: int| 0 <= j < pos ==> (#[trigger] self.peers@[j]).peer_slot < slot
                &&& forall|j: int| pos <= j < self.peers@.len() ==> slot < (#[trigger] self.peers@[j]).peer_slot
            },
            r is Ok <==> spec_has_peer(self.peers@, slot),
    {
        let mut i: usize = 0;
        while i < self.peers.len() && self.peers[i].peer_slot < slot
            invariant
                peers_sorted(self.peers@),
                i <= self.peers@.len(),
                forall|j: int| 0 <= j < i ==> (#[trigger] self.peers@[j]).peer_slot < slot,
            decreases self.peers@.len() - i,
        {
            i = i + 1;
        }
        if i < self.peers.len() && self.peers[i].peer_slot == slot {
            return Ok(i);
        }
        proof {
            assert forall|j: int| i <= j < self.peers@.len() implies slot < (#[trigger] self.peers@[j]).peer_slot by {
                if j > i {
                    assert(self.peers@[i as int].peer_slot < self.peers@[j].peer_slot);
                }
            }
            if spec_has_peer(self.peers@, slot) {
                let k = choose|k: int| 0 <= k < self.peers@.len() && (#[trigger] self.peers@[k]).peer_slot == slot;
                if k < i {
                    assert(self.peers@[k].peer_slot < slot);
                } else {
                    assert(slot < self.peers@[k].peer_slot);
                }
            }
        }
        Err(i)
    }
}


/// The incident key of a booking.
pub open spec fn spec_incident_key(key: PeerDataKey, direction: LanDataDirection, stage: LanDataStage, reason: LanDataDropReason) -> IncidentKey {
    IncidentKey { peer_slot: key.peer_slot, epoch: key.epoch, direction, stage, reason }
}

/// `after` is `before` (or a new peer in `slot` for `steam_id64` when there
/// was none) with the path of `epoch` activated: it becomes the latest and
/// active epoch, and a fresh active epoch detail is appended, the oldest
/// closed ones beyond the kept number being dropped.
pub open spec fn spec_activated(before: Option<PeerLedger>, after: PeerLedger, slot: u32, steam_id64: u64, epoch: u64) -> bool {
    &&& after.peer_slot == slot
    &&& after.latest_epoch == epoch
    &&& after.active_epoch == Some(epoch)
    &&& match before {
        Some(b) => {
            &&& after.peer_steam_id64 == b.peer_steam_id64
            &&& after.send == b.send
            &&& after.receive == b.receive
            &&& exists|e: EpochLedger| spec_fresh_epoch(e, epoch, true) && after.epochs@ == spec_trim_epochs(b.epochs@.push(e))
        },
        None => {
            &&& after.peer_steam_id64 == steam_id64
            &&& spec_fresh_totals(after.send) && spec_fresh_totals(after.receive)
            &&& exists|e: EpochLedger| spec_fresh_epoch(e, epoch, true) && after.epochs@ == spec_trim_epochs(seq![e])
        },
    }
}

/// `after` is `before` with the path of `epoch` closed: no longer active,
/// its epoch detail closed with empty queues, the peer's queues empty, and
/// the closed epoch details trimmed.
pub open spec fn spec_epoch_closed(before: PeerLedger, after: PeerLedger, epoch: u64) -> bool {
    let pos = spec_epoch_position(before.epochs@, epoch);
    &&& after.peer_slot == before.peer_slot
    &&& after.peer_steam_id64 == before.peer_steam_id64
    &&& after.latest_epoch == before.latest_epoch
    &&& after.active_epoch == (if before.active_epoch == Some(epoch) { None } else { before.active_epoch })
    &&& before.send.spec_depth_cleared(after.send)
    &&& before.receive.spec_depth_cleared(after.receive)
    &&& exists|closed: Seq<EpochLedger>| {
        &&& closed.len() == before.epochs@.len()
        &&& forall|j: int| 0 <= j < closed.len() && j != pos ==> #[trigger] closed[j] == before.epochs@[j]
        &&& pos < closed.len() ==> {
            &&& closed[pos].epoch == epoch
            &&& !closed[pos].active
            &&& before.epochs@[pos].send.spec_depth_cleared(closed[pos].send)
            &&& before.epochs@[pos].receive.spec_depth_cleared(closed[pos].receive)
        }
        &&& after.epochs@ == spec_trim_epochs(closed)
    }
}

impl DirectionTotals {
    /// `after` is `self` with an empty queue.
    pub open spec fn spec_depth_cleared(&self, after: DirectionTotals) -> bool {
        &&& after.current_queue_depth == 0
        &&& after.max_queue_depth == self.max_queue_depth
        &&& after.queued == self.queued
        &&& after.resolved_success == self.resolved_success
        &&& after.dropped == self.dropped
        &&& after.rejections@ == self.rejections@
    }
}

impl LanDataLedger {
    /// Activates the path of `epoch` to `steam_id64` at `now`: the peer's
    /// open incidents are closed, and its epoch becomes the active one.
    pub fn activate(&mut self, steam_id64: u64, epoch: u64, now: u64) -> (key: PeerDataKey)
        requires
            old(self).wf(),
        ensures
            final(self).wf(),
            key.steam_id64 == steam_id64 && key.epoch == epoch,
            key.peer_slot == (if spec_has_slot(old(self).slots@, steam_id64) { spec_slot_of(old(self).slots@, steam_id64) } else { old(self).next_peer_slot }),
            old(self).log.spec_closed(final(self).log, IncidentSelector::Peer { peer_slot: key.peer_slot }, LanIncidentTransitionKind::Closed, now),
            spec_peer_map(final(self).peers@).contains_key(key.peer_slot),
            spec_peer_map(final(self).peers@).remove(key.peer_slot) == spec_peer_map(old(self).peers@).remove(key.peer_slot),
            spec_activated(
                if spec_has_peer(old(self).peers@, key.peer_slot) { Some(spec_peer_map(old(self).peers@)[key.peer_slot]) } else { None },
                spec_peer_map(final(self).peers@)[key.peer_slot],
                key.peer_slot,
                steam_id64,
                epoch,
            ),
    {
        let slot = self.peer_slot(steam_id64);
        self.log.close_matching(IncidentSelector::Peer { peer_slot: slot }, LanIncidentTransitionKind::Closed, now);
        let fresh = EpochLedger { epoch, active: true, send: DirectionTotals::new(), receive: DirectionTotals::new() };
        let ghost fresh_view = fresh;
        match self.find_peer(slot) {
            Ok(i) => {
                let ghost before = self.peers@;
                proof {
                    lemma_peer_at(before, i as int);
                }
                let mut p = self.peers.remove(i);
                let ghost bp = p;
                p.latest_epoch = epoch;
                p.active_epoch = Some(epoch);
                p.epochs.push(fresh);
                trim_closed_epochs(&mut p.epochs);
                let ghost ap = p;
                self.peers.insert(i, p);
                proof {
                    assert(self.peers@ == before.update(i as int, ap));
                    lemma_peer_map_update(before, i as int, ap);
                    lemma_peer_at(self.peers@, i as int);
                    assert(spec_peer_map(self.peers@).remove(slot) =~= spec_peer_map(before).remove(slot));
                    assert(spec_fresh_epoch(fresh_view, epoch, true) && ap.epochs@ == spec_trim_epochs(bp.epochs@.push(fresh_view)));
                }
            },
            Err(pos) => {
                let ghost before = self.peers@;
                let mut epochs: Vec<EpochLedger> = Vec::new();
                epochs.push(fresh);
                proof {
                    assert(epochs@ == seq![fresh_view]);
                }
                trim_closed_epochs(&mut epochs);
                let p = PeerLedger {
                    peer_slot: slot,
                    peer_steam_id64: steam_id64,
                    latest_epoch: epoch,
                    active_epoch: Some(epoch),
                    send: DirectionTotals::new(),
                    receive: DirectionTotals::new(),
                    epochs,
                };
                let ghost ap = p;
                self.peers.insert(pos, p);
                proof {
                    lemma_peer_map_insert(before, pos as int, ap);
                    lemma_peer_at(self.peers@, pos as int);
                    assert(spec_peer_map(self.peers@).remove(slot) =~= spec_peer_map(before).remove(slot));
                    assert(spec_fresh_epoch(fresh_view, epoch, true) && ap.epochs@ == spec_trim_epochs(seq![fresh_view]));
                }
            },
        }
        PeerDataKey { steam_id64, peer_slot: slot, epoch }
    }

    /// The booking key of traffic to `steam_id64` before its path is
    /// attached; the peer gets a closed detail of that epoch on first sight.
    pub fn unattached(&mut self, steam_id64: u64) -> (key: PeerDataKey)
        requires
            old(self).wf(),
        ensures
            final(self).wf(),
            key.steam_id64 == steam_id64 && key.epoch == UNATTACHED_EPOCH,
            key.peer_slot == (if spec_has_slot(old(self).slots@, steam_id64) { spec_slot_of(old(self).slots@, steam_id64) } else { old(self).next_peer_slot }),
            final(self).log == old(self).log,
            spec_has_peer(old(self).peers@, key.peer_slot) ==> final(self).peers@ == old(self).peers@,
            !spec_has_peer(old(self).peers@, key.peer_slot) ==> {
                let p = spec_peer_map(final(self).peers@)[key.peer_slot];
                &&& spec_peer_map(final(self).peers@).contains_key(key.peer_slot)
                &&& spec_peer_map(final(self).peers@).remove(key.peer_slot) == spec_peer_map(old(self).peers@)
                &&& p.peer_slot == key.peer_slot && p.peer_steam_id64 == steam_id64
                &&& p.latest_epoch == UNATTACHED_EPOCH && p.active_epoch is None
                &&& spec_fresh_totals(p.send) && spec_fresh_totals(p.receive)
                &&& p.epochs@.len() == 1 && spec_fresh_epoch(p.epochs@[0], UNATTACHED_EPOCH, false)
            },
    {
        let slot = self.peer_slot(steam_id64);
        match self.find_peer(slot) {
            Ok(_) => {},
            Err(pos) => {
                let ghost before = self.peers@;
                let mut epochs: Vec<EpochLedger> = Vec::new();
                epochs.push(EpochLedger { epoch: UNATTACHED_EPOCH, active: false, send: DirectionTotals::new(), receive: DirectionTotals::new() });
                let p = PeerLedger {
                    peer_slot: slot,
                    peer_steam_id64: steam_id64,
                    latest_epoch: UNATTACHED_EPOCH,
                    active_epoch: None,
                    send: DirectionTotals::new(),
                    receive: DirectionTotals::new(),
                    epochs,
                };
                let ghost ap = p;
                self.peers.insert(pos, p);
                proof {
                    lemma_peer_map_insert(before, pos as int, ap);
                    lemma_peer_at(self.peers@, pos as int);
                    assert(spec_peer_map(before).insert(slot, ap).remove(slot) =~= spec_peer_map(before));
                }
            },
        }
        PeerDataKey { steam_id64, peer_slot: slot, epoch: UNATTACHED_EPOCH }
    }

    /// Books `update` to `direction` of the peer and epoch of `key`; a peer
    /// that is not in the ledger is ignored.
    fn book(&mut self, key: PeerDataKey, direction: LanDataDirection, update: TotalsUpdate) -> (found: bool)
        requires
            old(self).wf(),
        ensures
            final(self).wf(),
            found == spec_has_peer(old(self).peers@, key.peer_slot),
            final(self).slots@ == old(self).slots@,
            final(self).next_peer_slot == old(self).next_peer_slot,
            final(self).log == old(self).log,
            !found ==> final(self).peers@ == old(self).peers@,
            found ==> {
                &&& spec_peer_map(final(self).peers@).contains_key(key.peer_slot)
                &&& spec_peer_map(final(self).peers@).remove(key.peer_slot) == spec_peer_map(old(self).peers@).remove(key.peer_slot)
                &&& spec_peer_changed(
                    spec_peer_map(old(self).peers@)[key.peer_slot],
                    spec_peer_map(final(self).peers@)[key.peer_slot],
                    key.epoch,
                    direction,
                    update,
                )
            },
    {
        match self.find_peer(key.peer_slot) {
            Err(_) => false,
            Ok(i) => {
                let ghost before = self.peers@;
                proof {
                    lemma_peer_at(before, i as int);
                }
                let mut p = self.peers.remove(i);
                p.apply(key.epoch, direction, update);
                let ghost ap = p;
                self.peers.insert(i, p);
                proof {
                    assert(self.peers@ == before.update(i as int, ap));
                    lemma_peer_map_update(before, i as int, ap);
                    assert(spec_peer_map(self.peers@).remove(key.peer_slot) =~= spec_peer_map(before).remove(key.peer_slot));
                }
                true
            },
        }
    }

    /// Books one packet outcome at `now`. A drop counts towards the incident
    /// of its stage and reason; a delivery or queueing recovers the incidents
    /// of its stage. A peer that is not in the ledger is ignored.
    pub fn record(
        &mut self,
        key: PeerDataKey,
        direction: LanDataDirection,
        stage: LanDataStage,
        outcome: LanDataOutcome,
        queue_depth: Option<usize>,
        now: u64,
    )
        requires
            old(self).wf(),
        ensures
            final(self).wf(),
            final(self).slots@ == old(self).slots@,
            final(self).next_peer_slot == old(self).next_peer_slot,
            !spec_has_peer(old(self).peers@, key.peer_slot) ==> final(self).peers@ == old(self).peers@ && final(self).log == old(self).log,
            spec_has_peer(old(self).peers@, key.peer_slot) ==> {
                &&& spec_peer_map(final(self).peers@).contains_key(key.peer_slot)
                &&& spec_peer_map(final(self).peers@).remove(key.peer_slot) == spec_peer_map(old(self).peers@).remove(key.peer_slot)
                &&& spec_peer_changed(
                    spec_peer_map(old(self).peers@)[key.peer_slot],
                    spec_peer_map(final(self).peers@)[key.peer_slot],
                    key.epoch,
                    direction,
                    TotalsUpdate::Outcome { stage, outcome, queue_depth },
                )
                &&& match outcome {
                    LanDataOutcome::Dropped(reason) => old(self).log.spec_drop_recorded(final(self).log, spec_incident_key(key, direction, stage, reason), 1, now),
                    _ => old(self).log.spec_closed(
                        final(self).log,
                        IncidentSelector::Stage { peer_slot: key.peer_slot, epoch: key.epoch, direction, stage },
                        LanIncidentTransitionKind::Recovered,
                        now,
                    ),
                }
            },
    {
        let found = self.book(key, direction, TotalsUpdate::Outcome { stage, outcome, queue_depth });
        if !found {
            return;
        }
        match outcome {
            LanDataOutcome::Dropped(reason) => {
                self.log.record_drop(IncidentKey { peer_slot: key.peer_slot, epoch: key.epoch, direction, stage, reason }, 1, now);
            },
            _ => {
                self.log.close_matching(
                    IncidentSelector::Stage { peer_slot: key.peer_slot, epoch: key.epoch, direction, stage },
                    LanIncidentTransitionKind::Recovered,
                    now,
                );
            },
        }
    }

    /// Records a new queue depth for the peer and epoch of `key`.
    pub fn set_queue_depth(&mut self, key: PeerDataKey, direction: LanDataDirection, queue_depth: usize)
        requires
            old(self).wf(),
        ensures
            final(self).wf(),
            final(self).slots@ == old(self).slots@,
            final(self).next_peer_slot == old(self).next_peer_slot,
            final(self).log == old(self).log,
            !spec_has_peer(old(self).peers@, key.peer_slot) ==> final(self).peers@ == old(self).peers@,
            spec_has_peer(old(self).peers@, key.peer_slot) ==> {
                &&& spec_peer_map(final(self).peers@).contains_key(key.peer_slot)
                &&& spec_peer_map(final(self).peers@).remove(key.peer_slot) == spec_peer_map(old(self).peers@).remove(key.peer_slot)
                &&& spec_peer_changed(
                    spec_peer_map(old(self).peers@)[key.peer_slot],
                    spec_peer_map(final(self).peers@)[key.peer_slot],
                    key.epoch,
                    direction,
                    TotalsUpdate::Depth { queue_depth },
                )
            },
    {
        self.book(key, direction, TotalsUpdate::Depth { queue_depth });
    }

    /// Books `count` packets dropped at once; a zero count only records the
    /// queue depth.
    pub fn record_dropped_batch(
        &mut self,
        key: PeerDataKey,
        direction: LanDataDirection,
        stage: LanDataStage,
        reason: LanDataDropReason,
        count: u64,
        queue_depth: usize,
        now: u64,
    )
        requires
            old(self).wf(),
        ensures
            final(self).wf(),
            final(self).slots@ == old(self).slots@,
            final(self).next_peer_slot == old(self).next_peer_slot,
            !spec_has_peer(old(self).peers@, key.peer_slot) ==> final(self).peers@ == old(self).peers@ && final(self).log == old(self).log,
            spec_has_peer(old(self).peers@, key.peer_slot) ==> {
                &&& spec_peer_map(final(self).peers@).contains_key(key.peer_slot)
                &&& spec_peer_map(final(self).peers@).remove(key.peer_slot) == spec_peer_map(old(self).peers@).remove(key.peer_slot)
                &&& spec_peer_changed(
                    spec_peer_map(old(self).peers@)[key.peer_slot],
                    spec_peer_map(final(self).peers@)[key.peer_slot],
                    key.epoch,
                    direction,
                    if count == 0 {
                        TotalsUpdate::Depth { queue_depth }
                    } else {
                        TotalsUpdate::DroppedBatch { stage, reason, count, queue_depth }
                    },
                )
                &&& if count == 0 {
                    final(self).log == old(self).log
                } else {
                    old(self).log.spec_drop_recorded(final(self).log, spec_incident_key(key, direction, stage, reason), count, now)
                }
            },
    {
        if count == 0 {
            self.set_queue_depth(key, direction, queue_depth);
            return;
        }
        let found = self.book(key, direction, TotalsUpdate::DroppedBatch { stage, reason, count, queue_depth });
        if found {
            self.log.record_drop(IncidentKey { peer_slot: key.peer_slot, epoch: key.epoch, direction, stage, reason }, count, now);
        }
    }

    /// Every open incident closes at `now`.
    pub fn finish_all(&mut self, now: u64)
        requires
            old(self).wf(),
        ensures
            final(self).wf(),
            final(self).slots@ == old(self).slots@,
            final(self).next_peer_slot == old(self).next_peer_slot,
            final(self).peers@ == old(self).peers@,
            old(self).log.spec_closed(final(self).log, IncidentSelector::All, LanIncidentTransitionKind::Closed, now),
    {
        self.log.close_matching(IncidentSelector::All, LanIncidentTransitionKind::Closed, now);
    }

    /// Hands out the transitions reported so far, oldest first.
    pub fn drain_transitions(&mut self) -> (ts: Vec<LanIncidentTransition>)
        requires
            old(self).wf(),
        ensures
            final(self).wf(),
            ts@ == old(self).log.transitions@,
            final(self).log.transitions@.len() == 0,
            final(self).log.incidents@ == old(self).log.incidents@,
            final(self).log.transitions_dropped == old(self).log.transitions_dropped,
            final(self).slots@ == old(self).slots@,
            final(self).next_peer_slot == old(self).next_peer_slot,
            final(self).peers@ == old(self).peers@,
    {
        let mut ts: Vec<LanIncidentTransition> = Vec::new();
        std::mem::swap(&mut ts, &mut self.log.transitions);
        ts
    }
}


/// `snap` reports `t`.
pub open spec fn spec_direction_reported(snap: LanDirectionSnapshot, t: DirectionTotals) -> bool {
    &&& snap.queued == t.queued
    &&& snap.resolved_success == t.resolved_success
    &&& snap.dropped == t.dropped
    &&& snap.current_queue_depth == t.current_queue_depth
    &&& snap.max_queue_depth == t.max_queue_depth
    &&& snap.rejections@ == lan_rejections(t.rejections@)
}

/// `snap` reports the peer `p`.
pub open spec fn spec_peer_reported(snap: LanPeerDataSnapshot, p: PeerLedger) -> bool {
    &&& snap.peer_slot == p.peer_slot
    &&& snap.peer_steam_id64 == p.peer_steam_id64
    &&& snap.latest_lifecycle_epoch == p.latest_epoch
    &&& snap.active == (p.active_epoch is Some)
    &&& spec_direction_reported(snap.send, p.send)
    &&& spec_direction_reported(snap.receive, p.receive)
    &&& snap.epochs@.len() == p.epochs@.len()
    &&& forall|j: int| 0 <= j < p.epochs@.len() ==> {
        let e = #[trigger] p.epochs@[j];
        let se = snap.epochs@[j];
        &&& se.lifecycle_epoch == e.epoch
        &&& se.active == e.active
        &&& spec_direction_reported(se.send, e.send)
        &&& spec_direction_reported(se.receive, e.receive)
    }
}

/// The send (or receive) side of every peer snapshot.
pub open spec fn peer_sides(peers: Seq<LanPeerDataSnapshot>, send: bool) -> Seq<LanDirectionSnapshot> {
    Seq::new(peers.len(), |i: int| if send { peers[i].send } else { peers[i].receive })
}

/// Two direction snapshots with the same content.
pub open spec fn same_lan_direction(a: LanDirectionSnapshot, b: LanDirectionSnapshot) -> bool {
    &&& a.queued == b.queued
    &&& a.resolved_success == b.resolved_success
    &&& a.dropped == b.dropped
    &&& a.current_queue_depth == b.current_queue_depth
    &&& a.max_queue_depth == b.max_queue_depth
    &&& a.rejections@ == b.rejections@
}

proof fn lemma_folds_agree(a: Seq<LanDirectionSnapshot>, b: Seq<LanDirectionSnapshot>, n: int)
    requires
        0 <= n <= a.len(),
        a.len() == b.len(),
        forall|i: int| 0 <= i < a.len() ==> same_lan_direction(#[trigger] a[i], b[i]),
    ensures
        crate::lan_data::fold_queued(a, n) == crate::lan_data::fold_queued(b, n),
        crate::lan_data::fold_success(a, n) == crate::lan_data::fold_success(b, n),
        crate::lan_data::fold_dropped(a, n) == crate::lan_data::fold_dropped(b, n),
        crate::lan_data::fold_depth(a, n) == crate::lan_data::fold_depth(b, n),
        crate::lan_data::fold_max_depth(a, n) == crate::lan_data::fold_max_depth(b, n),
        crate::lan_data::fold_lan_tallies(a, n) == crate::lan_data::fold_lan_tallies(b, n),
    decreases n,
{
    if n > 0 {
        lemma_folds_agree(a, b, n - 1);
        assert(same_lan_direction(a[n - 1], b[n - 1]));
    }
}

fn epoch_snapshot(e: &EpochLedger) -> (s: LanEpochDataSnapshot)
    ensures
        s.lifecycle_epoch == e.epoch,
        s.active == e.active,
        spec_direction_reported(s.send, e.send),
        spec_direction_reported(s.receive, e.receive),
{
    LanEpochDataSnapshot { lifecycle_epoch: e.epoch, active: e.active, send: e.send.snapshot(), receive: e.receive.snapshot() }
}

fn peer_snapshot(p: &PeerLedger) -> (s: LanPeerDataSnapshot)
    ensures
        spec_peer_reported(s, *p),
{
    let mut epochs: Vec<LanEpochDataSnapshot> = Vec::new();
    let mut j: usize = 0;
    while j < p.epochs.len()
        invariant
            j <= p.epochs@.len(),
            epochs@.len() == j,
            forall|k: int| 0 <= k < j ==> {
                let e = #[trigger] p.epochs@[k];
                let se = epochs@[k];
                &&& se.lifecycle_epoch == e.epoch
                &&& se.active == e.active
                &&& spec_direction_reported(se.send, e.send)
                &&& spec_direction_reported(se.receive, e.receive)
            },
        decreases p.epochs@.len() - j,
    {
        epochs.push(epoch_snapshot(&p.epochs[j]));
        j = j + 1;
    }
    LanPeerDataSnapshot {
        peer_slot: p.peer_slot,
        peer_steam_id64: p.peer_steam_id64,
        latest_lifecycle_epoch: p.latest_epoch,
        active: p.active_epoch.is_some(),
        send: p.send.snapshot(),
        receive: p.receive.snapshot(),
        epochs,
    }
}

impl LanDataLedger {
    /// Closes the path of `epoch` at `now`: its queues are empty, its detail
    /// is marked closed (older closed details beyond the kept number are
    /// dropped), and its incidents close.
    pub fn close_epoch(&mut self, key: PeerDataKey, now: u64)
        requires
            old(self).wf(),
        ensures
            final(self).wf(),
            final(self).slots@ == old(self).slots@,
            final(self).next_peer_slot == old(self).next_peer_slot,
            old(self).log.spec_closed(
                final(self).log,
                IncidentSelector::Epoch { peer_slot: key.peer_slot, epoch: key.epoch },
                LanIncidentTransitionKind::Closed,
                now,
            ),
            !spec_has_peer(old(self).peers@, key.peer_slot) ==> final(self).peers@ == old(self).peers@,
            spec_has_peer(old(self).peers@, key.peer_slot) ==> {
                &&& spec_peer_map(final(self).peers@).contains_key(key.peer_slot)
                &&& spec_peer_map(final(self).peers@).remove(key.peer_slot) == spec_peer_map(old(self).peers@).remove(key.peer_slot)
                &&& spec_epoch_closed(
                    spec_peer_map(old(self).peers@)[key.peer_slot],
                    spec_peer_map(final(self).peers@)[key.peer_slot],
                    key.epoch,
                )
            },
    {
        match self.find_peer(key.peer_slot) {
            Err(_) => {},
            Ok(i) => {
                let ghost before = self.peers@;
                proof {
                    lemma_peer_at(before, i as int);
                }
                let mut p = self.peers.remove(i);
                let ghost bp = p;
                if p.active_epoch == Some(key.epoch) {
                    p.active_epoch = None;
                }
                let pos = epoch_position(&p.epochs, key.epoch);
                proof {
                    lemma_epoch_position(bp.epochs@, key.epoch);
                }
                if pos < p.epochs.len() {
                    let mut e = p.epochs.remove(pos);
                    e.active = false;
                    e.send.current_queue_depth = 0;
                    e.receive.current_queue_depth = 0;
                    let ghost ev = e;
                    p.epochs.insert(pos, e);
                    proof {
                        let b = bp.epochs@[pos as int];
                        assert(p.epochs@[pos as int] == ev);
                        assert(ev.epoch == key.epoch);
                        assert(b.send.spec_depth_cleared(ev.send));
                        assert(b.receive.spec_depth_cleared(ev.receive));
                    }
                }
                let ghost closed = p.epochs@;
                proof {
                    assert forall|j: int| 0 <= j < closed.len() && j != pos implies #[trigger] closed[j] == bp.epochs@[j] by {}
                    assert(closed.len() == bp.epochs@.len());
                }
                p.send.current_queue_depth = 0;
                p.receive.current_queue_depth = 0;
                trim_closed_epochs(&mut p.epochs);
                let ghost ap = p;
                self.peers.insert(i, p);
                proof {
                    assert(self.peers@ == before.update(i as int, ap));
                    lemma_peer_map_update(before, i as int, ap);
                    lemma_peer_at(self.peers@, i as int);
                    assert(spec_peer_map(self.peers@).remove(key.peer_slot) =~= spec_peer_map(before).remove(key.peer_slot));
                    assert(bp.send.spec_depth_cleared(ap.send));
                    assert(bp.receive.spec_depth_cleared(ap.receive));
                    assert(ap.epochs@ == spec_trim_epochs(closed));
                    assert(spec_epoch_closed(bp, ap, key.epoch));
                }
            },
        }
        self.log.close_matching(
            IncidentSelector::Epoch { peer_slot: key.peer_slot, epoch: key.epoch },
            LanIncidentTransitionKind::Closed,
            now,
        );
    }

    /// The data plane as reported: every peer in slot order with its epoch
    /// detail, the send and receive totals summed over the peers, and the
    /// number of transitions lost to overflow.
    pub fn snapshot(&self) -> (s: LanDataPlaneSnapshot)
        requires
            self.wf(),
        ensures
            s.peers@.len() == self.peers@.len(),
            forall|i: int| 0 <= i < self.peers@.len() ==> spec_peer_reported(#[trigger] s.peers@[i], self.peers@[i]),
            s.transitions_dropped == self.log.transitions_dropped,
            ({
                let n = self.peers@.len() as int;
                let sends = peer_sides(s.peers@, true);
                let receives = peer_sides(s.peers@, false);
                &&& s.send.queued == crate::lan_data::fold_queued(sends, n)
                &&& s.send.resolved_success == crate::lan_data::fold_success(sends, n)
                &&& s.send.dropped == crate::lan_data::fold_dropped(sends, n)
                &&& s.send.current_queue_depth == crate::lan_data::fold_depth(sends, n)
                &&& s.send.max_queue_depth == crate::lan_data::fold_max_depth(sends, n)
                &&& s.send.rejections@ == lan_rejections(crate::lan_data::fold_lan_tallies(sends, n))
                &&& s.receive.queued == crate::lan_data::fold_queued(receives, n)
                &&& s.receive.resolved_success == crate::lan_data::fold_success(receives, n)
                &&& s.receive.dropped == crate::lan_data::fold_dropped(receives, n)
                &&& s.receive.current_queue_depth == crate::lan_data::fold_depth(receives, n)
                &&& s.receive.max_queue_depth == crate::lan_data::fold_max_depth(receives, n)
                &&& s.receive.rejections@ == lan_rejections(crate::lan_data::fold_lan_tallies(receives, n))
            }),
    {
        let mut peers: Vec<LanPeerDataSnapshot> = Vec::new();
        let mut sends: Vec<LanDirectionSnapshot> = Vec::new();
        let mut receives: Vec<LanDirectionSnapshot> = Vec::new();
        let mut i: usize = 0;
        while i < self.peers.len()
            invariant
                i <= self.peers@.len(),
                peers@.len() == i && sends@.len() == i && receives@.len() == i,
                forall|k: int| 0 <= k < i ==> spec_peer_reported(#[trigger] peers@[k], self.peers@[k]),
                forall|k: int| 0 <= k < i ==> spec_direction_reported(#[trigger] sends@[k], self.peers@[k].send),
                forall|k: int| 0 <= k < i ==> spec_direction_reported(#[trigger] receives@[k], self.peers@[k].receive),
            decreases self.peers@.len() - i,
        {
            peers.push(peer_snapshot(&self.peers[i]));
            sends.push(self.peers[i].send.snapshot());
            receives.push(self.peers[i].receive.snapshot());
            i = i + 1;
        }
        let send = fold_directions(&sends);
        let receive = fold_directions(&receives);
        proof {
            let n = self.peers@.len() as int;
            let ps = peer_sides(peers@, true);
            let pr = peer_sides(peers@, false);
            assert forall|k: int| 0 <= k < n implies same_lan_direction(#[trigger] sends@[k], ps[k]) by {
                assert(spec_peer_reported(peers@[k], self.peers@[k]));
            }
            assert forall|k: int| 0 <= k < n implies same_lan_direction(#[trigger] receives@[k], pr[k]) by {
                assert(spec_peer_reported(peers@[k], self.peers@[k]));
            }
            lemma_folds_agree(sends@, ps, n);
            lemma_folds_agree(receives@, pr, n);
        }
        LanDataPlaneSnapshot { send, receive, peers, transitions_dropped: self.log.transitions_dropped }
    }
}

} // verus!
