//! Data-plane snapshots reported by the LAN path layer: per-direction outcome
//! totals with rejection tallies, per lifecycle epoch and per peer, and their
//! aggregation over peers.

use vstd::prelude::*;
use crate::latency::sat_add;
use crate::tally::{RejectionTally, merge_all, merge_all_into};

verus! {

#[derive(Clone, Copy, Debug, PartialEq, Eq, Structural)]
pub enum LanDataStage {
    OutboundQueue,
    UdpSend,
    InboundQueue,
    HookQueue,
}

#[derive(Clone, Copy, Debug, PartialEq, Eq, Structural)]
pub enum LanDataDropReason {
    QueueFull,
    QueueClosed,
    PeerUnavailable,
    GenerationClosed,
    PayloadTooLarge,
    EncodeFailed,
    SendFailed,
    HookDisconnected,
    SessionClosed,
}

/// Position of a stage in declaration order.
pub open spec fn stage_index(s: LanDataStage) -> u8 {
    match s {
        LanDataStage::OutboundQueue => 0,
        LanDataStage::UdpSend => 1,
        LanDataStage::InboundQueue => 2,
        LanDataStage::HookQueue => 3,
    }
}

/// Position of a drop reason in declaration order.
pub open spec fn reason_index(r: LanDataDropReason) -> u8 {
    match r {
        LanDataDropReason::QueueFull => 0,
        LanDataDropReason::QueueClosed => 1,
        LanDataDropReason::PeerUnavailable => 2,
        LanDataDropReason::GenerationClosed => 3,
        LanDataDropReason::PayloadTooLarge => 4,
        LanDataDropReason::EncodeFailed => 5,
        LanDataDropReason::SendFailed => 6,
        LanDataDropReason::HookDisconnected => 7,
        LanDataDropReason::SessionClosed => 8,
    }
}

pub open spec fn stage_at(i: u8) -> LanDataStage {
    if i == 0 { LanDataStage::OutboundQueue }
    else if i == 1 { LanDataStage::UdpSend }
    else if i == 2 { LanDataStage::InboundQueue }
    else { LanDataStage::HookQueue }
}

pub open spec fn reason_at(i: u8) -> LanDataDropReason {
    if i == 0 { LanDataDropReason::QueueFull }
    else if i == 1 { LanDataDropReason::QueueClosed }
    else if i == 2 { LanDataDropReason::PeerUnavailable }
    else if i == 3 { LanDataDropReason::GenerationClosed }
    else if i == 4 { LanDataDropReason::PayloadTooLarge }
    else if i == 5 { LanDataDropReason::EncodeFailed }
    else if i == 6 { LanDataDropReason::SendFailed }
    else if i == 7 { LanDataDropReason::HookDisconnected }
    else { LanDataDropReason::SessionClosed }
}

impl LanDataStage {
    pub fn index(self) -> (i: u8)
        ensures
            i == stage_index(self),
            stage_at(i) == self,
    {
        match self {
            LanDataStage::OutboundQueue => 0,
            LanDataStage::UdpSend => 1,
            LanDataStage::InboundQueue => 2,
            LanDataStage::HookQueue => 3,
        }
    }

    pub fn at(i: u8) -> (s: LanDataStage)
        ensures
            s == stage_at(i),
    {
        if i == 0 { LanDataStage::OutboundQueue }
        else if i == 1 { LanDataStage::UdpSend }
        else if i == 2 { LanDataStage::InboundQueue }
        else { LanDataStage::HookQueue }
    }
}

impl LanDataDropReason {
    pub fn index(self) -> (i: u8)
        ensures
            i == reason_index(self),
            reason_at(i) == self,
    {
        match self {
            LanDataDropReason::QueueFull => 0,
            LanDataDropReason::QueueClosed => 1,
            LanDataDropReason::PeerUnavailable => 2,
            LanDataDropReason::GenerationClosed => 3,
            LanDataDropReason::PayloadTooLarge => 4,
            LanDataDropReason::EncodeFailed => 5,
            LanDataDropReason::SendFailed => 6,
            LanDataDropReason::HookDisconnected => 7,
            LanDataDropReason::SessionClosed => 8,
        }
    }

    pub fn at(i: u8) -> (r: LanDataDropReason)
        ensures
            r == reason_at(i),
    {
        if i == 0 { LanDataDropReason::QueueFull }
        else if i == 1 { LanDataDropReason::QueueClosed }
        else if i == 2 { LanDataDropReason::PeerUnavailable }
        else if i == 3 { LanDataDropReason::GenerationClosed }
        else if i == 4 { LanDataDropReason::PayloadTooLarge }
        else if i == 5 { LanDataDropReason::EncodeFailed }
        else if i == 6 { LanDataDropReason::SendFailed }
        else if i == 7 { LanDataDropReason::HookDisconnected }
        else { LanDataDropReason::SessionClosed }
    }
}

#[derive(Clone, Copy, Debug, PartialEq, Eq, Structural)]
pub struct LanRejectionSnapshot {
    pub stage: LanDataStage,
    pub reason: LanDataDropReason,
    pub count: u64,
}

#[derive(Clone, Debug, PartialEq, Eq)]
pub struct LanDirectionSnapshot {
    pub queued: u64,
    pub resolved_success: u64,
    pub dropped: u64,
    pub current_queue_depth: usize,
    pub max_queue_depth: usize,
    pub rejections: Vec<LanRejectionSnapshot>,
}

#[derive(Clone, Debug, PartialEq, Eq)]
pub struct LanEpochDataSnapshot {
    pub lifecycle_epoch: u64,
    pub active: bool,
    pub send: LanDirectionSnapshot,
    pub receive: LanDirectionSnapshot,
}

#[derive(Clone, Debug, PartialEq, Eq)]
pub struct LanPeerDataSnapshot {
    pub peer_slot: u32,
    pub peer_steam_id64: u64,
    pub latest_lifecycle_epoch: u64,
    pub active: bool,
    pub send: LanDirectionSnapshot,
    pub receive: LanDirectionSnapshot,
    pub epochs: Vec<LanEpochDataSnapshot>,
}

#[derive(Clone, Debug, PartialEq, Eq)]
pub struct LanDataPlaneSnapshot {
    pub send: LanDirectionSnapshot,
    pub receive: LanDirectionSnapshot,
    pub peers: Vec<LanPeerDataSnapshot>,
    pub transitions_dropped: u64,
}

impl LanDirectionSnapshot {
    pub fn empty() -> (d: LanDirectionSnapshot)
        ensures
            d.queued == 0 && d.resolved_success == 0 && d.dropped == 0,
            d.current_queue_depth == 0 && d.max_queue_depth == 0,
            d.rejections@.len() == 0,
    {
        LanDirectionSnapshot {
            queued: 0,
            resolved_success: 0,
            dropped: 0,
            current_queue_depth: 0,
            max_queue_depth: 0,
            rejections: Vec::new(),
        }
    }
}

impl Default for LanDirectionSnapshot {
    fn default() -> (d: LanDirectionSnapshot)
        ensures
            d.queued == 0 && d.resolved_success == 0 && d.dropped == 0,
            d.current_queue_depth == 0 && d.max_queue_depth == 0,
            d.rejections@.len() == 0,
    {
        LanDirectionSnapshot::empty()
    }
}

impl Default for LanDataPlaneSnapshot {
    fn default() -> (s: LanDataPlaneSnapshot)
        ensures
            s.peers@.len() == 0,
            s.transitions_dropped == 0,
    {
        LanDataPlaneSnapshot {
            send: LanDirectionSnapshot::empty(),
            receive: LanDirectionSnapshot::empty(),
            peers: Vec::new(),
            transitions_dropped: 0,
        }
    }
}

/// `a + b`, capped at `usize::MAX`.
pub open spec fn sat_add_usize(a: usize, b: usize) -> usize {
    if a + b > usize::MAX { usize::MAX } else { (a + b) as usize }
}

/// The tallies of a rejection list, in order.
pub open spec fn lan_tallies(rs: Seq<LanRejectionSnapshot>) -> Seq<RejectionTally> {
    rs.map_values(|r: LanRejectionSnapshot| RejectionTally {
        stage: stage_index(r.stage),
        reason: reason_index(r.reason),
        count: r.count,
    })
}

/// The rejection list of a tally list.
pub open spec fn lan_rejections(ts: Seq<RejectionTally>) -> Seq<LanRejectionSnapshot> {
    ts.map_values(|t: RejectionTally| LanRejectionSnapshot {
        stage: stage_at(t.stage),
        reason: reason_at(t.reason),
        count: t.count,
    })
}

/// Rejections of the first `n` directions merged into one ordered tally list.
pub open spec fn fold_lan_tallies(ds: Seq<LanDirectionSnapshot>, n: int) -> Seq<RejectionTally>
    decreases n,
{
    if n <= 0 {
        Seq::empty()
    } else {
        merge_all(fold_lan_tallies(ds, n - 1), lan_tallies(ds[n - 1].rejections@))
    }
}

/// Capped sums over the first `n` directions.
pub open spec fn fold_queued(ds: Seq<LanDirectionSnapshot>, n: int) -> u64
    decreases n,
{
    if n <= 0 { 0 } else { sat_add(fold_queued(ds, n - 1), ds[n - 1].queued) }
}

pub open spec fn fold_success(ds: Seq<LanDirectionSnapshot>, n: int) -> u64
    decreases n,
{
    if n <= 0 { 0 } else { sat_add(fold_success(ds, n - 1), ds[n - 1].resolved_success) }
}

pub open spec fn fold_dropped(ds: Seq<LanDirectionSnapshot>, n: int) -> u64
    decreases n,
{
    if n <= 0 { 0 } else { sat_add(fold_dropped(ds, n - 1), ds[n - 1].dropped) }
}

pub open spec fn fold_depth(ds: Seq<LanDirectionSnapshot>, n: int) -> usize
    decreases n,
{
    if n <= 0 { 0 } else { sat_add_usize(fold_depth(ds, n - 1), ds[n - 1].current_queue_depth) }
}

pub open spec fn fold_max_depth(ds: Seq<LanDirectionSnapshot>, n: int) -> usize
    decreases n,
{
    if n <= 0 { 0 } else { sat_add_usize(fold_max_depth(ds, n - 1), ds[n - 1].max_queue_depth) }
}

/// The tallies of one direction's rejections.
pub fn tallies_of(rs: &Vec<LanRejectionSnapshot>) -> (ts: Vec<RejectionTally>)
    ensures
        ts@ == lan_tallies(rs@),
{
    let mut ts: Vec<RejectionTally> = Vec::new();
    let mut i: usize = 0;
    while i < rs.len()
        invariant
            i <= rs@.len(),
            ts@ == lan_tallies(rs@.take(i as int)),
        decreases rs@.len() - i,
    {
        let r = rs[i];
        ts.push(RejectionTally { stage: r.stage.index(), reason: r.reason.index(), count: r.count });
        assert(lan_tallies(rs@.take(i + 1)) =~= lan_tallies(rs@.take(i as int)).push(
            RejectionTally { stage: stage_index(r.stage), reason: reason_index(r.reason), count: r.count },
        ));
        i = i + 1;
    }
    assert(rs@.take(rs@.len() as int) == rs@);
    ts
}

/// The rejection list of a tally list.
pub fn rejections_of(ts: &Vec<RejectionTally>) -> (rs: Vec<LanRejectionSnapshot>)
    ensures
        rs@ == lan_rejections(ts@),
{
    let mut rs: Vec<LanRejectionSnapshot> = Vec::new();
    let mut i: usize = 0;
    while i < ts.len()
        invariant
            i <= ts@.len(),
            rs@ == lan_rejections(ts@.take(i as int)),
        decreases ts@.len() - i,
    {
        let t = ts[i];
        rs.push(LanRejectionSnapshot {
            stage: LanDataStage::at(t.stage),
            reason: LanDataDropReason::at(t.reason),
            count: t.count,
        });
        assert(lan_rejections(ts@.take(i + 1)) =~= lan_rejections(ts@.take(i as int)).push(
            LanRejectionSnapshot { stage: stage_at(t.stage), reason: reason_at(t.reason), count: t.count },
        ));
        i = i + 1;
    }
    assert(ts@.take(ts@.len() as int) == ts@);
    rs
}

/// The totals of several directions: counters and depths summed (capped),
/// rejections merged per (stage, reason) and listed in that order.
pub fn fold_directions(ds: &Vec<LanDirectionSnapshot>) -> (d: LanDirectionSnapshot)
    ensures
        d.queued == fold_queued(ds@, ds@.len() as int),
        d.resolved_success == fold_success(ds@, ds@.len() as int),
        d.dropped == fold_dropped(ds@, ds@.len() as int),
        d.current_queue_depth == fold_depth(ds@, ds@.len() as int),
        d.max_queue_depth == fold_max_depth(ds@, ds@.len() as int),
        d.rejections@ == lan_rejections(fold_lan_tallies(ds@, ds@.len() as int)),
{
    let mut queued: u64 = 0;
    let mut success: u64 = 0;
    let mut dropped: u64 = 0;
    let mut depth: usize = 0;
    let mut max_depth: usize = 0;
    let mut tallies: Vec<RejectionTally> = Vec::new();
    let mut i: usize = 0;
    while i < ds.len()
        invariant
            i <= ds@.len(),
            queued == fold_queued(ds@, i as int),
            success == fold_success(ds@, i as int),
            dropped == fold_dropped(ds@, i as int),
            depth == fold_depth(ds@, i as int),
            max_depth == fold_max_depth(ds@, i as int),
            tallies@ == fold_lan_tallies(ds@, i as int),
        decreases ds@.len() - i,
    {
        let d = &ds[i];
        queued = queued.saturating_add(d.queued);
        success = success.saturating_add(d.resolved_success);
        dropped = dropped.saturating_add(d.dropped);
        depth = depth.saturating_add(d.current_queue_depth);
        max_depth = max_depth.saturating_add(d.max_queue_depth);
        let ts = tallies_of(&d.rejections);
        merge_all_into(&mut tallies, &ts);
        i = i + 1;
    }
    LanDirectionSnapshot {
        queued,
        resolved_success: success,
        dropped,
        current_queue_depth: depth,
        max_queue_depth: max_depth,
        rejections: rejections_of(&tallies),
    }
}


/// Distinct stages have distinct positions.
pub proof fn lemma_stage_index_injective(a: LanDataStage, b: LanDataStage)
    ensures
        (stage_index(a) == stage_index(b)) == (a == b),
{
    assert(stage_at(stage_index(a)) == a);
    assert(stage_at(stage_index(b)) == b);
}

/// Distinct reasons have distinct positions.
pub proof fn lemma_reason_index_injective(a: LanDataDropReason, b: LanDataDropReason)
    ensures
        (reason_index(a) == reason_index(b)) == (a == b),
{
    assert(reason_at(reason_index(a)) == a);
    assert(reason_at(reason_index(b)) == b);
}

} // verus!
