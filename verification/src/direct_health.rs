//! Health of the direct (LAN) data plane as the session reports it: outcome
//! totals and rejection tallies per direction, per peer and per lifecycle
//! epoch, their aggregation over peers, and loss percentages.

use vstd::prelude::*;
use crate::latency::sat_add;
use crate::lan_data::{
    LanDataDropReason, LanDataPlaneSnapshot, LanDataStage, LanDirectionSnapshot,
    LanEpochDataSnapshot, LanPeerDataSnapshot, LanRejectionSnapshot, reason_at,
    reason_index, sat_add_usize, stage_at, stage_index,
};
use crate::tally::{RejectionTally, merge_all, merge_all_into};

verus! {

#[derive(Clone, Copy, Debug, PartialEq, Eq, Structural)]
pub enum DirectFlowDirection {
    Send,
    Receive,
}

#[derive(Clone, Copy, Debug, PartialEq, Eq, Structural)]
pub enum DirectFlowStage {
    OutboundQueue,
    UdpSend,
    InboundQueue,
    HookQueue,
}

#[derive(Clone, Copy, Debug, PartialEq, Eq, Structural)]
pub enum DirectDropReason {
    QueueFull,
    QueueClosed,
    PeerUnavailable,
    GenerationClosed,
    PayloadTooLarge,
    EncodeFailed,
    SendFailed,
    HookDisconnected,
    SessionClosed,
}

/// The direct-flow stage that a data-plane stage reports as.
pub open spec fn spec_direct_stage(s: LanDataStage) -> DirectFlowStage {
    match s {
        LanDataStage::OutboundQueue => DirectFlowStage::OutboundQueue,
        LanDataStage::UdpSend => DirectFlowStage::UdpSend,
        LanDataStage::InboundQueue => DirectFlowStage::InboundQueue,
        LanDataStage::HookQueue => DirectFlowStage::HookQueue,
    }
}

/// The direct-flow drop reason that a data-plane drop reason reports as.
pub open spec fn spec_direct_reason(r: LanDataDropReason) -> DirectDropReason {
    match r {
        LanDataDropReason::QueueFull => DirectDropReason::QueueFull,
        LanDataDropReason::QueueClosed => DirectDropReason::QueueClosed,
        LanDataDropReason::PeerUnavailable => DirectDropReason::PeerUnavailable,
        LanDataDropReason::GenerationClosed => DirectDropReason::GenerationClosed,
        LanDataDropReason::PayloadTooLarge => DirectDropReason::PayloadTooLarge,
        LanDataDropReason::EncodeFailed => DirectDropReason::EncodeFailed,
        LanDataDropReason::SendFailed => DirectDropReason::SendFailed,
        LanDataDropReason::HookDisconnected => DirectDropReason::HookDisconnected,
        LanDataDropReason::SessionClosed => DirectDropReason::SessionClosed,
    }
}

/// The data-plane stage behind a direct-flow stage.
pub open spec fn spec_lan_stage(s: DirectFlowStage) -> LanDataStage {
    match s {
        DirectFlowStage::OutboundQueue => LanDataStage::OutboundQueue,
        DirectFlowStage::UdpSend => LanDataStage::UdpSend,
        DirectFlowStage::InboundQueue => LanDataStage::InboundQueue,
        DirectFlowStage::HookQueue => LanDataStage::HookQueue,
    }
}

/// The data-plane drop reason behind a direct-flow drop reason.
pub open spec fn spec_lan_reason(r: DirectDropReason) -> LanDataDropReason {
    match r {
        DirectDropReason::QueueFull => LanDataDropReason::QueueFull,
        DirectDropReason::QueueClosed => LanDataDropReason::QueueClosed,
        DirectDropReason::PeerUnavailable => LanDataDropReason::PeerUnavailable,
        DirectDropReason::GenerationClosed => LanDataDropReason::GenerationClosed,
        DirectDropReason::PayloadTooLarge => LanDataDropReason::PayloadTooLarge,
        DirectDropReason::EncodeFailed => LanDataDropReason::EncodeFailed,
        DirectDropReason::SendFailed => LanDataDropReason::SendFailed,
        DirectDropReason::HookDisconnected => LanDataDropReason::HookDisconnected,
        DirectDropReason::SessionClosed => LanDataDropReason::SessionClosed,
    }
}

impl DirectFlowStage {
    pub fn from_lan(s: LanDataStage) -> (d: DirectFlowStage)
        ensures
            d == spec_direct_stage(s),
            spec_lan_stage(d) == s,
    {
        match s {
            LanDataStage::OutboundQueue => DirectFlowStage::OutboundQueue,
            LanDataStage::UdpSend => DirectFlowStage::UdpSend,
            LanDataStage::InboundQueue => DirectFlowStage::InboundQueue,
            LanDataStage::HookQueue => DirectFlowStage::HookQueue,
        }
    }

    pub fn to_lan(self) -> (s: LanDataStage)
        ensures
            s == spec_lan_stage(self),
            spec_direct_stage(s) == self,
    {
        match self {
            DirectFlowStage::OutboundQueue => LanDataStage::OutboundQueue,
            DirectFlowStage::UdpSend => LanDataStage::UdpSend,
            DirectFlowStage::InboundQueue => LanDataStage::InboundQueue,
            DirectFlowStage::HookQueue => LanDataStage::HookQueue,
        }
    }
}

impl DirectDropReason {
    pub fn from_lan(r: LanDataDropReason) -> (d: DirectDropReason)
        ensures
            d == spec_direct_reason(r),
            spec_lan_reason(d) == r,
    {
        match r {
            LanDataDropReason::QueueFull => DirectDropReason::QueueFull,
            LanDataDropReason::QueueClosed => DirectDropReason::QueueClosed,
            LanDataDropReason::PeerUnavailable => DirectDropReason::PeerUnavailable,
            LanDataDropReason::GenerationClosed => DirectDropReason::GenerationClosed,
            LanDataDropReason::PayloadTooLarge => DirectDropReason::PayloadTooLarge,
            LanDataDropReason::EncodeFailed => DirectDropReason::EncodeFailed,
            LanDataDropReason::SendFailed => DirectDropReason::SendFailed,
            LanDataDropReason::HookDisconnected => DirectDropReason::HookDisconnected,
            LanDataDropReason::SessionClosed => DirectDropReason::SessionClosed,
        }
    }

    pub fn to_lan(self) -> (r: LanDataDropReason)
        ensures
            r == spec_lan_reason(self),
            spec_direct_reason(r) == self,
    {
        match self {
            DirectDropReason::QueueFull => LanDataDropReason::QueueFull,
            DirectDropReason::QueueClosed => LanDataDropReason::QueueClosed,
            DirectDropReason::PeerUnavailable => LanDataDropReason::PeerUnavailable,
            DirectDropReason::GenerationClosed => LanDataDropReason::GenerationClosed,
            DirectDropReason::PayloadTooLarge => LanDataDropReason::PayloadTooLarge,
            DirectDropReason::EncodeFailed => LanDataDropReason::EncodeFailed,
            DirectDropReason::SendFailed => LanDataDropReason::SendFailed,
            DirectDropReason::HookDisconnected => LanDataDropReason::HookDisconnected,
            DirectDropReason::SessionClosed => LanDataDropReason::SessionClosed,
        }
    }
}

#[derive(Clone, Copy, Debug, PartialEq, Eq, Structural)]
pub struct DirectRejectionHealthSnapshot {
    pub direction: DirectFlowDirection,
    pub stage: DirectFlowStage,
    pub reason: DirectDropReason,
    pub count: u64,
}

#[derive(Clone, Debug, PartialEq, Eq)]
pub struct DirectDirectionHealthSnapshot {
    pub direction: DirectFlowDirection,
    pub queued: u64,
    pub resolved_success: u64,
    pub dropped: u64,
    pub current_queue_depth: usize,
    pub max_queue_depth: usize,
    pub rejections: Vec<DirectRejectionHealthSnapshot>,
}

/// Loss as a whole percentage of resolved outcomes, rounded half up and
/// capped at 100; nothing when no outcome is resolved.
pub open spec fn spec_loss_percent(resolved_success: u64, dropped: u64) -> Option<u8> {
    let resolved = resolved_success + dropped;
    if resolved == 0 {
        None
    } else {
        let rounded = (dropped * 100 + resolved / 2) / resolved;
        Some(if rounded > 100 { 100u8 } else { rounded as u8 })
    }
}

/// Rounded loss percentage of `dropped` among `resolved_success + dropped`.
pub fn rounded_loss_percent(resolved_success: u64, dropped: u64) -> (r: Option<u8>)
    ensures
        r == spec_loss_percent(resolved_success, dropped),
{
    let resolved: u128 = resolved_success as u128 + dropped as u128;
    if resolved == 0 {
        return None;
    }
    assert(dropped as u128 * 100 <= 0xffff_ffff_ffff_ffffu128 * 100) by (nonlinear_arith)
        requires dropped <= 0xffff_ffff_ffff_ffffu64;
    let rounded = (dropped as u128 * 100 + resolved / 2) / resolved;
    Some(if rounded > 100 { 100 } else { rounded as u8 })
}

impl DirectDirectionHealthSnapshot {
    /// An empty direction.
    pub fn empty(direction: DirectFlowDirection) -> (d: DirectDirectionHealthSnapshot)
        ensures
            d.direction == direction,
            d.queued == 0 && d.resolved_success == 0 && d.dropped == 0,
            d.current_queue_depth == 0 && d.max_queue_depth == 0,
            d.rejections@.len() == 0,
    {
        DirectDirectionHealthSnapshot {
            direction,
            queued: 0,
            resolved_success: 0,
            dropped: 0,
            current_queue_depth: 0,
            max_queue_depth: 0,
            rejections: Vec::new(),
        }
    }

    /// Outcomes that reached a terminal state: successes plus drops.
    pub fn resolved_outcomes(&self) -> (n: u128)
        ensures
            n == self.resolved_success + self.dropped,
    {
        self.resolved_success as u128 + self.dropped as u128
    }

    /// Rounded loss percentage of the resolved outcomes.
    pub fn loss_percent(&self) -> (r: Option<u8>)
        ensures
            r == spec_loss_percent(self.resolved_success, self.dropped),
    {
        rounded_loss_percent(self.resolved_success, self.dropped)
    }
}

/// The rejection a data-plane rejection reports as, in `direction`.
pub open spec fn spec_rejection_from_lan(
    direction: DirectFlowDirection,
    r: LanRejectionSnapshot,
) -> DirectRejectionHealthSnapshot {
    DirectRejectionHealthSnapshot {
        direction,
        stage: spec_direct_stage(r.stage),
        reason: spec_direct_reason(r.reason),
        count: r.count,
    }
}

/// Whether `d` reports the data-plane direction `lan` as `direction`.
pub open spec fn spec_direction_from_lan(
    d: DirectDirectionHealthSnapshot,
    direction: DirectFlowDirection,
    lan: LanDirectionSnapshot,
) -> bool {
    &&& d.direction == direction
    &&& d.queued == lan.queued
    &&& d.resolved_success == lan.resolved_success
    &&& d.dropped == lan.dropped
    &&& d.current_queue_depth == lan.current_queue_depth
    &&& d.max_queue_depth == lan.max_queue_depth
    &&& d.rejections@ == lan.rejections@.map_values(
        |r: LanRejectionSnapshot| spec_rejection_from_lan(direction, r),
    )
}

/// A data-plane direction as a direct-flow direction.
pub fn direction_from_lan(direction: DirectFlowDirection, lan: &LanDirectionSnapshot) -> (d:
    DirectDirectionHealthSnapshot)
    ensures
        spec_direction_from_lan(d, direction, *lan),
{
    let mut rejections: Vec<DirectRejectionHealthSnapshot> = Vec::new();
    let mut i: usize = 0;
    while i < lan.rejections.len()
        invariant
            i <= lan.rejections@.len(),
            rejections@ == lan.rejections@.take(i as int).map_values(
                |r: LanRejectionSnapshot| spec_rejection_from_lan(direction, r),
            ),
        decreases lan.rejections@.len() - i,
    {
        let r = lan.rejections[i];
        rejections.push(DirectRejectionHealthSnapshot {
            direction,
            stage: DirectFlowStage::from_lan(r.stage),
            reason: DirectDropReason::from_lan(r.reason),
            count: r.count,
        });
        assert(lan.rejections@.take(i + 1) == lan.rejections@.take(i as int).push(r));
        i = i + 1;
    }
    assert(lan.rejections@.take(lan.rejections@.len() as int) == lan.rejections@);
    DirectDirectionHealthSnapshot {
        direction,
        queued: lan.queued,
        resolved_success: lan.resolved_success,
        dropped: lan.dropped,
        current_queue_depth: lan.current_queue_depth,
        max_queue_depth: lan.max_queue_depth,
        rejections,
    }
}

/// The tallies of a direct-flow rejection list, in order.
pub open spec fn direct_tallies(rs: Seq<DirectRejectionHealthSnapshot>) -> Seq<RejectionTally> {
    rs.map_values(|r: DirectRejectionHealthSnapshot| RejectionTally {
        stage: stage_index(spec_lan_stage(r.stage)),
        reason: reason_index(spec_lan_reason(r.reason)),
        count: r.count,
    })
}

/// The direct-flow rejections, in `direction`, of a tally list.
pub open spec fn direct_rejections(direction: DirectFlowDirection, ts: Seq<RejectionTally>) -> Seq<
    DirectRejectionHealthSnapshot,
> {
    ts.map_values(|t: RejectionTally| DirectRejectionHealthSnapshot {
        direction,
        stage: spec_direct_stage(stage_at(t.stage)),
        reason: spec_direct_reason(reason_at(t.reason)),
        count: t.count,
    })
}

/// Rejections of the first `n` directions merged into one ordered tally list.
pub open spec fn fold_direct_tallies(ds: Seq<DirectDirectionHealthSnapshot>, n: int) -> Seq<
    RejectionTally,
>
    decreases n,
{
    if n <= 0 {
        Seq::empty()
    } else {
        merge_all(fold_direct_tallies(ds, n - 1), direct_tallies(ds[n - 1].rejections@))
    }
}

pub open spec fn fold_direct_queued(ds: Seq<DirectDirectionHealthSnapshot>, n: int) -> u64
    decreases n,
{
    if n <= 0 { 0 } else { sat_add(fold_direct_queued(ds, n - 1), ds[n - 1].queued) }
}

pub open spec fn fold_direct_success(ds: Seq<DirectDirectionHealthSnapshot>, n: int) -> u64
    decreases n,
{
    if n <= 0 { 0 } else { sat_add(fold_direct_success(ds, n - 1), ds[n - 1].resolved_success) }
}

pub open spec fn fold_direct_dropped(ds: Seq<DirectDirectionHealthSnapshot>, n: int) -> u64
    decreases n,
{
    if n <= 0 { 0 } else { sat_add(fold_direct_dropped(ds, n - 1), ds[n - 1].dropped) }
}

pub open spec fn fold_direct_depth(ds: Seq<DirectDirectionHealthSnapshot>, n: int) -> usize
    decreases n,
{
    if n <= 0 { 0 } else { sat_add_usize(fold_direct_depth(ds, n - 1), ds[n - 1].current_queue_depth) }
}

pub open spec fn fold_direct_max_depth(ds: Seq<DirectDirectionHealthSnapshot>, n: int) -> usize
    decreases n,
{
    if n <= 0 {
        0
    } else {
        sat_add_usize(fold_direct_max_depth(ds, n - 1), ds[n - 1].max_queue_depth)
    }
}

/// Whether `d` is the aggregate of `ds` in `direction`: counters and depths
/// summed (capped), rejections merged per (stage, reason) in that order.
pub open spec fn spec_folded(
    d: DirectDirectionHealthSnapshot,
    direction: DirectFlowDirection,
    ds: Seq<DirectDirectionHealthSnapshot>,
) -> bool {
    &&& d.direction == direction
    &&& d.queued == fold_direct_queued(ds, ds.len() as int)
    &&& d.resolved_success == fold_direct_success(ds, ds.len() as int)
    &&& d.dropped == fold_direct_dropped(ds, ds.len() as int)
    &&& d.current_queue_depth == fold_direct_depth(ds, ds.len() as int)
    &&& d.max_queue_depth == fold_direct_max_depth(ds, ds.len() as int)
    &&& d.rejections@ == direct_rejections(direction, fold_direct_tallies(ds, ds.len() as int))
}

fn direct_tallies_of(rs: &Vec<DirectRejectionHealthSnapshot>) -> (ts: Vec<RejectionTally>)
    ensures
        ts@ == direct_tallies(rs@),
{
    let mut ts: Vec<RejectionTally> = Vec::new();
    let mut i: usize = 0;
    while i < rs.len()
        invariant
            i <= rs@.len(),
            ts@ == direct_tallies(rs@.take(i as int)),
        decreases rs@.len() - i,
    {
        let r = rs[i];
        ts.push(
            RejectionTally { stage: r.stage.to_lan().index(), reason: r.reason.to_lan().index(), count: r.count },
        );
        assert(direct_tallies(rs@.take(i + 1)) =~= direct_tallies(rs@.take(i as int)).push(
            RejectionTally {
                stage: stage_index(spec_lan_stage(r.stage)),
                reason: reason_index(spec_lan_reason(r.reason)),
                count: r.count,
            },
        ));
        i = i + 1;
    }
    assert(rs@.take(rs@.len() as int) == rs@);
    ts
}

fn direct_rejections_of(direction: DirectFlowDirection, ts: &Vec<RejectionTally>) -> (rs: Vec<
    DirectRejectionHealthSnapshot,
>)
    ensures
        rs@ == direct_rejections(direction, ts@),
{
    let mut rs: Vec<DirectRejectionHealthSnapshot> = Vec::new();
    let mut i: usize = 0;
    while i < ts.len()
        invariant
            i <= ts@.len(),
            rs@ == direct_rejections(direction, ts@.take(i as int)),
        decreases ts@.len() - i,
    {
        let t = ts[i];
        let r = DirectRejectionHealthSnapshot {
            direction,
            stage: DirectFlowStage::from_lan(LanDataStage::at(t.stage)),
            reason: DirectDropReason::from_lan(LanDataDropReason::at(t.reason)),
            count: t.count,
        };
        rs.push(r);
        assert(direct_rejections(direction, ts@.take(i + 1)) =~= direct_rejections(
            direction,
            ts@.take(i as int),
        ).push(r));
        i = i + 1;
    }
    assert(ts@.take(ts@.len() as int) == ts@);
    rs
}

/// Running totals while folding directions.
struct FoldAcc {
    queued: u64,
    success: u64,
    dropped: u64,
    depth: usize,
    max_depth: usize,
    tallies: Vec<RejectionTally>,
}

impl FoldAcc {
    spec fn matches(&self, ds: Seq<DirectDirectionHealthSnapshot>, n: int) -> bool {
        &&& self.queued == fold_direct_queued(ds, n)
        &&& self.success == fold_direct_success(ds, n)
        &&& self.dropped == fold_direct_dropped(ds, n)
        &&& self.depth == fold_direct_depth(ds, n)
        &&& self.max_depth == fold_direct_max_depth(ds, n)
        &&& self.tallies@ == fold_direct_tallies(ds, n)
    }

    fn new() -> (acc: FoldAcc)
        ensures
            acc.matches(Seq::empty(), 0),
    {
        FoldAcc { queued: 0, success: 0, dropped: 0, depth: 0, max_depth: 0, tallies: Vec::new() }
    }

    /// Adds the `n`-th direction `d` of `ds`.
    fn add(&mut self, d: &DirectDirectionHealthSnapshot, Ghost(ds): Ghost<Seq<DirectDirectionHealthSnapshot>>, Ghost(n): Ghost<int>)
        requires
            old(self).matches(ds, n),
            0 <= n < ds.len(),
            ds[n] == *d,
        ensures
            final(self).matches(ds, n + 1),
    {
        self.queued = self.queued.saturating_add(d.queued);
        self.success = self.success.saturating_add(d.resolved_success);
        self.dropped = self.dropped.saturating_add(d.dropped);
        self.depth = self.depth.saturating_add(d.current_queue_depth);
        self.max_depth = self.max_depth.saturating_add(d.max_queue_depth);
        let ts = direct_tallies_of(&d.rejections);
        merge_all_into(&mut self.tallies, &ts);
    }

    fn finish(self, direction: DirectFlowDirection, Ghost(ds): Ghost<Seq<DirectDirectionHealthSnapshot>>) -> (d: DirectDirectionHealthSnapshot)
        requires
            self.matches(ds, ds.len() as int),
        ensures
            spec_folded(d, direction, ds),
    {
        DirectDirectionHealthSnapshot {
            direction,
            queued: self.queued,
            resolved_success: self.success,
            dropped: self.dropped,
            current_queue_depth: self.depth,
            max_queue_depth: self.max_depth,
            rejections: direct_rejections_of(direction, &self.tallies),
        }
    }
}

/// The aggregate facts only depend on the first `n` directions.
proof fn lemma_fold_prefix(a: Seq<DirectDirectionHealthSnapshot>, b: Seq<DirectDirectionHealthSnapshot>, n: int)
    requires
        0 <= n <= a.len(),
        0 <= n <= b.len(),
        forall|i: int| 0 <= i < n ==> a[i] == b[i],
    ensures
        fold_direct_queued(a, n) == fold_direct_queued(b, n),
        fold_direct_success(a, n) == fold_direct_success(b, n),
        fold_direct_dropped(a, n) == fold_direct_dropped(b, n),
        fold_direct_depth(a, n) == fold_direct_depth(b, n),
        fold_direct_max_depth(a, n) == fold_direct_max_depth(b, n),
        fold_direct_tallies(a, n) == fold_direct_tallies(b, n),
    decreases n,
{
    if n > 0 {
        lemma_fold_prefix(a, b, n - 1);
    }
}

impl DirectDirectionHealthSnapshot {
    /// The aggregate of several directions, reported as `direction`.
    pub fn fold(direction: DirectFlowDirection, ds: &Vec<DirectDirectionHealthSnapshot>) -> (d:
        DirectDirectionHealthSnapshot)
        ensures
            spec_folded(d, direction, ds@),
    {
        let mut acc = FoldAcc::new();
        let mut i: usize = 0;
        while i < ds.len()
            invariant
                i <= ds@.len(),
                acc.matches(ds@, i as int),
            decreases ds@.len() - i,
        {
            acc.add(&ds[i], Ghost(ds@), Ghost(i as int));
            i = i + 1;
        }
        acc.finish(direction, Ghost(ds@))
    }
}

#[derive(Clone, Copy, Debug, PartialEq, Eq, Structural)]
pub struct DirectOutcomeWindow {
    pub resolved_success: u64,
    pub dropped: u64,
}

impl DirectOutcomeWindow {
    pub fn empty() -> (w: DirectOutcomeWindow)
        ensures
            w.resolved_success == 0 && w.dropped == 0,
    {
        DirectOutcomeWindow { resolved_success: 0, dropped: 0 }
    }

    pub fn resolved_outcomes(self) -> (n: u128)
        ensures
            n == self.resolved_success + self.dropped,
    {
        self.resolved_success as u128 + self.dropped as u128
    }

    pub fn loss_percent(self) -> (r: Option<u8>)
        ensures
            r == spec_loss_percent(self.resolved_success, self.dropped),
    {
        rounded_loss_percent(self.resolved_success, self.dropped)
    }
}

impl Default for DirectOutcomeWindow {
    fn default() -> (w: DirectOutcomeWindow)
        ensures
            w.resolved_success == 0 && w.dropped == 0,
    {
        DirectOutcomeWindow::empty()
    }
}

#[derive(Clone, Copy, Debug, PartialEq, Eq, Structural)]
pub struct DirectFlowWindow {
    pub send: DirectOutcomeWindow,
    pub receive: DirectOutcomeWindow,
}

impl Default for DirectFlowWindow {
    fn default() -> (w: DirectFlowWindow)
        ensures
            w.send.resolved_success == 0 && w.send.dropped == 0,
            w.receive.resolved_success == 0 && w.receive.dropped == 0,
    {
        DirectFlowWindow { send: DirectOutcomeWindow::empty(), receive: DirectOutcomeWindow::empty() }
    }
}


#[derive(Clone, Debug, PartialEq, Eq)]
pub struct DirectEpochHealthSnapshot {
    pub lifecycle_epoch: u64,
    pub active: bool,
    pub send: DirectDirectionHealthSnapshot,
    pub receive: DirectDirectionHealthSnapshot,
}

#[derive(Clone, Debug, PartialEq, Eq)]
pub struct DirectPeerHealthSnapshot {
    pub peer_slot: u32,
    pub peer_steam_id64: u64,
    pub latest_lifecycle_epoch: u64,
    pub active: bool,
    pub send: DirectDirectionHealthSnapshot,
    pub receive: DirectDirectionHealthSnapshot,
    pub epochs: Vec<DirectEpochHealthSnapshot>,
}

#[derive(Clone, Debug, PartialEq, Eq)]
pub struct DirectFlowHealthSnapshot {
    pub enabled: bool,
    pub send: DirectDirectionHealthSnapshot,
    pub receive: DirectDirectionHealthSnapshot,
    pub peers: Vec<DirectPeerHealthSnapshot>,
    pub transitions_dropped: u64,
}

/// `sorted` with `x` placed after every entry whose epoch is not greater.
pub open spec fn insert_by_epoch(sorted: Seq<LanEpochDataSnapshot>, x: LanEpochDataSnapshot) -> Seq<
    LanEpochDataSnapshot,
>
    decreases sorted.len(),
{
    if sorted.len() == 0 {
        seq![x]
    } else if sorted[0].lifecycle_epoch > x.lifecycle_epoch {
        seq![x] + sorted
    } else {
        seq![sorted[0]] + insert_by_epoch(sorted.drop_first(), x)
    }
}

/// Epochs in ascending lifecycle order; equal epochs keep their order.
pub open spec fn sort_epochs(s: Seq<LanEpochDataSnapshot>) -> Seq<LanEpochDataSnapshot>
    decreases s.len(),
{
    if s.len() == 0 {
        s
    } else {
        insert_by_epoch(sort_epochs(s.drop_last()), s.last())
    }
}

/// `sorted` with `x` placed after every peer whose slot is not greater.
pub open spec fn insert_by_slot(sorted: Seq<LanPeerDataSnapshot>, x: LanPeerDataSnapshot) -> Seq<
    LanPeerDataSnapshot,
>
    decreases sorted.len(),
{
    if sorted.len() == 0 {
        seq![x]
    } else if sorted[0].peer_slot > x.peer_slot {
        seq![x] + sorted
    } else {
        seq![sorted[0]] + insert_by_slot(sorted.drop_first(), x)
    }
}

/// Peers in ascending slot order; equal slots keep their order.
pub open spec fn sort_peers(s: Seq<LanPeerDataSnapshot>) -> Seq<LanPeerDataSnapshot>
    decreases s.len(),
{
    if s.len() == 0 {
        s
    } else {
        insert_by_slot(sort_peers(s.drop_last()), s.last())
    }
}

proof fn lemma_insert_by_epoch_at(sorted: Seq<LanEpochDataSnapshot>, x: LanEpochDataSnapshot, pos: int)
    requires
        0 <= pos <= sorted.len(),
        forall|j: int| 0 <= j < pos ==> (#[trigger] sorted[j]).lifecycle_epoch <= x.lifecycle_epoch,
        pos < sorted.len() ==> sorted[pos].lifecycle_epoch > x.lifecycle_epoch,
    ensures
        insert_by_epoch(sorted, x) == sorted.insert(pos, x),
    decreases pos,
{
    if pos == 0 {
        if sorted.len() == 0 {
            assert(sorted.insert(0, x) =~= seq![x]);
        } else {
            assert(sorted.insert(0, x) =~= seq![x] + sorted);
        }
    } else {
        let rest = sorted.drop_first();
        assert forall|j: int| 0 <= j < pos - 1 implies (#[trigger] rest[j]).lifecycle_epoch <= x.lifecycle_epoch by {
            assert(rest[j] == sorted[j + 1]);
        }
        lemma_insert_by_epoch_at(rest, x, pos - 1);
        assert(sorted.insert(pos, x) =~= seq![sorted[0]] + rest.insert(pos - 1, x));
    }
}

proof fn lemma_insert_by_slot_at(sorted: Seq<LanPeerDataSnapshot>, x: LanPeerDataSnapshot, pos: int)
    requires
        0 <= pos <= sorted.len(),
        forall|j: int| 0 <= j < pos ==> (#[trigger] sorted[j]).peer_slot <= x.peer_slot,
        pos < sorted.len() ==> sorted[pos].peer_slot > x.peer_slot,
    ensures
        insert_by_slot(sorted, x) == sorted.insert(pos, x),
    decreases pos,
{
    if pos == 0 {
        if sorted.len() == 0 {
            assert(sorted.insert(0, x) =~= seq![x]);
        } else {
            assert(sorted.insert(0, x) =~= seq![x] + sorted);
        }
    } else {
        let rest = sorted.drop_first();
        assert forall|j: int| 0 <= j < pos - 1 implies (#[trigger] rest[j]).peer_slot <= x.peer_slot by {
            assert(rest[j] == sorted[j + 1]);
        }
        lemma_insert_by_slot_at(rest, x, pos - 1);
        assert(sorted.insert(pos, x) =~= seq![sorted[0]] + rest.insert(pos - 1, x));
    }
}

/// Whether `e` reports the data-plane epoch `lan`.
pub open spec fn spec_epoch_from_lan(e: DirectEpochHealthSnapshot, lan: LanEpochDataSnapshot) -> bool {
    &&& e.lifecycle_epoch == lan.lifecycle_epoch
    &&& e.active == lan.active
    &&& spec_direction_from_lan(e.send, DirectFlowDirection::Send, lan.send)
    &&& spec_direction_from_lan(e.receive, DirectFlowDirection::Receive, lan.receive)
}

/// Whether `p` reports the data-plane peer `lan`, its epochs in ascending order.
pub open spec fn spec_peer_from_lan(p: DirectPeerHealthSnapshot, lan: LanPeerDataSnapshot) -> bool {
    &&& p.peer_slot == lan.peer_slot
    &&& p.peer_steam_id64 == lan.peer_steam_id64
    &&& p.latest_lifecycle_epoch == lan.latest_lifecycle_epoch
    &&& p.active == lan.active
    &&& spec_direction_from_lan(p.send, DirectFlowDirection::Send, lan.send)
    &&& spec_direction_from_lan(p.receive, DirectFlowDirection::Receive, lan.receive)
    &&& p.epochs@.len() == sort_epochs(lan.epochs@).len()
    &&& forall|i: int| 0 <= i < p.epochs@.len() ==> spec_epoch_from_lan(
        #[trigger] p.epochs@[i],
        sort_epochs(lan.epochs@)[i],
    )
}

/// The sends (or receives) of a list of peers.
pub open spec fn peer_sides(peers: Seq<DirectPeerHealthSnapshot>, send: bool) -> Seq<
    DirectDirectionHealthSnapshot,
> {
    peers.map_values(|p: DirectPeerHealthSnapshot| if send { p.send } else { p.receive })
}

/// Whether `f` reports the data-plane snapshot `lan`: peers in ascending slot
/// order, and totals aggregated from the peers (not from `lan`'s own totals).
pub open spec fn spec_flow_from_lan(f: DirectFlowHealthSnapshot, lan: LanDataPlaneSnapshot) -> bool {
    &&& f.enabled
    &&& f.transitions_dropped == lan.transitions_dropped
    &&& f.peers@.len() == sort_peers(lan.peers@).len()
    &&& forall|i: int| 0 <= i < f.peers@.len() ==> spec_peer_from_lan(
        #[trigger] f.peers@[i],
        sort_peers(lan.peers@)[i],
    )
    &&& spec_folded(f.send, DirectFlowDirection::Send, peer_sides(f.peers@, true))
    &&& spec_folded(f.receive, DirectFlowDirection::Receive, peer_sides(f.peers@, false))
}

impl DirectEpochHealthSnapshot {
    pub fn from_lan(lan: &LanEpochDataSnapshot) -> (e: DirectEpochHealthSnapshot)
        ensures
            spec_epoch_from_lan(e, *lan),
    {
        DirectEpochHealthSnapshot {
            lifecycle_epoch: lan.lifecycle_epoch,
            active: lan.active,
            send: direction_from_lan(DirectFlowDirection::Send, &lan.send),
            receive: direction_from_lan(DirectFlowDirection::Receive, &lan.receive),
        }
    }
}

impl DirectPeerHealthSnapshot {
    pub fn from_lan(lan: &LanPeerDataSnapshot) -> (p: DirectPeerHealthSnapshot)
        ensures
            spec_peer_from_lan(p, *lan),
    {
        let mut epochs: Vec<DirectEpochHealthSnapshot> = Vec::new();
        let ghost mut src: Seq<LanEpochDataSnapshot> = Seq::empty();
        let mut i: usize = 0;
        while i < lan.epochs.len()
            invariant
                i <= lan.epochs@.len(),
                src == sort_epochs(lan.epochs@.take(i as int)),
                epochs@.len() == src.len(),
                forall|j: int| 0 <= j < epochs@.len() ==> spec_epoch_from_lan(#[trigger] epochs@[j], src[j]),
            decreases lan.epochs@.len() - i,
        {
            let x = &lan.epochs[i];
            let mut pos: usize = 0;
            while pos < epochs.len() && epochs[pos].lifecycle_epoch <= x.lifecycle_epoch
                invariant
                    pos <= epochs@.len(),
                    epochs@.len() == src.len(),
                    forall|j: int| 0 <= j < epochs@.len() ==> spec_epoch_from_lan(#[trigger] epochs@[j], src[j]),
                    forall|j: int| 0 <= j < pos ==> (#[trigger] src[j]).lifecycle_epoch <= x.lifecycle_epoch,
                decreases epochs@.len() - pos,
            {
                assert(spec_epoch_from_lan(epochs@[pos as int], src[pos as int]));
                pos = pos + 1;
            }
            proof {
                if pos < epochs@.len() {
                    assert(spec_epoch_from_lan(epochs@[pos as int], src[pos as int]));
                }
                lemma_insert_by_epoch_at(src, *x, pos as int);
                assert(lan.epochs@.take(i + 1).drop_last() == lan.epochs@.take(i as int));
                assert(lan.epochs@.take(i + 1).last() == *x);
            }
            let converted = DirectEpochHealthSnapshot::from_lan(x);
            let ghost old_epochs = epochs@;
            epochs.insert(pos, converted);
            proof {
                let old_src = src;
                src = src.insert(pos as int, *x);
                assert forall|j: int| 0 <= j < epochs@.len() implies spec_epoch_from_lan(#[trigger] epochs@[j], src[j]) by {
                    if j < pos {
                        assert(epochs@[j] == old_epochs[j]);
                        assert(src[j] == old_src[j]);
                    } else if j > pos {
                        assert(epochs@[j] == old_epochs[j - 1]);
                        assert(src[j] == old_src[j - 1]);
                    }
                }
            }
            i = i + 1;
        }
        proof {
            assert(lan.epochs@.take(lan.epochs@.len() as int) == lan.epochs@);
        }
        DirectPeerHealthSnapshot {
            peer_slot: lan.peer_slot,
            peer_steam_id64: lan.peer_steam_id64,
            latest_lifecycle_epoch: lan.latest_lifecycle_epoch,
            active: lan.active,
            send: direction_from_lan(DirectFlowDirection::Send, &lan.send),
            receive: direction_from_lan(DirectFlowDirection::Receive, &lan.receive),
            epochs,
        }
    }
}

/// The aggregate of one side of every peer.
fn fold_peer_side(direction: DirectFlowDirection, peers: &Vec<DirectPeerHealthSnapshot>, send: bool) -> (d: DirectDirectionHealthSnapshot)
    ensures
        spec_folded(d, direction, peer_sides(peers@, send)),
{
    let ghost ds = peer_sides(peers@, send);
    let mut acc = FoldAcc::new();
    let mut i: usize = 0;
    while i < peers.len()
        invariant
            i <= peers@.len(),
            ds == peer_sides(peers@, send),
            acc.matches(ds, i as int),
        decreases peers@.len() - i,
    {
        if send {
            acc.add(&peers[i].send, Ghost(ds), Ghost(i as int));
        } else {
            acc.add(&peers[i].receive, Ghost(ds), Ghost(i as int));
        }
        i = i + 1;
    }
    acc.finish(direction, Ghost(ds))
}

impl DirectFlowHealthSnapshot {
    /// The report of a disabled direct data plane.
    pub fn disabled() -> (f: DirectFlowHealthSnapshot)
        ensures
            !f.enabled,
            f.send.direction == DirectFlowDirection::Send,
            f.send.queued == 0 && f.send.resolved_success == 0 && f.send.dropped == 0,
            f.send.rejections@.len() == 0,
            f.receive.direction == DirectFlowDirection::Receive,
            f.receive.queued == 0 && f.receive.resolved_success == 0 && f.receive.dropped == 0,
            f.receive.rejections@.len() == 0,
            f.peers@.len() == 0,
            f.transitions_dropped == 0,
    {
        DirectFlowHealthSnapshot {
            enabled: false,
            send: DirectDirectionHealthSnapshot::empty(DirectFlowDirection::Send),
            receive: DirectDirectionHealthSnapshot::empty(DirectFlowDirection::Receive),
            peers: Vec::new(),
            transitions_dropped: 0,
        }
    }

    /// Reports a data-plane snapshot: peers sorted by slot, and send and
    /// receive totals aggregated over the peers.
    pub fn from_lan(lan: &LanDataPlaneSnapshot) -> (f: DirectFlowHealthSnapshot)
        ensures
            spec_flow_from_lan(f, *lan),
    {
        let mut peers: Vec<DirectPeerHealthSnapshot> = Vec::new();
        let ghost mut src: Seq<LanPeerDataSnapshot> = Seq::empty();
        let mut i: usize = 0;
        while i < lan.peers.len()
            invariant
                i <= lan.peers@.len(),
                src == sort_peers(lan.peers@.take(i as int)),
                peers@.len() == src.len(),
                forall|j: int| 0 <= j < peers@.len() ==> spec_peer_from_lan(#[trigger] peers@[j], src[j]),
            decreases lan.peers@.len() - i,
        {
            let x = &lan.peers[i];
            let mut pos: usize = 0;
            while pos < peers.len() && peers[pos].peer_slot <= x.peer_slot
                invariant
                    pos <= peers@.len(),
                    peers@.len() == src.len(),
                    forall|j: int| 0 <= j < peers@.len() ==> spec_peer_from_lan(#[trigger] peers@[j], src[j]),
                    forall|j: int| 0 <= j < pos ==> (#[trigger] src[j]).peer_slot <= x.peer_slot,
                decreases peers@.len() - pos,
            {
                assert(spec_peer_from_lan(peers@[pos as int], src[pos as int]));
                pos = pos + 1;
            }
            proof {
                if pos < peers@.len() {
                    assert(spec_peer_from_lan(peers@[pos as int], src[pos as int]));
                }
                lemma_insert_by_slot_at(src, *x, pos as int);
                assert(lan.peers@.take(i + 1).drop_last() == lan.peers@.take(i as int));
                assert(lan.peers@.take(i + 1).last() == *x);
            }
            let converted = DirectPeerHealthSnapshot::from_lan(x);
            let ghost old_peers = peers@;
            peers.insert(pos, converted);
            proof {
                let old_src = src;
                src = src.insert(pos as int, *x);
                assert forall|j: int| 0 <= j < peers@.len() implies spec_peer_from_lan(#[trigger] peers@[j], src[j]) by {
                    if j < pos {
                        assert(peers@[j] == old_peers[j]);
                        assert(src[j] == old_src[j]);
                    } else if j > pos {
                        assert(peers@[j] == old_peers[j - 1]);
                        assert(src[j] == old_src[j - 1]);
                    }
                }
            }
            i = i + 1;
        }
        proof {
            assert(lan.peers@.take(lan.peers@.len() as int) == lan.peers@);
        }
        let send = fold_peer_side(DirectFlowDirection::Send, &peers, true);
        let receive = fold_peer_side(DirectFlowDirection::Receive, &peers, false);
        DirectFlowHealthSnapshot {
            enabled: true,
            send,
            receive,
            peers,
            transitions_dropped: lan.transitions_dropped,
        }
    }
}


/// `a` and `b` report the same direction (same counters and rejections).
pub open spec fn same_direction(a: DirectDirectionHealthSnapshot, b: DirectDirectionHealthSnapshot) -> bool {
    &&& a.direction == b.direction
    &&& a.queued == b.queued
    &&& a.resolved_success == b.resolved_success
    &&& a.dropped == b.dropped
    &&& a.current_queue_depth == b.current_queue_depth
    &&& a.max_queue_depth == b.max_queue_depth
    &&& a.rejections@ == b.rejections@
}

pub open spec fn same_epoch(a: DirectEpochHealthSnapshot, b: DirectEpochHealthSnapshot) -> bool {
    &&& a.lifecycle_epoch == b.lifecycle_epoch
    &&& a.active == b.active
    &&& same_direction(a.send, b.send)
    &&& same_direction(a.receive, b.receive)
}

pub open spec fn same_peer(a: DirectPeerHealthSnapshot, b: DirectPeerHealthSnapshot) -> bool {
    &&& a.peer_slot == b.peer_slot
    &&& a.peer_steam_id64 == b.peer_steam_id64
    &&& a.latest_lifecycle_epoch == b.latest_lifecycle_epoch
    &&& a.active == b.active
    &&& same_direction(a.send, b.send)
    &&& same_direction(a.receive, b.receive)
    &&& a.epochs@.len() == b.epochs@.len()
    &&& forall|i: int| 0 <= i < a.epochs@.len() ==> same_epoch(#[trigger] a.epochs@[i], b.epochs@[i])
}

/// `a` and `b` hold the same report.
pub open spec fn same_flow(a: DirectFlowHealthSnapshot, b: DirectFlowHealthSnapshot) -> bool {
    &&& a.enabled == b.enabled
    &&& a.transitions_dropped == b.transitions_dropped
    &&& same_direction(a.send, b.send)
    &&& same_direction(a.receive, b.receive)
    &&& a.peers@.len() == b.peers@.len()
    &&& forall|i: int| 0 <= i < a.peers@.len() ==> same_peer(#[trigger] a.peers@[i], b.peers@[i])
}

fn copy_rejections(v: &Vec<DirectRejectionHealthSnapshot>) -> (r: Vec<DirectRejectionHealthSnapshot>)
    ensures
        r@ == v@,
{
    let mut r: Vec<DirectRejectionHealthSnapshot> = Vec::new();
    let mut i: usize = 0;
    while i < v.len()
        invariant
            i <= v@.len(),
            r@ == v@.take(i as int),
        decreases v@.len() - i,
    {
        r.push(v[i]);
        assert(v@.take(i + 1) == v@.take(i as int).push(v@[i as int]));
        i = i + 1;
    }
    assert(v@.take(v@.len() as int) == v@);
    r
}

impl DirectDirectionHealthSnapshot {
    /// An independent copy.
    pub fn duplicate(&self) -> (r: DirectDirectionHealthSnapshot)
        ensures
            same_direction(r, *self),
    {
        DirectDirectionHealthSnapshot {
            direction: self.direction,
            queued: self.queued,
            resolved_success: self.resolved_success,
            dropped: self.dropped,
            current_queue_depth: self.current_queue_depth,
            max_queue_depth: self.max_queue_depth,
            rejections: copy_rejections(&self.rejections),
        }
    }
}

impl DirectEpochHealthSnapshot {
    pub fn duplicate(&self) -> (r: DirectEpochHealthSnapshot)
        ensures
            same_epoch(r, *self),
    {
        DirectEpochHealthSnapshot {
            lifecycle_epoch: self.lifecycle_epoch,
            active: self.active,
            send: self.send.duplicate(),
            receive: self.receive.duplicate(),
        }
    }
}

impl DirectPeerHealthSnapshot {
    pub fn duplicate(&self) -> (r: DirectPeerHealthSnapshot)
        ensures
            same_peer(r, *self),
    {
        let mut epochs: Vec<DirectEpochHealthSnapshot> = Vec::new();
        let mut i: usize = 0;
        while i < self.epochs.len()
            invariant
                i <= self.epochs@.len(),
                epochs@.len() == i,
                forall|j: int| 0 <= j < i ==> same_epoch(#[trigger] epochs@[j], self.epochs@[j]),
            decreases self.epochs@.len() - i,
        {
            epochs.push(self.epochs[i].duplicate());
            i = i + 1;
        }
        DirectPeerHealthSnapshot {
            peer_slot: self.peer_slot,
            peer_steam_id64: self.peer_steam_id64,
            latest_lifecycle_epoch: self.latest_lifecycle_epoch,
            active: self.active,
            send: self.send.duplicate(),
            receive: self.receive.duplicate(),
            epochs,
        }
    }
}

impl DirectFlowHealthSnapshot {
    pub fn duplicate(&self) -> (r: DirectFlowHealthSnapshot)
        ensures
            same_flow(r, *self),
    {
        let mut peers: Vec<DirectPeerHealthSnapshot> = Vec::new();
        let mut i: usize = 0;
        while i < self.peers.len()
            invariant
                i <= self.peers@.len(),
                peers@.len() == i,
                forall|j: int| 0 <= j < i ==> same_peer(#[trigger] peers@[j], self.peers@[j]),
            decreases self.peers@.len() - i,
        {
            peers.push(self.peers[i].duplicate());
            i = i + 1;
        }
        DirectFlowHealthSnapshot {
            enabled: self.enabled,
            send: self.send.duplicate(),
            receive: self.receive.duplicate(),
            peers,
            transitions_dropped: self.transitions_dropped,
        }
    }
}

} // verus!
