//! Per-peer delivery tracking over a 128-sequence sliding window: packets are
//! classified as in order, gaps (open until they age out, then confirmed),
//! duplicates or reorders, and each peer remembers retired delivery streams so
//! that they can never become active again.

use vstd::prelude::*;
use crate::join_code::random_16_bytes;
use crate::latency::sat_add;

verus! {

/// Number of sequence numbers tracked behind the highest one seen.
pub const DELIVERY_WINDOW_BITS: usize = 128;
/// Number of retired streams remembered per peer.
pub const RETIRED_STREAM_CAPACITY: usize = 8;

/// Identifies one delivery stream of a sender; a sender rotates streams when
/// its sequence numbers run out.
#[derive(Clone, Copy, Debug, PartialEq, Eq)]
pub struct DeliveryStreamId {
    pub bytes: [u8; 16],
}

impl View for DeliveryStreamId {
    type V = Seq<u8>;

    open spec fn view(&self) -> Seq<u8> {
        self.bytes@
    }
}

impl DeliveryStreamId {
    pub fn from_bytes(bytes: [u8; 16]) -> (id: DeliveryStreamId)
        ensures
            id@ == bytes@,
    {
        DeliveryStreamId { bytes }
    }

    pub fn as_bytes(&self) -> (bytes: [u8; 16])
        ensures
            bytes@ == self@,
    {
        self.bytes
    }

    /// A fresh stream id drawn at random, never all zero: an all-zero draw is
    /// drawn again. After `u32::MAX` all-zero draws in a row (which chance
    /// does not produce) the id with a single one bit in its last byte is
    /// used.
    pub fn random() -> (id: DeliveryStreamId)
        ensures
            exists|i: int| 0 <= i < 16 && #[trigger] id@[i] != 0,
    {
        let mut attempts: u32 = 0;
        while attempts < u32::MAX
            decreases u32::MAX - attempts,
        {
            let bytes = random_16_bytes();
            let mut k: usize = 0;
            while k < 16
                invariant
                    k <= 16,
                    bytes@.len() == 16,
                    forall|j: int| 0 <= j < k ==> bytes@[j] == 0,
                decreases 16 - k,
            {
                if bytes[k] != 0 {
                    let id = DeliveryStreamId { bytes };
                    proof {
                        assert(id@[k as int] != 0);
                    }
                    return id;
                }
                k = k + 1;
            }
            attempts = attempts + 1;
        }
        let mut last = [0u8; 16];
        last.set(15, 1);
        let id = DeliveryStreamId { bytes: last };
        proof {
            assert(id@[15] != 0);
        }
        id
    }

    /// Whether two stream ids hold the same bytes.
    pub fn same_as(&self, other: &DeliveryStreamId) -> (r: bool)
        ensures
            r == (self@ == other@),
    {
        let mut i: usize = 0;
        while i < 16
            invariant
                i <= 16,
                self@.len() == 16,
                other@.len() == 16,
                forall|j: int| 0 <= j < i ==> self@[j] == other@[j],
            decreases 16 - i,
        {
            if self.bytes[i] != other.bytes[i] {
                return false;
            }
            i = i + 1;
        }
        assert(self@ =~= other@);
        true
    }
}

#[derive(Clone, Copy, Debug, PartialEq, Eq, Structural)]
pub enum DeliveryOutcome {
    InOrder,
    OpenGap,
    ConfirmedGap(u64),
    Duplicate,
    Reordered,
    TooOld,
}

/// The number of unseen slots among `bits[lo..hi)`.
pub open spec fn count_unseen(bits: Seq<bool>, lo: int, hi: int) -> nat
    decreases hi - lo,
{
    if hi <= lo {
        0
    } else {
        count_unseen(bits, lo, hi - 1) + if bits[hi - 1] { 0nat } else { 1nat }
    }
}

/// `n` unseen slots.
pub open spec fn unseen(n: nat) -> Seq<bool> {
    Seq::new(n, |i: int| false)
}

/// The slots after moving the highest sequence forward by `advance`: slot 0
/// is the new highest (seen), older slots shift back and fall off at 128.
pub open spec fn spec_shifted(bits: Seq<bool>, advance: u64) -> Seq<bool> {
    if advance >= DELIVERY_WINDOW_BITS {
        seq![true] + unseen((DELIVERY_WINDOW_BITS - 1) as nat)
    } else {
        (seq![true] + unseen((advance - 1) as nat) + bits).take(DELIVERY_WINDOW_BITS as int)
    }
}

/// Gaps that a forward move by `advance` confirms: tracked slots that fall off
/// the window unseen, plus every sequence skipped beyond the window.
pub open spec fn spec_confirmed_by_advance(bits: Seq<bool>, tracked_slots: nat, advance: u64) -> u64 {
    if advance >= DELIVERY_WINDOW_BITS {
        sat_add(
            count_unseen(bits, 0, tracked_slots as int) as u64,
            (advance - DELIVERY_WINDOW_BITS) as u64,
        )
    } else {
        let lo = DELIVERY_WINDOW_BITS - advance;
        count_unseen(bits, lo, if tracked_slots > lo { tracked_slots as int } else { lo }) as u64
    }
}

#[derive(Debug)]
pub struct DeliveryWindow {
    pub stream_id: DeliveryStreamId,
    pub highest: u64,
    /// `seen[age]` tells whether `highest - age` arrived; always 128 slots.
    pub seen: Vec<bool>,
    /// Slots (from age 0) that count towards open gaps.
    pub tracked_len: usize,
}

impl DeliveryWindow {
    pub open spec fn wf(&self) -> bool {
        &&& self.seen@.len() == DELIVERY_WINDOW_BITS
        &&& 1 <= self.tracked_len <= DELIVERY_WINDOW_BITS
    }

    /// Sequences inside the tracked part of the window that have not arrived.
    pub open spec fn spec_open_gaps(&self) -> nat {
        count_unseen(self.seen@, 0, self.tracked_len as int)
    }

    /// A window whose only sequence is `sequence`.
    pub fn new(stream_id: DeliveryStreamId, sequence: u64) -> (w: DeliveryWindow)
        ensures
            w.wf(),
            w.stream_id == stream_id,
            w.highest == sequence,
            w.seen@ == seq![true] + unseen((DELIVERY_WINDOW_BITS - 1) as nat),
            w.tracked_len == 1,
    {
        let mut seen: Vec<bool> = Vec::new();
        seen.push(true);
        while seen.len() < DELIVERY_WINDOW_BITS
            invariant
                1 <= seen@.len() <= DELIVERY_WINDOW_BITS,
                seen@ == seq![true] + unseen((seen@.len() - 1) as nat),
            decreases DELIVERY_WINDOW_BITS - seen@.len(),
        {
            seen.push(false);
            assert(seen@ =~= seq![true] + unseen((seen@.len() - 1) as nat));
        }
        DeliveryWindow { stream_id, highest: sequence, seen, tracked_len: 1 }
    }

    /// The number of unseen slots in `[lo, hi)`.
    fn unseen_between(&self, lo: usize, hi: usize) -> (n: u64)
        requires
            self.wf(),
            lo <= hi <= DELIVERY_WINDOW_BITS,
        ensures
            n == count_unseen(self.seen@, lo as int, hi as int),
    {
        let mut n: u64 = 0;
        let mut i: usize = lo;
        while i < hi
            invariant
                lo <= i <= hi <= DELIVERY_WINDOW_BITS,
                self.seen@.len() == DELIVERY_WINDOW_BITS,
                n == count_unseen(self.seen@, lo as int, i as int),
                n <= i - lo,
            decreases hi - i,
        {
            if !self.seen[i] {
                n = n + 1;
            }
            i = i + 1;
        }
        n
    }

    /// Sequences inside the tracked window that have not arrived.
    pub fn open_gaps(&self) -> (n: u64)
        requires
            self.wf(),
        ensures
            n == self.spec_open_gaps(),
    {
        self.unseen_between(0, self.tracked_len)
    }

    /// The outcome of receiving `sequence`.
    pub open spec fn spec_outcome(&self, sequence: u64) -> DeliveryOutcome {
        if sequence > self.highest {
            let advance = (sequence - self.highest) as u64;
            let confirmed = spec_confirmed_by_advance(self.seen@, self.tracked_len as nat, advance);
            if confirmed != 0 {
                DeliveryOutcome::ConfirmedGap(confirmed)
            } else if advance == 1 {
                DeliveryOutcome::InOrder
            } else {
                DeliveryOutcome::OpenGap
            }
        } else if self.highest - sequence >= DELIVERY_WINDOW_BITS {
            DeliveryOutcome::TooOld
        } else if self.seen@[self.highest - sequence] {
            DeliveryOutcome::Duplicate
        } else {
            DeliveryOutcome::Reordered
        }
    }

    /// Records `sequence` and classifies it.
    pub fn observe(&mut self, sequence: u64) -> (outcome: DeliveryOutcome)
        requires
            old(self).wf(),
        ensures
            final(self).wf(),
            outcome == old(self).spec_outcome(sequence),
            final(self).stream_id == old(self).stream_id,
            sequence > old(self).highest ==> {
                let advance = (sequence - old(self).highest) as u64;
                &&& final(self).highest == sequence
                &&& final(self).seen@ == spec_shifted(old(self).seen@, advance)
                &&& final(self).tracked_len == if advance >= DELIVERY_WINDOW_BITS {
                    DELIVERY_WINDOW_BITS as int
                } else if old(self).tracked_len + advance > DELIVERY_WINDOW_BITS {
                    DELIVERY_WINDOW_BITS as int
                } else {
                    old(self).tracked_len + advance
                }
            },
            sequence <= old(self).highest ==> {
                &&& final(self).highest == old(self).highest
                &&& final(self).tracked_len == old(self).tracked_len
                &&& final(self).seen@ == if outcome == DeliveryOutcome::Reordered {
                    old(self).seen@.update(old(self).highest - sequence, true)
                } else {
                    old(self).seen@
                }
            },
    {
        if sequence > self.highest {
            let advance = sequence - self.highest;
            let confirmed = self.confirmed_by_advance(advance);
            if advance >= DELIVERY_WINDOW_BITS as u64 {
                let fresh = DeliveryWindow::new(self.stream_id, sequence);
                self.seen = fresh.seen;
                self.tracked_len = DELIVERY_WINDOW_BITS;
            } else {
                let shift = advance as usize;
                let mut bits: Vec<bool> = Vec::new();
                bits.push(true);
                while bits.len() < shift
                    invariant
                        1 <= bits@.len() <= shift < DELIVERY_WINDOW_BITS,
                        bits@ == seq![true] + unseen((bits@.len() - 1) as nat),
                    decreases shift - bits@.len(),
                {
                    bits.push(false);
                    assert(bits@ =~= seq![true] + unseen((bits@.len() - 1) as nat));
                }
                let ghost prefix = bits@;
                let mut j: usize = 0;
                while bits.len() < DELIVERY_WINDOW_BITS
                    invariant
                        self.seen@.len() == DELIVERY_WINDOW_BITS,
                        prefix.len() == shift,
                        1 <= shift < DELIVERY_WINDOW_BITS,
                        bits@.len() == shift + j,
                        bits@.len() <= DELIVERY_WINDOW_BITS,
                        bits@ == prefix + self.seen@.take(j as int),
                    decreases DELIVERY_WINDOW_BITS - bits@.len(),
                {
                    bits.push(self.seen[j]);
                    assert(self.seen@.take(j + 1) == self.seen@.take(j as int).push(self.seen@[j as int]));
                    j = j + 1;
                }
                assert(bits@ =~= (prefix + self.seen@).take(DELIVERY_WINDOW_BITS as int));
                self.seen = bits;
                self.tracked_len = if self.tracked_len + shift > DELIVERY_WINDOW_BITS {
                    DELIVERY_WINDOW_BITS
                } else {
                    self.tracked_len + shift
                };
            }
            self.highest = sequence;
            if confirmed != 0 {
                return DeliveryOutcome::ConfirmedGap(confirmed);
            } else if advance == 1 {
                return DeliveryOutcome::InOrder;
            } else {
                return DeliveryOutcome::OpenGap;
            }
        }
        let age = self.highest - sequence;
        if age >= DELIVERY_WINDOW_BITS as u64 {
            return DeliveryOutcome::TooOld;
        }
        let index = age as usize;
        if self.seen[index] {
            DeliveryOutcome::Duplicate
        } else {
            self.seen.set(index, true);
            DeliveryOutcome::Reordered
        }
    }

    /// Gaps confirmed when the highest sequence moves forward by `advance`.
    fn confirmed_by_advance(&self, advance: u64) -> (n: u64)
        requires
            self.wf(),
            advance > 0,
        ensures
            n == spec_confirmed_by_advance(self.seen@, self.tracked_len as nat, advance),
    {
        if advance >= DELIVERY_WINDOW_BITS as u64 {
            let existing = self.unseen_between(0, self.tracked_len);
            return existing.saturating_add(advance - DELIVERY_WINDOW_BITS as u64);
        }
        let lo = DELIVERY_WINDOW_BITS - advance as usize;
        let hi = if self.tracked_len > lo { self.tracked_len } else { lo };
        self.unseen_between(lo, hi)
    }
}

#[derive(Clone, Copy, Debug, PartialEq, Eq, Structural)]
pub struct DeliveryHealthSnapshot {
    pub first_packets: u64,
    pub in_order: u64,
    pub open_gaps: u64,
    pub confirmed_gaps: u64,
    pub duplicates: u64,
    pub reordered: u64,
    pub tracked_peers: usize,
}

#[derive(Debug)]
pub struct PeerDeliveryState {
    pub peer: u64,
    pub active: DeliveryWindow,
    pub retired: Vec<DeliveryStreamId>,
}

#[derive(Debug)]
pub struct DeliveryStats {
    pub first_packets: u64,
    pub in_order: u64,
    pub confirmed_gaps: u64,
    pub duplicates: u64,
    pub reordered: u64,
    pub peers: Vec<PeerDeliveryState>,
}

/// Whether `stream` is among the retired streams `retired`.
pub open spec fn spec_retired_contains(retired: Seq<DeliveryStreamId>, stream: Seq<u8>) -> bool {
    exists|i: int| 0 <= i < retired.len() && (#[trigger] retired[i])@ == stream
}

/// The retired list after retiring `stream`: appended, oldest dropped past capacity.
pub open spec fn spec_retire(retired: Seq<DeliveryStreamId>, stream: DeliveryStreamId) -> Seq<
    DeliveryStreamId,
> {
    if retired.len() + 1 > RETIRED_STREAM_CAPACITY {
        retired.push(stream).drop_first()
    } else {
        retired.push(stream)
    }
}

/// Sum, capped at `u64::MAX` at every step, of the open gaps of the first `n` peers.
pub open spec fn spec_open_gap_total(peers: Seq<PeerDeliveryState>, n: int) -> u64
    decreases n,
{
    if n <= 0 {
        0
    } else {
        sat_add(spec_open_gap_total(peers, n - 1), peers[n - 1].active.spec_open_gaps() as u64)
    }
}

impl DeliveryStats {
    /// Each peer occurs once, with a well-formed window and a bounded retired list.
    pub open spec fn wf(&self) -> bool {
        &&& forall|i: int| 0 <= i < self.peers@.len() ==> (#[trigger] self.peers@[i]).active.wf()
            && self.peers@[i].retired@.len() <= RETIRED_STREAM_CAPACITY
        &&& forall|i: int, j: int|
            0 <= i < j < self.peers@.len() ==> (#[trigger] self.peers@[i]).peer
                != (#[trigger] self.peers@[j]).peer
    }

    /// Whether `peer` has delivery state.
    pub open spec fn spec_tracks(&self, peer: u64) -> bool {
        exists|i: int| 0 <= i < self.peers@.len() && (#[trigger] self.peers@[i]).peer == peer
    }

    /// The position of `peer`'s state.
    pub open spec fn spec_index_of(&self, peer: u64) -> int {
        choose|i: int| 0 <= i < self.peers@.len() && (#[trigger] self.peers@[i]).peer == peer
    }

    pub fn new() -> (s: DeliveryStats)
        ensures
            s.wf(),
            s.first_packets == 0 && s.in_order == 0 && s.confirmed_gaps == 0,
            s.duplicates == 0 && s.reordered == 0,
            s.peers@.len() == 0,
    {
        DeliveryStats {
            first_packets: 0,
            in_order: 0,
            confirmed_gaps: 0,
            duplicates: 0,
            reordered: 0,
            peers: Vec::new(),
        }
    }

    fn find(&self, peer: u64) -> (r: Option<usize>)
        requires
            self.wf(),
        ensures
            r is None ==> !self.spec_tracks(peer),
            r matches Some(i) ==> i < self.peers@.len() && self.peers@[i as int].peer == peer
                && i == self.spec_index_of(peer),
    {
        let mut i: usize = 0;
        while i < self.peers.len()
            invariant
                self.wf(),
                i <= self.peers@.len(),
                forall|j: int| 0 <= j < i ==> (#[trigger] self.peers@[j]).peer != peer,
            decreases self.peers@.len() - i,
        {
            if self.peers[i].peer == peer {
                proof {
                    let k = self.spec_index_of(peer);
                    assert(self.peers@[k].peer == peer);
                    if k != i {
                        if k < i {
                            assert(self.peers@[k].peer != self.peers@[i as int].peer);
                        } else {
                            assert(self.peers@[i as int].peer != self.peers@[k].peer);
                        }
                    }
                }
                return Some(i);
            }
            i = i + 1;
        }
        None
    }

    /// Whether `stream` is in the retired list of `state`.
    fn is_retired(state: &PeerDeliveryState, stream: &DeliveryStreamId) -> (r: bool)
        ensures
            r == spec_retired_contains(state.retired@, stream@),
    {
        let mut i: usize = 0;
        while i < state.retired.len()
            invariant
                i <= state.retired@.len(),
                forall|j: int| 0 <= j < i ==> (#[trigger] state.retired@[j])@ != stream@,
            decreases state.retired@.len() - i,
        {
            if state.retired[i].same_as(stream) {
                return true;
            }
            i = i + 1;
        }
        false
    }

    /// `next` is `self` having recorded packet `sequence` of `stream` from `peer`.
    pub open spec fn spec_observed(&self, next: DeliveryStats, peer: u64, stream: DeliveryStreamId, sequence: u64) -> bool {
        &&& (!self.spec_tracks(peer) ==> {
                &&& next.first_packets == sat_add(self.first_packets, 1)
                &&& next.in_order == self.in_order
                &&& next.confirmed_gaps == self.confirmed_gaps
                &&& next.duplicates == self.duplicates
                &&& next.reordered == self.reordered
                &&& next.peers@.len() == self.peers@.len() + 1
                &&& forall|i: int| 0 <= i < self.peers@.len() ==> #[trigger] next.peers@[i]
                    == self.peers@[i]
                &&& next.peers@.last().peer == peer
                &&& next.peers@.last().active.stream_id == stream
                &&& next.peers@.last().active.highest == sequence
                &&& next.peers@.last().active.tracked_len == 1
                &&& next.peers@.last().retired@.len() == 0
            })
        &&& (self.spec_tracks(peer) ==> {
                let k = self.spec_index_of(peer);
                let before = self.peers@[k];
                let after = next.peers@[k];
                &&& next.peers@.len() == self.peers@.len()
                &&& forall|i: int| 0 <= i < self.peers@.len() && i != k
                    ==> #[trigger] next.peers@[i] == self.peers@[i]
                &&& after.peer == peer
                &&& (if before.active.stream_id@ != stream@ {
                    &&& (if spec_retired_contains(before.retired@, stream@) {
                        &&& after == before
                        &&& next.first_packets == self.first_packets
                    } else {
                        &&& after.retired@ == spec_retire(before.retired@, before.active.stream_id)
                        &&& after.active.stream_id == stream
                        &&& after.active.highest == sequence
                        &&& after.active.tracked_len == 1
                        &&& next.first_packets == sat_add(self.first_packets, 1)
                    })
                    &&& next.in_order == self.in_order
                    &&& next.confirmed_gaps == self.confirmed_gaps
                    &&& next.duplicates == self.duplicates
                    &&& next.reordered == self.reordered
                } else {
                    let outcome = before.active.spec_outcome(sequence);
                    &&& after.retired@ == before.retired@
                    &&& after.active.stream_id == before.active.stream_id
                    &&& next.first_packets == self.first_packets
                    &&& next.in_order == sat_add(
                        self.in_order,
                        if outcome == DeliveryOutcome::InOrder { 1 } else { 0 },
                    )
                    &&& next.confirmed_gaps == sat_add(
                        self.confirmed_gaps,
                        match outcome {
                            DeliveryOutcome::ConfirmedGap(n) => n,
                            _ => 0,
                        },
                    )
                    &&& next.duplicates == sat_add(
                        self.duplicates,
                        if outcome == DeliveryOutcome::Duplicate || outcome
                            == DeliveryOutcome::TooOld { 1 } else { 0 },
                    )
                    &&& next.reordered == sat_add(
                        self.reordered,
                        if outcome == DeliveryOutcome::Reordered { 1 } else { 0 },
                    )
                })
            })
    }

    /// Records packet `sequence` of `stream` from `peer`.
    ///
    /// A peer's first packet, and the first packet of a new stream, start a
    /// fresh window and count as first packets; a retired stream is ignored;
    /// otherwise the window's outcome updates the matching counter.
    pub fn observe(&mut self, peer: u64, stream: DeliveryStreamId, sequence: u64)
        requires
            old(self).wf(),
        ensures
            final(self).wf(),
            final(self).first_packets >= old(self).first_packets,
            final(self).in_order >= old(self).in_order,
            final(self).confirmed_gaps >= old(self).confirmed_gaps,
            final(self).duplicates >= old(self).duplicates,
            final(self).reordered >= old(self).reordered,
            old(self).spec_observed(*final(self), peer, stream, sequence),
    {
        let found = self.find(peer);
        match found {
            None => {
                self.first_packets = self.first_packets.saturating_add(1);
                let state = PeerDeliveryState {
                    peer,
                    active: DeliveryWindow::new(stream, sequence),
                    retired: Vec::new(),
                };
                self.peers.push(state);
                proof {
                    assert forall|i: int, j: int|
                        0 <= i < j < self.peers@.len() implies (#[trigger] self.peers@[i]).peer
                        != (#[trigger] self.peers@[j]).peer by {
                        if j == self.peers@.len() - 1 {
                            assert(old(self).peers@[i].peer != peer);
                        }
                    }
                }
            },
            Some(k) => {
                let mut state = self.peers.remove(k);
                if !state.active.stream_id.same_as(&stream) {
                    if Self::is_retired(&state, &stream) {
                        self.peers.insert(k, state);
                        assert(self.peers@ =~= old(self).peers@);
                        return;
                    }
                    state.retired.push(state.active.stream_id);
                    if state.retired.len() > RETIRED_STREAM_CAPACITY {
                        state.retired.remove(0);
                    }
                    state.active = DeliveryWindow::new(stream, sequence);
                    self.first_packets = self.first_packets.saturating_add(1);
                    self.peers.insert(k, state);
                } else {
                    let outcome = state.active.observe(sequence);
                    match outcome {
                        DeliveryOutcome::InOrder => {
                            self.in_order = self.in_order.saturating_add(1);
                        },
                        DeliveryOutcome::OpenGap => {},
                        DeliveryOutcome::ConfirmedGap(count) => {
                            self.confirmed_gaps = self.confirmed_gaps.saturating_add(count);
                        },
                        DeliveryOutcome::Duplicate | DeliveryOutcome::TooOld => {
                            self.duplicates = self.duplicates.saturating_add(1);
                        },
                        DeliveryOutcome::Reordered => {
                            self.reordered = self.reordered.saturating_add(1);
                        },
                    }
                    self.peers.insert(k, state);
                }
                proof {
                    assert forall|i: int| 0 <= i < old(self).peers@.len() && i != k implies #[trigger] self.peers@[i]
                        == old(self).peers@[i] by {}
                    assert forall|i: int, j: int|
                        0 <= i < j < self.peers@.len() implies (#[trigger] self.peers@[i]).peer
                        != (#[trigger] self.peers@[j]).peer by {
                        assert(old(self).peers@[i].peer != old(self).peers@[j].peer);
                    }
                }
            },
        }
    }

    /// The counters, the open gaps summed over peers, and the number of peers.
    pub open spec fn spec_snapshot(&self) -> DeliveryHealthSnapshot {
        DeliveryHealthSnapshot {
            first_packets: self.first_packets,
            in_order: self.in_order,
            open_gaps: spec_open_gap_total(self.peers@, self.peers@.len() as int),
            confirmed_gaps: self.confirmed_gaps,
            duplicates: self.duplicates,
            reordered: self.reordered,
            tracked_peers: self.peers@.len() as usize,
        }
    }

    /// The counters, the open gaps summed over peers, and the number of peers.
    pub fn snapshot(&self) -> (s: DeliveryHealthSnapshot)
        requires
            self.wf(),
        ensures
            s == self.spec_snapshot(),
    {
        let mut total: u64 = 0;
        let mut i: usize = 0;
        while i < self.peers.len()
            invariant
                self.wf(),
                i <= self.peers@.len(),
                total == spec_open_gap_total(self.peers@, i as int),
            decreases self.peers@.len() - i,
        {
            let gaps = self.peers[i].active.open_gaps();
            total = total.saturating_add(gaps);
            i = i + 1;
        }
        DeliveryHealthSnapshot {
            first_packets: self.first_packets,
            in_order: self.in_order,
            open_gaps: total,
            confirmed_gaps: self.confirmed_gaps,
            duplicates: self.duplicates,
            reordered: self.reordered,
            tracked_peers: self.peers.len(),
        }
    }
}

} // verus!
