//! Path quality to each room peer, measured with probes: a bounded window of
//! completed probes per peer gives round-trip percentiles, jitter and loss.
//! Instants and durations are microseconds.

use vstd::prelude::*;
use crate::latency::{percentile, sat_sub, sorted_copy, sorted_u64, spec_percentile};
use crate::health_stats::{
    PendingPing, distinct_ids, find_ping, record_ping, retain_live_pings, spec_has_ping, spec_live_pings,
    spec_ping_index, spec_recorded, take_ping,
};

verus! {

/// Completed probes kept per peer.
pub const COMPLETED_CAPACITY: usize = 30;
/// Completed probes needed before a path is judged.
pub const MIN_COMPLETED_SAMPLES: usize = 5;
/// A probe unanswered this long counts as lost.
pub const PROBE_TIMEOUT_MICROS: u64 = 3_000_000;
/// Samples older than this are stale.
pub const STALE_AFTER_MICROS: u64 = 5_000_000;

#[derive(Clone, Copy, Debug, PartialEq, Eq, Structural)]
pub enum RoomPathQualityState {
    Unavailable,
    Measuring,
    Current,
    Stale,
}

#[derive(Clone, Copy, Debug, PartialEq, Eq, Structural)]
pub struct RoomPathQualitySnapshot {
    pub steam_id64: u64,
    pub state: RoomPathQualityState,
    pub completed: u32,
    pub responses: u32,
    pub median_rtt: Option<u64>,
    pub p95_rtt: Option<u64>,
    pub jitter: Option<u64>,
    pub loss_basis_points: Option<u16>,
    pub freshness: Option<u64>,
}

impl RoomPathQualitySnapshot {
    pub open spec fn spec_default() -> RoomPathQualitySnapshot {
        RoomPathQualitySnapshot {
            steam_id64: 0,
            state: RoomPathQualityState::Unavailable,
            completed: 0,
            responses: 0,
            median_rtt: None,
            p95_rtt: None,
            jitter: None,
            loss_basis_points: None,
            freshness: None,
        }
    }
}

impl Default for RoomPathQualitySnapshot {
    fn default() -> (s: RoomPathQualitySnapshot)
        ensures
            s == RoomPathQualitySnapshot::spec_default(),
    {
        RoomPathQualitySnapshot {
            steam_id64: 0,
            state: RoomPathQualityState::Unavailable,
            completed: 0,
            responses: 0,
            median_rtt: None,
            p95_rtt: None,
            jitter: None,
            loss_basis_points: None,
            freshness: None,
        }
    }
}

/// How a probe ended: answered after a round trip, or timed out.
#[derive(Clone, Copy, Debug, PartialEq, Eq, Structural)]
pub enum CompletedProbe {
    Response(u64),
    Timeout,
}

/// A room member as the probe scheduler sees it.
#[derive(Clone, Copy, Debug, PartialEq, Eq, Structural)]
pub struct PathProbePeer {
    pub steam_id64: u64,
    pub connected: bool,
    pub room_path_probe: bool,
}

/// Probes in flight to one peer and the window of completed ones.
#[derive(Debug)]
pub struct PeerMeasurement {
    pub steam_id64: u64,
    pub pending: Vec<PendingPing>,
    pub completed: Vec<CompletedProbe>,
    pub last_completed: Option<u64>,
}

/// Path measurements for every probed room peer, ordered by Steam id.
#[derive(Debug)]
pub struct RoomPathQuality {
    pub peers: Vec<PeerMeasurement>,
}

/// The completed window after `r`: appended, keeping the newest entries.
pub open spec fn spec_window_after(c: Seq<CompletedProbe>, r: CompletedProbe) -> Seq<CompletedProbe> {
    let s = c.push(r);
    if s.len() > COMPLETED_CAPACITY {
        s.subrange(s.len() - COMPLETED_CAPACITY, s.len() as int)
    } else {
        s
    }
}

/// The completed window after `k` timeouts.
pub open spec fn spec_timeouts_after(c: Seq<CompletedProbe>, k: nat) -> Seq<CompletedProbe>
    decreases k,
{
    if k == 0 {
        c
    } else {
        spec_window_after(spec_timeouts_after(c, (k - 1) as nat), CompletedProbe::Timeout)
    }
}

/// The round trips of the answered probes, oldest first.
pub open spec fn spec_response_rtts(c: Seq<CompletedProbe>) -> Seq<u64>
    decreases c.len(),
{
    if c.len() == 0 {
        Seq::empty()
    } else {
        let rest = spec_response_rtts(c.drop_last());
        match c.last() {
            CompletedProbe::Response(rtt) => rest.push(rtt),
            CompletedProbe::Timeout => rest,
        }
    }
}

/// `|a - b|`.
pub open spec fn abs_diff(a: u64, b: u64) -> nat {
    if a >= b { (a - b) as nat } else { (b - a) as nat }
}

/// The sum of the differences between consecutive round trips.
pub open spec fn spec_diff_total(r: Seq<u64>) -> nat
    decreases r.len(),
{
    if r.len() < 2 {
        0
    } else {
        spec_diff_total(r.drop_last()) + abs_diff(r[r.len() - 2], r[r.len() - 1])
    }
}

/// Mean absolute difference between consecutive round trips, when there are two.
pub open spec fn spec_jitter(r: Seq<u64>) -> Option<u64> {
    if r.len() < 2 {
        None
    } else {
        Some((spec_diff_total(r) / ((r.len() - 1) as nat)) as u64)
    }
}

/// Lost probes per ten thousand, once enough probes completed.
pub open spec fn spec_loss_basis_points(completed: nat, responses: nat) -> Option<u16> {
    if completed >= MIN_COMPLETED_SAMPLES {
        Some(((((completed - responses) as int) * 10_000) / (completed as int)) as u16)
    } else {
        None
    }
}

pub open spec fn spec_path_state(completed: nat, freshness: Option<u64>) -> RoomPathQualityState {
    if completed < MIN_COMPLETED_SAMPLES {
        RoomPathQualityState::Measuring
    } else if freshness matches Some(age) && age > STALE_AFTER_MICROS {
        RoomPathQualityState::Stale
    } else {
        RoomPathQualityState::Current
    }
}

/// The report for one peer at `now`.
pub open spec fn spec_peer_snapshot(m: PeerMeasurement, now: u64) -> RoomPathQualitySnapshot {
    let c = m.completed@;
    let rtts = spec_response_rtts(c);
    let freshness = match m.last_completed {
        Some(at) => Some(sat_sub(now, at)),
        None => None,
    };
    RoomPathQualitySnapshot {
        steam_id64: m.steam_id64,
        state: spec_path_state(c.len(), freshness),
        completed: c.len() as u32,
        responses: rtts.len() as u32,
        median_rtt: spec_percentile(sorted_u64(rtts), 50),
        p95_rtt: spec_percentile(sorted_u64(rtts), 95),
        jitter: spec_jitter(rtts),
        loss_basis_points: spec_loss_basis_points(c.len(), rtts.len()),
        freshness,
    }
}

/// A peer that is probed: connected, able to answer, and not the local player.
pub open spec fn spec_probe_target(p: PathProbePeer, local_steam_id64: u64) -> bool {
    p.steam_id64 != local_steam_id64 && p.connected && p.room_path_probe
}

/// Some entry of `peers` for `id` is a probe target.
pub open spec fn spec_eligible(peers: Seq<PathProbePeer>, local_steam_id64: u64, id: u64) -> bool {
    exists|i: int| 0 <= i < peers.len() && (#[trigger] peers[i]).steam_id64 == id && spec_probe_target(peers[i], local_steam_id64)
}

/// Whether `s` measures `id`.
pub open spec fn spec_tracks(s: Seq<PeerMeasurement>, id: u64) -> bool {
    exists|i: int| 0 <= i < s.len() && (#[trigger] s[i]).steam_id64 == id
}

/// The position of `id` in `s`.
pub open spec fn spec_index(s: Seq<PeerMeasurement>, id: u64) -> int {
    choose|i: int| 0 <= i < s.len() && (#[trigger] s[i]).steam_id64 == id
}

/// A measurement with nothing recorded yet.
pub open spec fn spec_fresh(m: PeerMeasurement) -> bool {
    m.pending@.len() == 0 && m.completed@.len() == 0 && m.last_completed is None
}

/// Strictly ascending by Steam id.
pub open spec fn spec_sorted(s: Seq<PeerMeasurement>) -> bool {
    forall|i: int, j: int| 0 <= i < j < s.len() ==> (#[trigger] s[i]).steam_id64 < (#[trigger] s[j]).steam_id64
}

pub proof fn lemma_response_rtts_len(c: Seq<CompletedProbe>)
    ensures
        spec_response_rtts(c).len() <= c.len(),
    decreases c.len(),
{
    if c.len() > 0 {
        lemma_response_rtts_len(c.drop_last());
    }
}

proof fn lemma_sorted_index(s: Seq<PeerMeasurement>, i: int)
    requires
        spec_sorted(s),
        0 <= i < s.len(),
    ensures
        spec_tracks(s, s[i].steam_id64),
        spec_index(s, s[i].steam_id64) == i,
{
    assert(s[i].steam_id64 == s[i].steam_id64);
    let k = spec_index(s, s[i].steam_id64);
    if k < i {
        assert(s[k].steam_id64 < s[i].steam_id64);
    } else if k > i {
        assert(s[i].steam_id64 < s[k].steam_id64);
    }
}

impl PeerMeasurement {
    pub open spec fn wf(&self) -> bool {
        &&& self.completed@.len() <= COMPLETED_CAPACITY
        &&& distinct_ids(self.pending@)
    }

    pub fn new(steam_id64: u64) -> (m: PeerMeasurement)
        ensures
            m.wf(),
            m.steam_id64 == steam_id64,
            spec_fresh(m),
    {
        PeerMeasurement { steam_id64, pending: Vec::new(), completed: Vec::new(), last_completed: None }
    }

    /// Adds `result` to the completed window at `now`.
    fn complete(&mut self, result: CompletedProbe, now: u64)
        requires
            old(self).wf(),
        ensures
            final(self).wf(),
            final(self).completed@ == spec_window_after(old(self).completed@, result),
            final(self).last_completed == Some(now),
            final(self).pending@ == old(self).pending@,
            final(self).steam_id64 == old(self).steam_id64,
    {
        let ghost s = self.completed@.push(result);
        let ghost pending = self.pending@;
        let ghost id = self.steam_id64;
        self.completed.push(result);
        while self.completed.len() > COMPLETED_CAPACITY
            invariant
                self.pending@ == pending,
                self.steam_id64 == id,
                s.len() <= COMPLETED_CAPACITY + 1,
                self.completed@.len() <= s.len(),
                self.completed@.len() >= COMPLETED_CAPACITY || self.completed@.len() == s.len(),
                self.completed@ == s.subrange(s.len() - self.completed@.len(), s.len() as int),
            decreases self.completed@.len(),
        {
            self.completed.remove(0);
        }
        proof {
            if s.len() <= COMPLETED_CAPACITY {
                assert(self.completed@ == s.subrange(0, s.len() as int));
                assert(s.subrange(0, s.len() as int) == s);
            }
        }
        self.last_completed = Some(now);
    }

    /// The round trips of the answered probes, oldest first.
    fn response_rtts(&self) -> (r: Vec<u64>)
        ensures
            r@ == spec_response_rtts(self.completed@),
    {
        let mut r: Vec<u64> = Vec::new();
        let mut i: usize = 0;
        while i < self.completed.len()
            invariant
                i <= self.completed@.len(),
                r@ == spec_response_rtts(self.completed@.take(i as int)),
            decreases self.completed@.len() - i,
        {
            proof {
                assert(self.completed@.take(i + 1).drop_last() == self.completed@.take(i as int));
                assert(self.completed@.take(i + 1).last() == self.completed@[i as int]);
            }
            match self.completed[i] {
                CompletedProbe::Response(rtt) => r.push(rtt),
                CompletedProbe::Timeout => {},
            }
            i = i + 1;
        }
        proof {
            assert(self.completed@.take(self.completed@.len() as int) == self.completed@);
        }
        r
    }

    /// The report for this peer at `now`.
    pub fn snapshot(&self, now: u64) -> (s: RoomPathQualitySnapshot)
        requires
            self.wf(),
        ensures
            s == spec_peer_snapshot(*self, now),
    {
        let completed = self.completed.len();
        let rtts = self.response_rtts();
        proof {
            lemma_response_rtts_len(self.completed@);
        }
        let responses = rtts.len();
        let freshness = match self.last_completed {
            Some(at) => Some(now.saturating_sub(at)),
            None => None,
        };
        let state = if completed < MIN_COMPLETED_SAMPLES {
            RoomPathQualityState::Measuring
        } else if match freshness {
            Some(age) => age > STALE_AFTER_MICROS,
            None => false,
        } {
            RoomPathQualityState::Stale
        } else {
            RoomPathQualityState::Current
        };
        let sorted = sorted_copy(&rtts);
        proof {
            rtts@.lemma_sort_by_ensures(crate::latency::u64_leq());
            vstd::seq_lib::to_multiset_len(rtts@);
            vstd::seq_lib::to_multiset_len(sorted@);
        }
        let loss_basis_points = if completed >= MIN_COMPLETED_SAMPLES {
            let timeouts = completed - responses;
            Some(((timeouts * 10_000) / completed) as u16)
        } else {
            None
        };
        RoomPathQualitySnapshot {
            steam_id64: self.steam_id64,
            state,
            completed: completed as u32,
            responses: responses as u32,
            median_rtt: percentile(&sorted, 50),
            p95_rtt: percentile(&sorted, 95),
            jitter: window_jitter(&rtts),
            loss_basis_points,
            freshness,
        }
    }
}

/// Mean absolute difference between consecutive round trips of `rtts`.
pub fn window_jitter(rtts: &Vec<u64>) -> (r: Option<u64>)
    requires
        rtts@.len() <= COMPLETED_CAPACITY,
    ensures
        r == spec_jitter(rtts@),
{
    if rtts.len() < 2 {
        return None;
    }
    let mut total: u128 = 0;
    let mut i: usize = 1;
    while i < rtts.len()
        invariant
            1 <= i <= rtts@.len() <= COMPLETED_CAPACITY,
            total == spec_diff_total(rtts@.take(i as int)),
            total <= (i - 1) * (u64::MAX as int),
        decreases rtts@.len() - i,
    {
        let previous = rtts[i - 1];
        let current = rtts[i];
        let diff: u64 = if current >= previous { current - previous } else { previous - current };
        proof {
            let t = rtts@.take(i + 1);
            assert(t.drop_last() == rtts@.take(i as int));
            assert(t[t.len() - 2] == previous && t[t.len() - 1] == current);
        }
        total = total + diff as u128;
        i = i + 1;
    }
    proof {
        assert(rtts@.take(rtts@.len() as int) == rtts@);
    }
    let deltas: u128 = (rtts.len() - 1) as u128;
    let mean = total / deltas;
    assert(mean <= u64::MAX) by (nonlinear_arith)
        requires
            mean == total / deltas,
            deltas >= 1,
            total <= deltas * (u64::MAX as int),
    ;
    Some(mean as u64)
}

impl RoomPathQuality {
    pub open spec fn wf(&self) -> bool {
        &&& spec_sorted(self.peers@)
        &&& forall|i: int| 0 <= i < self.peers@.len() ==> (#[trigger] self.peers@[i]).wf()
    }

    pub fn new() -> (q: RoomPathQuality)
        ensures
            q.wf(),
            q.peers@.len() == 0,
    {
        RoomPathQuality { peers: Vec::new() }
    }

    /// The position of `id`, if it is measured.
    fn find(&self, id: u64) -> (r: Option<usize>)
        requires
            self.wf(),
        ensures
            r is None ==> !spec_tracks(self.peers@, id),
            r matches Some(i) ==> i < self.peers@.len() && self.peers@[i as int].steam_id64 == id,
    {
        let mut i: usize = 0;
        while i < self.peers.len()
            invariant
                i <= self.peers@.len(),
                forall|j: int| 0 <= j < i ==> (#[trigger] self.peers@[j]).steam_id64 != id,
            decreases self.peers@.len() - i,
        {
            if self.peers[i].steam_id64 == id {
                return Some(i);
            }
            i = i + 1;
        }
        None
    }

    /// Keeps measuring the peers that are still probe targets and starts an
    /// empty measurement for each new one.
    pub fn sync_peers(&mut self, peers: &Vec<PathProbePeer>, local_steam_id64: u64)
        requires
            old(self).wf(),
        ensures
            final(self).wf(),
            forall|id: u64| spec_tracks(final(self).peers@, id) <==> spec_eligible(peers@, local_steam_id64, id),
            forall|i: int| 0 <= i < final(self).peers@.len() ==> {
                let m = #[trigger] final(self).peers@[i];
                if spec_tracks(old(self).peers@, m.steam_id64) {
                    m == old(self).peers@[spec_index(old(self).peers@, m.steam_id64)]
                } else {
                    spec_fresh(m)
                }
            },
    {
        let ghost orig = self.peers@;
        let mut rest: Vec<PeerMeasurement> = Vec::new();
        std::mem::swap(&mut rest, &mut self.peers);
        let mut kept: Vec<PeerMeasurement> = Vec::new();
        let ghost mut j: int = 0;
        while rest.len() > 0
            invariant
                spec_sorted(orig),
                forall|a: int| 0 <= a < orig.len() ==> (#[trigger] orig[a]).wf(),
                0 <= j <= orig.len(),
                rest@ == orig.subrange(j, orig.len() as int),
                spec_sorted(kept@),
                forall|a: int| 0 <= a < kept@.len() ==> (#[trigger] kept@[a]).wf(),
                forall|a: int| 0 <= a < kept@.len() ==> exists|b: int| 0 <= b < j && orig[b] == #[trigger] kept@[a],
                forall|a: int, b: int| 0 <= a < kept@.len() && j <= b < orig.len() ==> (#[trigger] kept@[a]).steam_id64 < (#[trigger] orig[b]).steam_id64,
                forall|id: u64| spec_tracks(kept@, id) <==> (exists|b: int| 0 <= b < j && (#[trigger] orig[b]).steam_id64 == id) && spec_eligible(peers@, local_steam_id64, id),
            decreases rest@.len(),
        {
            let m = rest.remove(0);
            proof {
                assert(m == orig[j]);
            }
            let keep = is_target(peers, local_steam_id64, m.steam_id64);
            let ghost before = kept@;
            if keep {
                kept.push(m);
            }
            proof {
                let jj = j;
                j = j + 1;
                assert(rest@ == orig.subrange(j, orig.len() as int));
                assert forall|a: int| 0 <= a < kept@.len() implies exists|b: int| 0 <= b < j && orig[b] == #[trigger] kept@[a] by {
                    if a < before.len() {
                        assert(kept@[a] == before[a]);
                    } else {
                        assert(orig[jj] == kept@[a]);
                    }
                }
                assert forall|a: int, b: int| 0 <= a < kept@.len() && j <= b < orig.len() implies (#[trigger] kept@[a]).steam_id64 < (#[trigger] orig[b]).steam_id64 by {
                    if a < before.len() {
                        assert(kept@[a] == before[a]);
                    } else {
                        assert(orig[jj].steam_id64 < orig[b].steam_id64);
                    }
                }
                assert forall|id: u64| spec_tracks(kept@, id) <==> (exists|b: int| 0 <= b < j && (#[trigger] orig[b]).steam_id64 == id) && spec_eligible(peers@, local_steam_id64, id) by {
                    if spec_tracks(kept@, id) {
                        let a = choose|a: int| 0 <= a < kept@.len() && (#[trigger] kept@[a]).steam_id64 == id;
                        if a < before.len() {
                            assert(kept@[a] == before[a]);
                            assert(spec_tracks(before, id));
                        } else {
                            assert(orig[jj].steam_id64 == id);
                        }
                    }
                    if (exists|b: int| 0 <= b < j && (#[trigger] orig[b]).steam_id64 == id) && spec_eligible(peers@, local_steam_id64, id) {
                        let b = choose|b: int| 0 <= b < j && (#[trigger] orig[b]).steam_id64 == id;
                        if b < jj {
                            assert(spec_tracks(before, id));
                            let a = choose|a: int| 0 <= a < before.len() && (#[trigger] before[a]).steam_id64 == id;
                            assert(kept@[a] == before[a]);
                        } else {
                            assert(kept@[before.len() as int] == m);
                        }
                    }
                }
            }
        }
        proof {
            assert(j == orig.len());
        }
        let mut i: usize = 0;
        while i < peers.len()
            invariant
                spec_sorted(orig),
                forall|a: int| 0 <= a < orig.len() ==> (#[trigger] orig[a]).wf(),
                i <= peers@.len(),
                spec_sorted(kept@),
                forall|a: int| 0 <= a < kept@.len() ==> (#[trigger] kept@[a]).wf(),
                forall|a: int| 0 <= a < kept@.len() ==> (exists|b: int| 0 <= b < orig.len() && orig[b] == #[trigger] kept@[a])
                    || (spec_fresh(kept@[a]) && !spec_tracks(orig, kept@[a].steam_id64)),
                forall|id: u64| #![trigger spec_tracks(kept@, id)] spec_tracks(kept@, id) <==> (spec_tracks(orig, id) && spec_eligible(peers@, local_steam_id64, id))
                    || spec_eligible(peers@.take(i as int), local_steam_id64, id),
            decreases peers@.len() - i,
        {
            let p = peers[i];
            let ghost kept_before = kept@;
            proof {
                assert(peers@.take(i + 1)[i as int] == p);
            }
            if p.steam_id64 != local_steam_id64 && p.connected && p.room_path_probe {
                let mut pos: usize = 0;
                while pos < kept.len() && kept[pos].steam_id64 < p.steam_id64
                    invariant
                        pos <= kept@.len(),
                        kept@ == kept_before,
                        forall|a: int| 0 <= a < pos ==> (#[trigger] kept@[a]).steam_id64 < p.steam_id64,
                    decreases kept@.len() - pos,
                {
                    pos = pos + 1;
                }
                let present = pos < kept.len() && kept[pos].steam_id64 == p.steam_id64;
                if !present {
                    let ghost before = kept@;
                    proof {
                        assert forall|a: int| pos <= a < before.len() implies p.steam_id64 < (#[trigger] before[a]).steam_id64 by {
                            if a > pos {
                                assert(before[pos as int].steam_id64 < before[a].steam_id64);
                            }
                        }
                        assert(spec_eligible(peers@, local_steam_id64, p.steam_id64)) by {
                            assert(peers@[i as int] == p);
                        }
                        if spec_tracks(orig, p.steam_id64) {
                            assert(!spec_tracks(before, p.steam_id64) ==> false) by {
                                if !spec_tracks(before, p.steam_id64) {
                                    assert(spec_tracks(orig, p.steam_id64) && spec_eligible(peers@, local_steam_id64, p.steam_id64));
                                }
                            }
                            let a = choose|a: int| 0 <= a < before.len() && (#[trigger] before[a]).steam_id64 == p.steam_id64;
                            if a < pos {
                                assert(before[a].steam_id64 < p.steam_id64);
                            } else if a > pos {
                                assert(p.steam_id64 < before[a].steam_id64);
                            }
                        }
                    }
                    kept.insert(pos, PeerMeasurement::new(p.steam_id64));
                    proof {
                        assert forall|a: int, b: int| 0 <= a < b < kept@.len() implies (#[trigger] kept@[a]).steam_id64 < (#[trigger] kept@[b]).steam_id64 by {
                            let a0 = if a < pos { a } else { a - 1 };
                            let b0 = if b < pos { b } else { b - 1 };
                            if a != pos && b != pos {
                                assert(before[a0].steam_id64 < before[b0].steam_id64);
                            } else if a == pos {
                                assert(p.steam_id64 < before[b0].steam_id64);
                            } else {
                                assert(before[a0].steam_id64 < p.steam_id64);
                            }
                        }
                        assert forall|a: int| 0 <= a < kept@.len() implies (#[trigger] kept@[a]).wf() by {
                            if a < pos {
                                assert(kept@[a] == before[a]);
                            } else if a > pos {
                                assert(kept@[a] == before[a - 1]);
                            }
                        }
                        assert forall|a: int| 0 <= a < kept@.len() implies (exists|b: int| 0 <= b < orig.len() && orig[b] == #[trigger] kept@[a])
                            || (spec_fresh(kept@[a]) && !spec_tracks(orig, kept@[a].steam_id64)) by {
                            if a < pos {
                                assert(kept@[a] == before[a]);
                            } else if a > pos {
                                assert(kept@[a] == before[a - 1]);
                            }
                        }
                        assert forall|id: u64| spec_tracks(kept@, id) <==> (spec_tracks(before, id) || id == p.steam_id64) by {
                            if spec_tracks(kept@, id) {
                                let a = choose|a: int| 0 <= a < kept@.len() && (#[trigger] kept@[a]).steam_id64 == id;
                                if a < pos {
                                    assert(kept@[a] == before[a]);
                                } else if a > pos {
                                    assert(kept@[a] == before[a - 1]);
                                }
                            }
                            if spec_tracks(before, id) {
                                let a = choose|a: int| 0 <= a < before.len() && (#[trigger] before[a]).steam_id64 == id;
                                if a < pos {
                                    assert(kept@[a] == before[a]);
                                } else {
                                    assert(kept@[a + 1] == before[a]);
                                }
                            }
                            if id == p.steam_id64 {
                                assert(kept@[pos as int].steam_id64 == id);
                            }
                        }
                    }
                } else {
                    assert(kept@[pos as int].steam_id64 == p.steam_id64);
                }
            }
            proof {
                let ghost t = peers@.take(i + 1);
                assert forall|id: u64| spec_tracks(kept@, id) <==> (spec_tracks(kept_before, id)
                    || (id == p.steam_id64 && spec_probe_target(p, local_steam_id64))) by {
                }
                assert forall|id: u64| spec_eligible(peers@.take(i + 1), local_steam_id64, id) <==> (
                    spec_eligible(peers@.take(i as int), local_steam_id64, id)
                    || (id == p.steam_id64 && spec_probe_target(p, local_steam_id64))) by {
                    if spec_eligible(peers@.take(i as int), local_steam_id64, id) {
                        let b = choose|b: int| 0 <= b < i && (#[trigger] peers@.take(i as int)[b]).steam_id64 == id && spec_probe_target(peers@.take(i as int)[b], local_steam_id64);
                        assert(t[b] == peers@.take(i as int)[b]);
                    }
                    if spec_eligible(t, local_steam_id64, id) {
                        let b = choose|b: int| 0 <= b < t.len() && (#[trigger] t[b]).steam_id64 == id && spec_probe_target(t[b], local_steam_id64);
                        if b < i {
                            assert(peers@.take(i as int)[b] == t[b]);
                        }
                    }
                    if id == p.steam_id64 && spec_probe_target(p, local_steam_id64) {
                        assert(t[i as int] == p);
                    }
                }
                assert(t == peers@.take((i + 1) as usize as int));
                assert forall|id: u64| #![trigger spec_tracks(kept@, id)] spec_tracks(kept@, id) <==> (spec_tracks(orig, id) && spec_eligible(peers@, local_steam_id64, id))
                    || spec_eligible(t, local_steam_id64, id) by {
                    assert(spec_tracks(kept@, id) <==> (spec_tracks(kept_before, id)
                        || (id == p.steam_id64 && spec_probe_target(p, local_steam_id64))));
                    assert(spec_eligible(t, local_steam_id64, id) <==> (
                        spec_eligible(peers@.take(i as int), local_steam_id64, id)
                        || (id == p.steam_id64 && spec_probe_target(p, local_steam_id64))));
                    assert(spec_tracks(kept_before, id) <==> (spec_tracks(orig, id) && spec_eligible(peers@, local_steam_id64, id))
                        || spec_eligible(peers@.take(i as int), local_steam_id64, id));
                }
            }
            i = i + 1;
        }
        proof {
            assert(peers@.take(peers@.len() as int) == peers@);
            assert forall|a: int| 0 <= a < kept@.len() implies {
                let m = #[trigger] kept@[a];
                if spec_tracks(orig, m.steam_id64) {
                    m == orig[spec_index(orig, m.steam_id64)]
                } else {
                    spec_fresh(m)
                }
            } by {
                let m = kept@[a];
                if exists|b: int| 0 <= b < orig.len() && orig[b] == m {
                    let b = choose|b: int| 0 <= b < orig.len() && orig[b] == m;
                    lemma_sorted_index(orig, b);
                }
            }
        }
        self.peers = kept;
    }

    /// The Steam ids of the measured peers, ascending.
    pub fn targets(&self) -> (ids: Vec<u64>)
        ensures
            ids@.len() == self.peers@.len(),
            forall|i: int| 0 <= i < ids@.len() ==> ids@[i] == (#[trigger] self.peers@[i]).steam_id64,
    {
        let mut ids: Vec<u64> = Vec::new();
        let mut i: usize = 0;
        while i < self.peers.len()
            invariant
                i <= self.peers@.len(),
                ids@.len() == i,
                forall|k: int| 0 <= k < i ==> ids@[k] == (#[trigger] self.peers@[k]).steam_id64,
            decreases self.peers@.len() - i,
        {
            ids.push(self.peers[i].steam_id64);
            i = i + 1;
        }
        ids
    }

    /// Records probe `probe_id` sent to `target` at `now`; ignored for a peer
    /// that is not measured.
    pub fn record_sent(&mut self, target: u64, probe_id: u64, now: u64)
        requires
            old(self).wf(),
        ensures
            final(self).wf(),
            final(self).peers@.len() == old(self).peers@.len(),
            forall|i: int| 0 <= i < old(self).peers@.len() ==> {
                let before = #[trigger] old(self).peers@[i];
                let after = final(self).peers@[i];
                if before.steam_id64 == target {
                    &&& after.steam_id64 == target
                    &&& spec_recorded(before.pending@, after.pending@, probe_id, now)
                    &&& after.completed@ == before.completed@
                    &&& after.last_completed == before.last_completed
                } else {
                    after == before
                }
            },
    {
        match self.find(target) {
            None => {},
            Some(i) => {
                let ghost before = self.peers@;
                let mut m = self.peers.remove(i);
                record_ping(&mut m.pending, probe_id, now);
                self.peers.insert(i, m);
                proof {
                    assert forall|k: int| 0 <= k < before.len() && k != i implies self.peers@[k] == before[k] by {}
                    assert forall|a: int, b: int| 0 <= a < b < self.peers@.len() implies (#[trigger] self.peers@[a]).steam_id64 < (#[trigger] self.peers@[b]).steam_id64 by {
                        assert(before[a].steam_id64 < before[b].steam_id64);
                    }
                    assert forall|k: int| 0 <= k < before.len() && k != i implies before[k].steam_id64 != target by {
                        if k < i {
                            assert(before[k].steam_id64 < before[i as int].steam_id64);
                        } else {
                            assert(before[i as int].steam_id64 < before[k].steam_id64);
                        }
                    }
                }
            },
        }
    }

    /// An echo of probe `probe_id` from `source` arrived at `now`: a pending
    /// probe completes with its round trip and `true` is returned; an echo
    /// that matches nothing changes nothing and returns `false`.
    pub fn record_echo(&mut self, source: u64, probe_id: u64, now: u64) -> (r: bool)
        requires
            old(self).wf(),
        ensures
            final(self).wf(),
            r == (spec_tracks(old(self).peers@, source) && spec_has_ping(
                old(self).peers@[spec_index(old(self).peers@, source)].pending@,
                probe_id,
            )),
            !r ==> final(self).peers@ == old(self).peers@,
            final(self).peers@.len() == old(self).peers@.len(),
            r ==> forall|i: int| 0 <= i < old(self).peers@.len() ==> {
                let before = #[trigger] old(self).peers@[i];
                let after = final(self).peers@[i];
                if before.steam_id64 == source {
                    let k = spec_ping_index(before.pending@, probe_id);
                    &&& after.steam_id64 == source
                    &&& after.pending@ == before.pending@.remove(k)
                    &&& after.completed@ == spec_window_after(
                        before.completed@,
                        CompletedProbe::Response(sat_sub(now, before.pending@[k].sent_at)),
                    )
                    &&& after.last_completed == Some(now)
                } else {
                    after == before
                }
            },
    {
        match self.find(source) {
            None => false,
            Some(i) => {
                proof {
                    lemma_sorted_index(self.peers@, i as int);
                }
                if find_ping(&self.peers[i].pending, probe_id).is_none() {
                    return false;
                }
                let ghost before = self.peers@;
                let mut m = self.peers.remove(i);
                match take_ping(&mut m.pending, probe_id) {
                    None => {
                        proof {
                            assert(false);
                        }
                        self.peers.insert(i, m);
                        false
                    },
                    Some(sent_at) => {
                        m.complete(CompletedProbe::Response(now.saturating_sub(sent_at)), now);
                        self.peers.insert(i, m);
                        proof {
                            assert forall|a: int, b: int| 0 <= a < b < self.peers@.len() implies (#[trigger] self.peers@[a]).steam_id64 < (#[trigger] self.peers@[b]).steam_id64 by {
                                assert(before[a].steam_id64 < before[b].steam_id64);
                            }
                            assert forall|k: int| 0 <= k < before.len() && k != i implies before[k].steam_id64 != source by {
                                if k < i {
                                    assert(before[k].steam_id64 < before[i as int].steam_id64);
                                } else {
                                    assert(before[i as int].steam_id64 < before[k].steam_id64);
                                }
                            }
                        }
                        true
                    },
                }
            },
        }
    }

    /// Probes unanswered for the timeout at `now` complete as timeouts.
    pub fn expire(&mut self, now: u64)
        requires
            old(self).wf(),
        ensures
            final(self).wf(),
            final(self).peers@.len() == old(self).peers@.len(),
            forall|i: int| 0 <= i < old(self).peers@.len() ==> {
                let before = #[trigger] old(self).peers@[i];
                let after = final(self).peers@[i];
                let live = spec_live_pings(before.pending@, now, (PROBE_TIMEOUT_MICROS - 1) as u64);
                let expired = (before.pending@.len() - live.len()) as nat;
                &&& after.steam_id64 == before.steam_id64
                &&& after.pending@ == live
                &&& after.completed@ == spec_timeouts_after(before.completed@, expired)
                &&& after.last_completed == (if expired > 0 { Some(now) } else { before.last_completed })
            },
    {
        let ghost orig = self.peers@;
        let mut i: usize = 0;
        while i < self.peers.len()
            invariant
                i <= self.peers@.len(),
                self.peers@.len() == orig.len(),
                spec_sorted(orig),
                forall|k: int| 0 <= k < self.peers@.len() ==> (#[trigger] self.peers@[k]).wf(),
                forall|k: int| 0 <= k < orig.len() ==> (#[trigger] self.peers@[k]).steam_id64 == orig[k].steam_id64,
                forall|k: int| i <= k < orig.len() ==> #[trigger] self.peers@[k] == orig[k],
                forall|k: int| 0 <= k < i ==> {
                    let before = #[trigger] orig[k];
                    let after = self.peers@[k];
                    let live = spec_live_pings(before.pending@, now, (PROBE_TIMEOUT_MICROS - 1) as u64);
                    let expired = (before.pending@.len() - live.len()) as nat;
                    &&& after.pending@ == live
                    &&& after.completed@ == spec_timeouts_after(before.completed@, expired)
                    &&& after.last_completed == (if expired > 0 { Some(now) } else { before.last_completed })
                },
            decreases orig.len() - i,
        {
            let ghost prev = self.peers@;
            let mut m = self.peers.remove(i);
            let count = m.pending.len();
            let kept = retain_live_pings(&m.pending, now, PROBE_TIMEOUT_MICROS - 1);
            let expired = count - kept.len();
            m.pending = kept;
            let ghost c0 = m.completed@;
            let ghost l0 = m.last_completed;
            let mut t: usize = 0;
            while t < expired
                invariant
                    t <= expired,
                    m.wf(),
                    m.steam_id64 == orig[i as int].steam_id64,
                    m.pending@ == spec_live_pings(orig[i as int].pending@, now, (PROBE_TIMEOUT_MICROS - 1) as u64),
                    m.completed@ == spec_timeouts_after(c0, t as nat),
                    m.last_completed == (if t > 0 { Some(now) } else { l0 }),
                decreases expired - t,
            {
                m.complete(CompletedProbe::Timeout, now);
                t = t + 1;
            }
            self.peers.insert(i, m);
            proof {
                assert forall|k: int| 0 <= k < orig.len() && k != i implies #[trigger] self.peers@[k] == prev[k] by {}
            }
            i = i + 1;
        }
        proof {
            assert forall|a: int, b: int| 0 <= a < b < self.peers@.len() implies (#[trigger] self.peers@[a]).steam_id64 < (#[trigger] self.peers@[b]).steam_id64 by {
                assert(orig[a].steam_id64 < orig[b].steam_id64);
            }
        }
    }

    /// One report per measured peer at `now`, ascending by Steam id.
    pub fn snapshots(&self, now: u64) -> (r: Vec<RoomPathQualitySnapshot>)
        requires
            self.wf(),
        ensures
            r@.len() == self.peers@.len(),
            forall|i: int| 0 <= i < r@.len() ==> #[trigger] r@[i] == spec_peer_snapshot(self.peers@[i], now),
            forall|i: int, j: int| 0 <= i < j < r@.len() ==> (#[trigger] r@[i]).steam_id64 < (#[trigger] r@[j]).steam_id64,
    {
        let mut r: Vec<RoomPathQualitySnapshot> = Vec::new();
        let mut i: usize = 0;
        while i < self.peers.len()
            invariant
                self.wf(),
                i <= self.peers@.len(),
                r@.len() == i,
                forall|k: int| 0 <= k < i ==> #[trigger] r@[k] == spec_peer_snapshot(self.peers@[k], now),
            decreases self.peers@.len() - i,
        {
            r.push(self.peers[i].snapshot(now));
            i = i + 1;
        }
        proof {
            assert forall|a: int, b: int| 0 <= a < b < r@.len() implies (#[trigger] r@[a]).steam_id64 < (#[trigger] r@[b]).steam_id64 by {
                assert(self.peers@[a].steam_id64 < self.peers@[b].steam_id64);
            }
        }
        r
    }

    /// Forgets every peer.
    pub fn clear(&mut self)
        ensures
            final(self).wf(),
            final(self).peers@.len() == 0,
    {
        self.peers = Vec::new();
    }
}

/// Whether some entry of `peers` for `id` is a probe target.
fn is_target(peers: &Vec<PathProbePeer>, local_steam_id64: u64, id: u64) -> (r: bool)
    ensures
        r == spec_eligible(peers@, local_steam_id64, id),
{
    let mut i: usize = 0;
    while i < peers.len()
        invariant
            i <= peers@.len(),
            forall|k: int| 0 <= k < i ==> !((#[trigger] peers@[k]).steam_id64 == id && spec_probe_target(peers@[k], local_steam_id64)),
        decreases peers@.len() - i,
    {
        let p = peers[i];
        if p.steam_id64 == id && p.steam_id64 != local_steam_id64 && p.connected && p.room_path_probe {
            return true;
        }
        i = i + 1;
    }
    false
}

} // verus!
