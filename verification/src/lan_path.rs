//! The direct UDP path to one LAN peer: the offer that fixes its material,
//! the connectivity checks between candidate endpoints, the nomination of a
//! checked pair (made by the controlling side, the one with the smaller
//! identity), and the heartbeats that keep it alive. The caller owns the
//! sockets, the random material and the clock (milliseconds) and hands each
//! frame and tick in.

use vstd::prelude::*;
use crate::lan_join_code::LanEndpoint;
use crate::lan_membership::PeerId;

verus! {

/// Milliseconds between heartbeats on a nominated path.
pub const HEARTBEAT_INTERVAL_MILLIS: u64 = 1_000;
/// A nominated path unheard of this long is dropped and checked again.
pub const PATH_LIVENESS_TIMEOUT_MILLIS: u64 = 3_000;
/// A path checked this long without a nomination is reported unavailable.
pub const PATH_UNAVAILABLE_AFTER_MILLIS: u64 = 3_000;

/// A candidate endpoint and its priority.
#[derive(Clone, Copy, Debug, PartialEq, Eq, Structural)]
pub struct Candidate {
    pub endpoint: LanEndpoint,
    pub priority: u32,
}

/// A local endpoint and a remote one.
#[derive(Clone, Copy, Debug, PartialEq, Eq, Structural)]
pub struct EndpointPair {
    pub local: LanEndpoint,
    pub remote: LanEndpoint,
}

/// What the checks of one pair have seen.
#[derive(Clone, Copy, Debug, PartialEq, Eq, Structural)]
pub struct CheckState {
    pub request_seen: bool,
    pub response_seen: bool,
}

/// The checks of one pair.
#[derive(Clone, Copy, Debug, PartialEq, Eq, Structural)]
pub struct CheckEntry {
    pub pair: EndpointPair,
    pub state: CheckState,
}

/// The id and token of a path, fixed by the controlling side's offer.
#[derive(Clone, Copy, Debug, PartialEq, Eq, Structural)]
pub struct PathMaterial {
    pub id: u128,
    pub token: u128,
}

/// The pair in use and when it was last heard of.
#[derive(Clone, Copy, Debug, PartialEq, Eq, Structural)]
pub struct Nominated {
    pub pair: EndpointPair,
    pub last_seen: u64,
}

/// How a path is reported.
#[derive(Clone, Copy, Debug, PartialEq, Eq, Structural)]
pub enum LanPeerPathStatus {
    Checking,
    Usable,
    Unavailable,
}

/// The path to one peer.
pub struct PeerPath {
    pub material: Option<PathMaterial>,
    pub remote_candidates: Vec<Candidate>,
    pub checks: Vec<CheckEntry>,
    pub nominated: Option<Nominated>,
    pub pending_nomination: Option<EndpointPair>,
    pub next_heartbeat_id: u64,
    pub checking_since: u64,
}

/// What a tick of path maintenance asks of the caller.
#[derive(Clone, Copy, Debug, PartialEq, Eq, Structural)]
pub enum PathTick {
    /// Nothing to do.
    Idle,
    /// Send the pending nomination again.
    RepeatNomination { path_id: u128, pair: EndpointPair },
    /// Send connectivity checks to the remote candidates.
    Recheck,
    /// Send the pending nomination again, and checks.
    RepeatNominationAndRecheck { path_id: u128, pair: EndpointPair },
    /// The nominated path went silent: it was dropped; send checks.
    Lost,
    /// Send a heartbeat request with this id over the nominated pair.
    Heartbeat { id: u64, pair: EndpointPair },
}

/// The state of the checks of `pair`, if any.
pub open spec fn spec_check_of(checks: Seq<CheckEntry>, pair: EndpointPair) -> Option<CheckState>
    decreases checks.len(),
{
    if checks.len() == 0 {
        None
    } else if checks.last().pair == pair {
        Some(checks.last().state)
    } else {
        spec_check_of(checks.drop_last(), pair)
    }
}

/// `e` is among the candidates.
pub open spec fn spec_listed(cands: Seq<Candidate>, e: LanEndpoint) -> bool {
    exists|i: int| 0 <= i < cands.len() && #[trigger] cands[i].endpoint == e
}

/// The priority of `e`: that of its last listing, 0 when unlisted.
pub open spec fn spec_priority(cands: Seq<Candidate>, e: LanEndpoint) -> u32
    decreases cands.len(),
{
    if cands.len() == 0 {
        0
    } else if cands.last().endpoint == e {
        cands.last().priority
    } else {
        spec_priority(cands.drop_last(), e)
    }
}

/// The checks with the request (or response) of `pair` marked as seen: on
/// its entry, or on a new one added at the end.
pub open spec fn spec_mark(checks: Seq<CheckEntry>, pair: EndpointPair, request: bool) -> Seq<CheckEntry> {
    match spec_check_of(checks, pair) {
        Some(_) => Seq::new(checks.len(), |i: int| if checks[i].pair == pair {
            CheckEntry { pair, state: if request {
                CheckState { request_seen: true, ..checks[i].state }
            } else {
                CheckState { response_seen: true, ..checks[i].state }
            } }
        } else {
            checks[i]
        }),
        None => checks.push(CheckEntry { pair, state: CheckState { request_seen: request, response_seen: !request } }),
    }
}

/// The order of endpoints: IPv4 before IPv6, then address, port, and for
/// IPv6 flow information and scope.
pub open spec fn endpoint_lt(a: LanEndpoint, b: LanEndpoint) -> bool {
    match (a, b) {
        (LanEndpoint::V4 { .. }, LanEndpoint::V6 { .. }) => true,
        (LanEndpoint::V6 { .. }, LanEndpoint::V4 { .. }) => false,
        (LanEndpoint::V4 { address: x, port: p }, LanEndpoint::V4 { address: y, port: q }) =>
            x < y || (x == y && p < q),
        (LanEndpoint::V6 { address: x, port: p, flowinfo: f, scope_id: s },
            LanEndpoint::V6 { address: y, port: q, flowinfo: g, scope_id: t }) =>
            x < y || (x == y && (p < q || (p == q && (f < g || (f == g && s < t))))),
    }
}

fn endpoint_before(a: LanEndpoint, b: LanEndpoint) -> (r: bool)
    ensures
        r == endpoint_lt(a, b),
{
    match (a, b) {
        (LanEndpoint::V4 { .. }, LanEndpoint::V6 { .. }) => true,
        (LanEndpoint::V6 { .. }, LanEndpoint::V4 { .. }) => false,
        (LanEndpoint::V4 { address: x, port: p }, LanEndpoint::V4 { address: y, port: q }) =>
            x < y || (x == y && p < q),
        (LanEndpoint::V6 { address: x, port: p, flowinfo: f, scope_id: s },
            LanEndpoint::V6 { address: y, port: q, flowinfo: g, scope_id: t }) =>
            x < y || (x == y && (p < q || (p == q && (f < g || (f == g && s < t))))),
    }
}

/// The rank of a checked pair: the sum of its endpoints' priorities.
pub open spec fn spec_rank(local: Seq<Candidate>, remote: Seq<Candidate>, pair: EndpointPair) -> int {
    spec_priority(local, pair.local) + spec_priority(remote, pair.remote)
}

/// `a` ranks below `b`: by priority sum, then local endpoint, then remote.
pub open spec fn pair_below(local: Seq<Candidate>, remote: Seq<Candidate>, a: EndpointPair, b: EndpointPair) -> bool {
    ||| spec_rank(local, remote, a) < spec_rank(local, remote, b)
    ||| spec_rank(local, remote, a) == spec_rank(local, remote, b) && endpoint_lt(a.local, b.local)
    ||| spec_rank(local, remote, a) == spec_rank(local, remote, b) && a.local == b.local && endpoint_lt(a.remote, b.remote)
}

/// A pair whose checks went both ways.
pub open spec fn spec_eligible(e: CheckEntry) -> bool {
    e.state.request_seen && e.state.response_seen
}

fn priority_of(cands: &Vec<Candidate>, e: LanEndpoint) -> (p: u32)
    ensures
        p == spec_priority(cands@, e),
{
    let mut p: u32 = 0;
    let mut i: usize = 0;
    while i < cands.len()
        invariant
            i <= cands@.len(),
            p == spec_priority(cands@.take(i as int), e),
        decreases cands@.len() - i,
    {
        proof {
            assert(cands@.take(i + 1).drop_last() == cands@.take(i as int));
        }
        if cands[i].endpoint == e {
            p = cands[i].priority;
        }
        i = i + 1;
    }
    proof {
        assert(cands@.take(cands@.len() as int) == cands@);
    }
    p
}

fn listed(cands: &Vec<Candidate>, e: LanEndpoint) -> (r: bool)
    ensures
        r == spec_listed(cands@, e),
{
    let mut i: usize = 0;
    while i < cands.len()
        invariant
            i <= cands@.len(),
            forall|k: int| 0 <= k < i ==> cands@[k].endpoint != e,
        decreases cands@.len() - i,
    {
        if cands[i].endpoint == e {
            proof {
                assert(cands@[i as int].endpoint == e);
            }
            return true;
        }
        i = i + 1;
    }
    false
}

fn check_of(checks: &Vec<CheckEntry>, pair: EndpointPair) -> (r: Option<CheckState>)
    ensures
        r == spec_check_of(checks@, pair),
{
    let mut found: Option<CheckState> = None;
    let mut i: usize = 0;
    while i < checks.len()
        invariant
            i <= checks@.len(),
            found == spec_check_of(checks@.take(i as int), pair),
        decreases checks@.len() - i,
    {
        proof {
            assert(checks@.take(i + 1).drop_last() == checks@.take(i as int));
        }
        if checks[i].pair == pair {
            found = Some(checks[i].state);
        }
        i = i + 1;
    }
    proof {
        assert(checks@.take(checks@.len() as int) == checks@);
    }
    found
}

fn mark(checks: &mut Vec<CheckEntry>, pair: EndpointPair, request: bool)
    ensures
        final(checks)@ == spec_mark(old(checks)@, pair, request),
{
    match check_of(checks, pair) {
        None => {
            checks.push(CheckEntry { pair, state: CheckState { request_seen: request, response_seen: !request } });
        },
        Some(_) => {
            let ghost before = checks@;
            let mut i: usize = 0;
            while i < checks.len()
                invariant
                    i <= checks@.len() == before.len(),
                    forall|k: int| 0 <= k < i ==> #[trigger] checks@[k] == spec_mark(before, pair, request)[k],
                    forall|k: int| i <= k < checks@.len() ==> #[trigger] checks@[k] == before[k],
                    spec_check_of(before, pair) is Some,
                decreases checks@.len() - i,
            {
                let e = checks[i];
                if e.pair == pair {
                    let state = if request {
                        CheckState { request_seen: true, response_seen: e.state.response_seen }
                    } else {
                        CheckState { request_seen: e.state.request_seen, response_seen: true }
                    };
                    checks.set(i, CheckEntry { pair, state });
                }
                i = i + 1;
            }
            proof {
                assert(checks@ =~= spec_mark(before, pair, request));
            }
        },
    }
}

/// The checked pair to nominate: among the pairs whose checks went both
/// ways, the highest by priority sum, then local, then remote endpoint.
pub fn select_candidate_pair(checks: &Vec<CheckEntry>, local: &Vec<Candidate>, remote: &Vec<Candidate>) -> (r: Option<EndpointPair>)
    ensures
        r is None <==> (forall|i: int| 0 <= i < checks@.len() ==> !spec_eligible(#[trigger] checks@[i])),
        r matches Some(p) ==> (exists|i: int| 0 <= i < checks@.len() && spec_eligible(#[trigger] checks@[i]) && checks@[i].pair == p),
        r matches Some(p) ==> (forall|i: int| 0 <= i < checks@.len() && spec_eligible(#[trigger] checks@[i]) && checks@[i].pair != p
            ==> pair_below(local@, remote@, checks@[i].pair, p)),
{
    let mut best: Option<EndpointPair> = None;
    let mut best_rank: u64 = 0;
    let mut i: usize = 0;
    while i < checks.len()
        invariant
            i <= checks@.len(),
            best is None <==> (forall|k: int| 0 <= k < i ==> !spec_eligible(#[trigger] checks@[k])),
            best matches Some(p) ==> best_rank == spec_rank(local@, remote@, p),
            best matches Some(p) ==> (exists|k: int| 0 <= k < i && spec_eligible(#[trigger] checks@[k]) && checks@[k].pair == p),
            best matches Some(p) ==> (forall|k: int| 0 <= k < i && spec_eligible(#[trigger] checks@[k]) && checks@[k].pair != p
                ==> pair_below(local@, remote@, checks@[k].pair, p)),
        decreases checks@.len() - i,
    {
        let e = checks[i];
        if e.state.request_seen && e.state.response_seen {
            let rank: u64 = priority_of(local, e.pair.local) as u64 + priority_of(remote, e.pair.remote) as u64;
            let better = match best {
                None => true,
                Some(b) => rank > best_rank || (rank == best_rank && (endpoint_before(b.local, e.pair.local)
                    || (b.local == e.pair.local && endpoint_before(b.remote, e.pair.remote)))),
            };
            if better {
                proof {
                    assert(spec_eligible(checks@[i as int]));
                    lemma_order_facts();
                }
                best = Some(e.pair);
                best_rank = rank;
            } else {
                proof {
                    lemma_order_facts();
                }
            }
        }
        i = i + 1;
    }
    best
}

/// The endpoint order is a strict total order.
proof fn lemma_order_facts()
    ensures
        forall|a: LanEndpoint| !endpoint_lt(a, a),
        forall|a: LanEndpoint, b: LanEndpoint| a != b ==> (endpoint_lt(a, b) || #[trigger] endpoint_lt(b, a)),
        forall|a: LanEndpoint, b: LanEndpoint, c: LanEndpoint| #[trigger] endpoint_lt(a, b) && #[trigger] endpoint_lt(b, c) ==> endpoint_lt(a, c),
{
}


/// The local peer controls the path to `remote` (draws its material and
/// nominates its pair) when its identity orders first: by Steam id, then
/// instance.
pub fn controls_path(local: PeerId, remote: PeerId) -> (r: bool)
    ensures
        r == (local.steam_id64 < remote.steam_id64
            || (local.steam_id64 == remote.steam_id64 && local.instance < remote.instance)),
{
    local.steam_id64 < remote.steam_id64 || (local.steam_id64 == remote.steam_id64 && local.instance < remote.instance)
}

/// The pairs to check: every local candidate with every remote one, local
/// candidates in order, and for each the remote ones in order.
pub fn check_pairs(local: &Vec<Candidate>, remote: &Vec<Candidate>) -> (pairs: Vec<EndpointPair>)
    requires
        local@.len() * remote@.len() <= usize::MAX,
    ensures
        pairs@.len() == local@.len() * remote@.len(),
        forall|i: int, j: int| 0 <= i < local@.len() && 0 <= j < remote@.len() ==>
            #[trigger] pairs@[i * remote@.len() + j] == (EndpointPair { local: local@[i].endpoint, remote: remote@[j].endpoint }),
{
    let m = remote.len();
    let mut pairs: Vec<EndpointPair> = Vec::new();
    let mut i: usize = 0;
    while i < local.len()
        invariant
            i <= local@.len(),
            m == remote@.len(),
            local@.len() * m <= usize::MAX,
            pairs@.len() == i * m,
            forall|a: int, b: int| 0 <= a < i && 0 <= b < m ==>
                #[trigger] pairs@[a * m + b] == (EndpointPair { local: local@[a].endpoint, remote: remote@[b].endpoint }),
        decreases local@.len() - i,
    {
        let mut j: usize = 0;
        while j < m
            invariant
                i < local@.len(),
                j <= m == remote@.len(),
                local@.len() * m <= usize::MAX,
                pairs@.len() == i * m + j,
                forall|a: int, b: int| 0 <= a < i && 0 <= b < m ==>
                    #[trigger] pairs@[a * m + b] == (EndpointPair { local: local@[a].endpoint, remote: remote@[b].endpoint }),
                forall|b: int| 0 <= b < j ==>
                    #[trigger] pairs@[i * m + b] == (EndpointPair { local: local@[i as int].endpoint, remote: remote@[b].endpoint }),
            decreases m - j,
        {
            proof {
                assert((i + 1) * m <= local@.len() * m) by (nonlinear_arith)
                    requires i + 1 <= local@.len();
                assert(i * m + j < (i + 1) * m) by (nonlinear_arith)
                    requires j < m;
            }
            pairs.push(EndpointPair { local: local[i].endpoint, remote: remote[j].endpoint });
            proof {
                assert forall|a: int, b: int| 0 <= a < i && 0 <= b < m implies
                    #[trigger] pairs@[a * m + b] == (EndpointPair { local: local@[a].endpoint, remote: remote@[b].endpoint }) by {
                    assert(a * m + b < i * m) by (nonlinear_arith)
                        requires 0 <= a < i, 0 <= b < m;
                }
            }
            j = j + 1;
        }
        proof {
            assert((i + 1) * m == i * m + m) by (nonlinear_arith);
            assert forall|a: int, b: int| 0 <= a < i + 1 && 0 <= b < m implies
                #[trigger] pairs@[a * m + b] == (EndpointPair { local: local@[a].endpoint, remote: remote@[b].endpoint }) by {
                if a == i {
                    assert(pairs@[i * m + b] == (EndpointPair { local: local@[i as int].endpoint, remote: remote@[b].endpoint }));
                }
            }
        }
        i = i + 1;
    }
    pairs
}

impl PeerPath {
    /// A path just connected at `now`, with the material the controlling
    /// side drew (none on the other side, which waits for the offer).
    pub fn new(now: u64, material: Option<PathMaterial>) -> (p: PeerPath)
        ensures
            p.material == material,
            p.remote_candidates@.len() == 0,
            p.checks@.len() == 0,
            p.nominated is None,
            p.pending_nomination is None,
            p.next_heartbeat_id == 1,
            p.checking_since == now,
    {
        PeerPath {
            material,
            remote_candidates: Vec::new(),
            checks: Vec::new(),
            nominated: None,
            pending_nomination: None,
            next_heartbeat_id: 1,
            checking_since: now,
        }
    }

    /// Takes in the peer's offer. Refused (`None`) when it differs from the
    /// material already fixed, or when this side controls and has none.
    /// Otherwise the candidates replace the old ones, the checks start over
    /// and `Some(reply)` tells whether this side answers with its own offer
    /// (it does when the offer fixed the material).
    pub fn on_offer(&mut self, controlling: bool, material: PathMaterial, candidates: Vec<Candidate>, now: u64) -> (r: Option<bool>)
        ensures
            r == (match old(self).material {
                Some(m) => if m == material { Some(false) } else { None },
                None => if controlling { None } else { Some(true) },
            }),
            r is None ==> final(self).material == old(self).material && final(self).remote_candidates@ == old(self).remote_candidates@
                && final(self).checks@ == old(self).checks@ && final(self).nominated == old(self).nominated
                && final(self).pending_nomination == old(self).pending_nomination
                && final(self).checking_since == old(self).checking_since,
            r is Some ==> final(self).material == Some(material) && final(self).remote_candidates@ == candidates@
                && final(self).checks@.len() == 0 && final(self).nominated is None
                && final(self).pending_nomination is None && final(self).checking_since == now,
            final(self).next_heartbeat_id == old(self).next_heartbeat_id,
    {
        let reply = match self.material {
            Some(m) => {
                if m != material {
                    return None;
                }
                false
            },
            None => {
                if controlling {
                    return None;
                }
                self.material = Some(material);
                true
            },
        };
        self.remote_candidates = candidates;
        self.checks = Vec::new();
        self.nominated = None;
        self.pending_nomination = None;
        self.checking_since = now;
        Some(reply)
    }

    /// Takes in the controlling side's nomination of its pair (`local`,
    /// `remote` as it sees them). Accepted, and to be acknowledged, when
    /// this side does not control, the path id matches and the mirrored
    /// pair was checked both ways; it is then the nominated path.
    pub fn on_nominate(&mut self, controlling: bool, path_id: u128, controller_local: LanEndpoint, controller_remote: LanEndpoint, now: u64) -> (ack: bool)
        ensures
            ack == (!controlling && old(self).material is Some && old(self).material->0.id == path_id
                && spec_check_of(old(self).checks@, EndpointPair { local: controller_remote, remote: controller_local })
                    == Some(CheckState { request_seen: true, response_seen: true })),
            final(self).nominated == (if ack {
                Some(Nominated { pair: EndpointPair { local: controller_remote, remote: controller_local }, last_seen: now })
            } else {
                old(self).nominated
            }),
            final(self).material == old(self).material,
            final(self).remote_candidates@ == old(self).remote_candidates@,
            final(self).checks@ == old(self).checks@,
            final(self).pending_nomination == old(self).pending_nomination,
            final(self).next_heartbeat_id == old(self).next_heartbeat_id,
            final(self).checking_since == old(self).checking_since,
    {
        if controlling {
            return false;
        }
        match self.material {
            Some(m) => {
                if m.id != path_id {
                    return false;
                }
            },
            None => return false,
        }
        let pair = EndpointPair { local: controller_remote, remote: controller_local };
        match check_of(&self.checks, pair) {
            Some(c) => {
                if !c.request_seen || !c.response_seen {
                    return false;
                }
            },
            None => return false,
        }
        self.nominated = Some(Nominated { pair, last_seen: now });
        true
    }

    /// Takes in the acknowledgement of this side's nomination: when this
    /// side controls and the path id matches, the pending pair becomes the
    /// nominated path.
    pub fn on_nominate_ack(&mut self, controlling: bool, path_id: u128, now: u64)
        ensures
            (controlling && old(self).material is Some && old(self).material->0.id == path_id && old(self).pending_nomination is Some) ==> (
                final(self).pending_nomination is None
                && final(self).nominated == Some(Nominated { pair: old(self).pending_nomination->0, last_seen: now })),
            !(controlling && old(self).material is Some && old(self).material->0.id == path_id && old(self).pending_nomination is Some) ==> (
                final(self).pending_nomination == old(self).pending_nomination && final(self).nominated == old(self).nominated),
            final(self).material == old(self).material,
            final(self).remote_candidates@ == old(self).remote_candidates@,
            final(self).checks@ == old(self).checks@,
            final(self).next_heartbeat_id == old(self).next_heartbeat_id,
            final(self).checking_since == old(self).checking_since,
    {
        if !controlling {
            return;
        }
        match self.material {
            Some(m) => {
                if m.id != path_id {
                    return;
                }
            },
            None => return,
        }
        match self.pending_nomination {
            Some(pair) => {
                self.pending_nomination = None;
                self.nominated = Some(Nominated { pair, last_seen: now });
            },
            None => {},
        }
    }

    /// Takes in a check frame that arrived on `local` from `source`. It
    /// counts only when it is addressed to this peer, carries the path's
    /// material, arrives on a local candidate and comes from a remote one;
    /// a response counts only when it answers a request this side sent over
    /// the same pair. A request is answered (the result is true) and marks
    /// the pair's request as seen; a response marks its response as seen.
    pub fn on_check(
        &mut self,
        addressed_here: bool,
        material: PathMaterial,
        local_known: bool,
        local: LanEndpoint,
        source: LanEndpoint,
        request: bool,
        answers_own_request: bool,
    ) -> (respond: bool)
        ensures
            ({
                let valid = addressed_here && old(self).material == Some(material) && local_known
                    && spec_listed(old(self).remote_candidates@, source);
                let counted = valid && (request || answers_own_request);
                &&& respond == (valid && request)
                &&& final(self).checks@ == (if counted {
                    spec_mark(old(self).checks@, EndpointPair { local, remote: source }, request)
                } else {
                    old(self).checks@
                })
            }),
            final(self).material == old(self).material,
            final(self).remote_candidates@ == old(self).remote_candidates@,
            final(self).nominated == old(self).nominated,
            final(self).pending_nomination == old(self).pending_nomination,
            final(self).next_heartbeat_id == old(self).next_heartbeat_id,
            final(self).checking_since == old(self).checking_since,
    {
        let same_material = match self.material {
            Some(m) => m == material,
            None => false,
        };
        if !addressed_here || !same_material || !local_known || !listed(&self.remote_candidates, source) {
            return false;
        }
        if !request && !answers_own_request {
            return false;
        }
        mark(&mut self.checks, EndpointPair { local, remote: source }, request);
        request
    }

    /// The nomination this side makes, if it is due: when it controls, has
    /// neither a nominated nor a pending pair, has material and some pair
    /// was checked both ways. The chosen pair becomes pending.
    pub fn maybe_nominate(&mut self, controlling: bool, local_candidates: &Vec<Candidate>) -> (r: Option<(u128, EndpointPair)>)
        ensures
            (!controlling || old(self).nominated is Some || old(self).pending_nomination is Some || old(self).material is None
                || (forall|i: int| 0 <= i < old(self).checks@.len() ==> !spec_eligible(#[trigger] old(self).checks@[i])))
                <==> r is None,
            r matches Some((id, pair)) ==> id == old(self).material->0.id
                && final(self).pending_nomination == Some(pair)
                && (exists|i: int| 0 <= i < old(self).checks@.len() && spec_eligible(#[trigger] old(self).checks@[i]) && old(self).checks@[i].pair == pair)
                && (forall|i: int| 0 <= i < old(self).checks@.len() && spec_eligible(#[trigger] old(self).checks@[i]) && old(self).checks@[i].pair != pair
                    ==> pair_below(local_candidates@, old(self).remote_candidates@, old(self).checks@[i].pair, pair)),
            r is None ==> final(self).pending_nomination == old(self).pending_nomination,
            final(self).material == old(self).material,
            final(self).remote_candidates@ == old(self).remote_candidates@,
            final(self).checks@ == old(self).checks@,
            final(self).nominated == old(self).nominated,
            final(self).next_heartbeat_id == old(self).next_heartbeat_id,
            final(self).checking_since == old(self).checking_since,
    {
        if !controlling || self.nominated.is_some() || self.pending_nomination.is_some() {
            return None;
        }
        let m = match self.material {
            Some(m) => m,
            None => return None,
        };
        match select_candidate_pair(&self.checks, local_candidates, &self.remote_candidates) {
            Some(pair) => {
                self.pending_nomination = Some(pair);
                Some((m.id, pair))
            },
            None => None,
        }
    }

    /// Takes in a heartbeat that arrived on `local` from `source`: it
    /// counts when it is addressed here, comes over the nominated pair and
    /// carries the path's material, and the path is then heard of at `now`.
    /// A request is answered (the result is true).
    pub fn on_heartbeat(&mut self, addressed_here: bool, material: PathMaterial, local: LanEndpoint, source: LanEndpoint, request: bool, now: u64) -> (respond: bool)
        ensures
            ({
                let valid = addressed_here && old(self).nominated is Some && old(self).nominated->0.pair.local == local
                    && old(self).nominated->0.pair.remote == source && old(self).material == Some(material);
                &&& respond == (valid && request)
                &&& final(self).nominated == (if valid {
                    Some(Nominated { last_seen: now, ..old(self).nominated->0 })
                } else {
                    old(self).nominated
                })
            }),
            final(self).material == old(self).material,
            final(self).remote_candidates@ == old(self).remote_candidates@,
            final(self).checks@ == old(self).checks@,
            final(self).pending_nomination == old(self).pending_nomination,
            final(self).next_heartbeat_id == old(self).next_heartbeat_id,
            final(self).checking_since == old(self).checking_since,
    {
        let n = match self.nominated {
            Some(n) => n,
            None => return false,
        };
        let same_material = match self.material {
            Some(m) => m == material,
            None => false,
        };
        if !addressed_here || n.pair.local != local || n.pair.remote != source || !same_material {
            return false;
        }
        self.nominated = Some(Nominated { pair: n.pair, last_seen: now });
        request
    }

    /// One tick of maintenance at `now`. Without a nominated pair: repeat a
    /// pending nomination, and check again while there is material and a
    /// remote candidate. A nominated pair unheard of for the liveness
    /// timeout is dropped with the checks, and checking starts over. Else a
    /// heartbeat is due (ids wrap from the largest back to 1).
    pub fn tick(&mut self, now: u64) -> (t: PathTick)
        ensures
            match old(self).nominated {
                None => {
                    let repeat = old(self).material is Some && old(self).pending_nomination is Some;
                    let recheck = old(self).material is Some && old(self).remote_candidates@.len() > 0;
                    &&& t == (if repeat && recheck {
                        PathTick::RepeatNominationAndRecheck { path_id: old(self).material->0.id, pair: old(self).pending_nomination->0 }
                    } else if repeat {
                        PathTick::RepeatNomination { path_id: old(self).material->0.id, pair: old(self).pending_nomination->0 }
                    } else if recheck {
                        PathTick::Recheck
                    } else {
                        PathTick::Idle
                    })
                    &&& final(self).checks@ == old(self).checks@
                    &&& final(self).nominated == old(self).nominated
                    &&& final(self).pending_nomination == old(self).pending_nomination
                    &&& final(self).next_heartbeat_id == old(self).next_heartbeat_id
                    &&& final(self).checking_since == old(self).checking_since
                },
                Some(n) => if now >= n.last_seen && now - n.last_seen >= PATH_LIVENESS_TIMEOUT_MILLIS {
                    &&& t == PathTick::Lost
                    &&& final(self).checks@.len() == 0
                    &&& final(self).nominated is None
                    &&& final(self).pending_nomination is None
                    &&& final(self).next_heartbeat_id == old(self).next_heartbeat_id
                    &&& final(self).checking_since == now
                } else if old(self).material is None {
                    &&& t == PathTick::Idle
                    &&& final(self).checks@ == old(self).checks@
                    &&& final(self).nominated == old(self).nominated
                    &&& final(self).pending_nomination == old(self).pending_nomination
                    &&& final(self).next_heartbeat_id == old(self).next_heartbeat_id
                    &&& final(self).checking_since == old(self).checking_since
                } else {
                    &&& t == (PathTick::Heartbeat { id: old(self).next_heartbeat_id, pair: n.pair })
                    &&& final(self).next_heartbeat_id == (if old(self).next_heartbeat_id == u64::MAX { 1 } else { (old(self).next_heartbeat_id + 1) as u64 })
                    &&& final(self).checks@ == old(self).checks@
                    &&& final(self).nominated == old(self).nominated
                    &&& final(self).pending_nomination == old(self).pending_nomination
                    &&& final(self).checking_since == old(self).checking_since
                },
            },
            final(self).material == old(self).material,
            final(self).remote_candidates@ == old(self).remote_candidates@,
    {
        match self.nominated {
            None => {
                let repeat = self.material.is_some() && self.pending_nomination.is_some();
                let recheck = self.material.is_some() && self.remote_candidates.len() > 0;
                if repeat {
                    let id = match self.material {
                        Some(m) => m.id,
                        None => 0,
                    };
                    let pair = match self.pending_nomination {
                        Some(p) => p,
                        None => EndpointPair { local: LanEndpoint::V4 { address: 0, port: 0 }, remote: LanEndpoint::V4 { address: 0, port: 0 } },
                    };
                    if recheck {
                        PathTick::RepeatNominationAndRecheck { path_id: id, pair }
                    } else {
                        PathTick::RepeatNomination { path_id: id, pair }
                    }
                } else if recheck {
                    PathTick::Recheck
                } else {
                    PathTick::Idle
                }
            },
            Some(n) => {
                if now >= n.last_seen && now - n.last_seen >= PATH_LIVENESS_TIMEOUT_MILLIS {
                    self.nominated = None;
                    self.pending_nomination = None;
                    self.checks = Vec::new();
                    self.checking_since = now;
                    PathTick::Lost
                } else if self.material.is_none() {
                    PathTick::Idle
                } else {
                    let id = self.next_heartbeat_id;
                    self.next_heartbeat_id = match self.next_heartbeat_id.checked_add(1) {
                        Some(x) => x,
                        None => 1,
                    };
                    PathTick::Heartbeat { id, pair: n.pair }
                }
            },
        }
    }

    /// How the path is reported at `now`: usable with a nominated pair, else
    /// checking, or unavailable once checking has lasted too long.
    pub fn status(&self, now: u64) -> (s: LanPeerPathStatus)
        ensures
            s == (if self.nominated is Some {
                LanPeerPathStatus::Usable
            } else if now >= self.checking_since && now - self.checking_since >= PATH_UNAVAILABLE_AFTER_MILLIS {
                LanPeerPathStatus::Unavailable
            } else {
                LanPeerPathStatus::Checking
            }),
    {
        if self.nominated.is_some() {
            LanPeerPathStatus::Usable
        } else if now >= self.checking_since && now - self.checking_since >= PATH_UNAVAILABLE_AFTER_MILLIS {
            LanPeerPathStatus::Unavailable
        } else {
            LanPeerPathStatus::Checking
        }
    }
}

/// A pair checked both ways stays so when further checks of it arrive.
pub proof fn law_checked_pair_stays_checked(checks: Seq<CheckEntry>, pair: EndpointPair)
    requires
        spec_check_of(checks, pair) == Some(CheckState { request_seen: true, response_seen: true }),
    ensures
        spec_check_of(spec_mark(checks, pair, true), pair) == spec_check_of(checks, pair),
        spec_check_of(spec_mark(checks, pair, false), pair) == spec_check_of(checks, pair),
{
    lemma_mark_check_of(checks, pair, true);
    lemma_mark_check_of(checks, pair, false);
}

proof fn lemma_mark_check_of(checks: Seq<CheckEntry>, pair: EndpointPair, request: bool)
    requires
        spec_check_of(checks, pair) is Some,
    ensures
        spec_check_of(spec_mark(checks, pair, request), pair) == Some(if request {
            CheckState { request_seen: true, ..spec_check_of(checks, pair)->0 }
        } else {
            CheckState { response_seen: true, ..spec_check_of(checks, pair)->0 }
        }),
    decreases checks.len(),
{
    let m = spec_mark(checks, pair, request);
    let t = checks.drop_last();
    if checks.last().pair == pair {
        assert(m.last() == CheckEntry { pair, state: if request {
            CheckState { request_seen: true, ..checks.last().state }
        } else {
            CheckState { response_seen: true, ..checks.last().state }
        } });
    } else {
        lemma_mark_check_of(t, pair, request);
        assert(m.drop_last() =~= spec_mark(t, pair, request));
    }
}

} // verus!
