//! Who is in a LAN room: the links to other peers, the peers heard of, the
//! dials under way and the peers awaited back after a lost link. A peer is
//! known by its Steam id and process instance; one Steam account has at most
//! one link, and between two links to one peer the one with the smaller key
//! wins.

use vstd::prelude::*;

verus! {

/// Milliseconds a peer whose link was lost is awaited back.
pub const PEER_RECOVERY_HORIZON_MILLIS: u64 = 120_000;

/// A peer: its Steam id and its process instance id as a number.
#[derive(Clone, Copy, Debug, PartialEq, Eq, Structural)]
pub struct PeerId {
    pub steam_id64: u64,
    pub instance: u128,
}

/// The key of a link: its id (its bytes as a big-endian number), then the
/// peer that opened it.
#[derive(Clone, Copy, Debug, PartialEq, Eq, Structural)]
pub struct LinkKey {
    pub link_id: u128,
    pub initiator: PeerId,
}

/// `a` orders at or before `b`: by link id, then the initiator's Steam id,
/// then its instance.
pub open spec fn key_le(a: LinkKey, b: LinkKey) -> bool {
    ||| a.link_id < b.link_id
    ||| a.link_id == b.link_id && a.initiator.steam_id64 < b.initiator.steam_id64
    ||| a.link_id == b.link_id && a.initiator.steam_id64 == b.initiator.steam_id64
        && a.initiator.instance <= b.initiator.instance
}

/// Whether `a` orders at or before `b`.
pub fn key_at_or_before(a: LinkKey, b: LinkKey) -> (r: bool)
    ensures
        r == key_le(a, b),
{
    a.link_id < b.link_id || (a.link_id == b.link_id && (a.initiator.steam_id64 < b.initiator.steam_id64
        || (a.initiator.steam_id64 == b.initiator.steam_id64 && a.initiator.instance <= b.initiator.instance)))
}

/// A registered link: the peer, the link's key and the lifecycle epoch it
/// was given.
#[derive(Clone, Copy, Debug, PartialEq, Eq, Structural)]
pub struct ActiveLink {
    pub peer: PeerId,
    pub key: LinkKey,
    pub epoch: u64,
}

/// A peer awaited back until `deadline`.
#[derive(Clone, Copy, Debug, PartialEq, Eq, Structural)]
pub struct RecoveryDeadline {
    pub peer: PeerId,
    pub deadline: u64,
}

/// The membership of a room as seen by the local peer.
pub struct Membership {
    pub local: PeerId,
    pub active: Vec<ActiveLink>,
    pub hints: Vec<PeerId>,
    pub dialing: Vec<PeerId>,
    pub recovering: Vec<RecoveryDeadline>,
    pub next_epoch: Option<u64>,
}

/// A membership as values.
pub type MembershipView = (PeerId, Seq<ActiveLink>, Seq<PeerId>, Seq<PeerId>, Seq<RecoveryDeadline>, Option<u64>);

impl View for Membership {
    type V = MembershipView;

    open spec fn view(&self) -> MembershipView {
        (self.local, self.active@, self.hints@, self.dialing@, self.recovering@, self.next_epoch)
    }
}

/// No peer has two links.
pub open spec fn spec_links_distinct(s: Seq<ActiveLink>) -> bool {
    forall|i: int, j: int| 0 <= i < j < s.len() ==> #[trigger] s[i].peer != #[trigger] s[j].peer
}

/// The link to `p`, if there is one (the last, were there several).
pub open spec fn spec_link_of(s: Seq<ActiveLink>, p: PeerId) -> Option<ActiveLink>
    decreases s.len(),
{
    if s.len() == 0 {
        None
    } else if s.last().peer == p {
        Some(s.last())
    } else {
        spec_link_of(s.drop_last(), p)
    }
}

/// The links but the one to `p`.
pub open spec fn spec_links_without(s: Seq<ActiveLink>, p: PeerId) -> Seq<ActiveLink>
    decreases s.len(),
{
    if s.len() == 0 {
        s
    } else if s.last().peer == p {
        spec_links_without(s.drop_last(), p)
    } else {
        spec_links_without(s.drop_last(), p).push(s.last())
    }
}

/// The peers but `p`.
pub open spec fn spec_peers_without(s: Seq<PeerId>, p: PeerId) -> Seq<PeerId>
    decreases s.len(),
{
    if s.len() == 0 {
        s
    } else if s.last() == p {
        spec_peers_without(s.drop_last(), p)
    } else {
        spec_peers_without(s.drop_last(), p).push(s.last())
    }
}

/// The peers of another Steam account than `steam`.
pub open spec fn spec_other_accounts(s: Seq<PeerId>, steam: u64) -> Seq<PeerId>
    decreases s.len(),
{
    if s.len() == 0 {
        s
    } else if s.last().steam_id64 == steam {
        spec_other_accounts(s.drop_last(), steam)
    } else {
        spec_other_accounts(s.drop_last(), steam).push(s.last())
    }
}

/// The recovery deadlines but the one of `p`.
pub open spec fn spec_deadlines_without(s: Seq<RecoveryDeadline>, p: PeerId) -> Seq<RecoveryDeadline>
    decreases s.len(),
{
    if s.len() == 0 {
        s
    } else if s.last().peer == p {
        spec_deadlines_without(s.drop_last(), p)
    } else {
        spec_deadlines_without(s.drop_last(), p).push(s.last())
    }
}

/// Another peer of the same Steam account as `p` has a link.
pub open spec fn spec_account_clash(s: Seq<ActiveLink>, p: PeerId) -> bool {
    exists|i: int| 0 <= i < s.len() && #[trigger] s[i].peer.steam_id64 == p.steam_id64 && s[i].peer != p
}

/// The answer to registering a link.
#[derive(Clone, Copy, Debug, PartialEq, Eq, Structural)]
pub enum RegisterResult {
    /// The link is registered with `epoch`; `replaced` is the link it
    /// replaces, which the caller closes.
    Accepted { replaced: Option<ActiveLink>, epoch: u64 },
    /// The peer already has a link whose key orders at or before this one.
    DuplicateLost,
    /// Another instance of the same Steam account has a link.
    DuplicateSteamIdentity,
    /// The link leads to the local peer or its Steam account.
    SelfConnection,
    /// Every lifecycle epoch has been given out.
    LifecycleExhausted,
}

/// The result of registering a link to `p` with `key`, and the membership
/// after it. An accepted link takes the next epoch, replaces the peer's
/// former link, becomes the only hint of its Steam account, and ends any
/// dial to or wait for the peer.
pub open spec fn spec_register(v: MembershipView, p: PeerId, key: LinkKey) -> (MembershipView, RegisterResult) {
    let (local, active, hints, dialing, recovering, next) = v;
    if p == local || p.steam_id64 == local.steam_id64 {
        (v, RegisterResult::SelfConnection)
    } else if spec_account_clash(active, p) {
        (v, RegisterResult::DuplicateSteamIdentity)
    } else if spec_link_of(active, p) matches Some(existing) && key_le(existing.key, key) {
        (v, RegisterResult::DuplicateLost)
    } else if next is None {
        (v, RegisterResult::LifecycleExhausted)
    } else {
        let epoch = next->0;
        (
            (
                local,
                spec_links_without(active, p).push(ActiveLink { peer: p, key, epoch }),
                spec_other_accounts(hints, p.steam_id64).push(p),
                spec_peers_without(dialing, p),
                spec_deadlines_without(recovering, p),
                if epoch == u64::MAX { None } else { Some((epoch + 1) as u64) },
            ),
            RegisterResult::Accepted { replaced: spec_link_of(active, p), epoch },
        )
    }
}

fn link_of(s: &Vec<ActiveLink>, p: PeerId) -> (r: Option<ActiveLink>)
    ensures
        r == spec_link_of(s@, p),
{
    let mut found: Option<ActiveLink> = None;
    let mut i: usize = 0;
    while i < s.len()
        invariant
            i <= s@.len(),
            found == spec_link_of(s@.take(i as int), p),
        decreases s@.len() - i,
    {
        proof {
            assert(s@.take(i + 1).drop_last() == s@.take(i as int));
        }
        if s[i].peer == p {
            found = Some(s[i]);
        }
        i = i + 1;
    }
    proof {
        assert(s@.take(s@.len() as int) == s@);
    }
    found
}

fn links_without(s: &Vec<ActiveLink>, p: PeerId) -> (out: Vec<ActiveLink>)
    ensures
        out@ == spec_links_without(s@, p),
{
    let mut out: Vec<ActiveLink> = Vec::new();
    let mut i: usize = 0;
    while i < s.len()
        invariant
            i <= s@.len(),
            out@ == spec_links_without(s@.take(i as int), p),
        decreases s@.len() - i,
    {
        proof {
            assert(s@.take(i + 1).drop_last() == s@.take(i as int));
        }
        if s[i].peer != p {
            out.push(s[i]);
        }
        i = i + 1;
    }
    proof {
        assert(s@.take(s@.len() as int) == s@);
    }
    out
}

fn peers_without(s: &Vec<PeerId>, p: PeerId) -> (out: Vec<PeerId>)
    ensures
        out@ == spec_peers_without(s@, p),
{
    let mut out: Vec<PeerId> = Vec::new();
    let mut i: usize = 0;
    while i < s.len()
        invariant
            i <= s@.len(),
            out@ == spec_peers_without(s@.take(i as int), p),
        decreases s@.len() - i,
    {
        proof {
            assert(s@.take(i + 1).drop_last() == s@.take(i as int));
        }
        if s[i] != p {
            out.push(s[i]);
        }
        i = i + 1;
    }
    proof {
        assert(s@.take(s@.len() as int) == s@);
    }
    out
}

fn other_accounts(s: &Vec<PeerId>, steam: u64) -> (out: Vec<PeerId>)
    ensures
        out@ == spec_other_accounts(s@, steam),
{
    let mut out: Vec<PeerId> = Vec::new();
    let mut i: usize = 0;
    while i < s.len()
        invariant
            i <= s@.len(),
            out@ == spec_other_accounts(s@.take(i as int), steam),
        decreases s@.len() - i,
    {
        proof {
            assert(s@.take(i + 1).drop_last() == s@.take(i as int));
        }
        if s[i].steam_id64 != steam {
            out.push(s[i]);
        }
        i = i + 1;
    }
    proof {
        assert(s@.take(s@.len() as int) == s@);
    }
    out
}

fn deadlines_without(s: &Vec<RecoveryDeadline>, p: PeerId) -> (out: Vec<RecoveryDeadline>)
    ensures
        out@ == spec_deadlines_without(s@, p),
{
    let mut out: Vec<RecoveryDeadline> = Vec::new();
    let mut i: usize = 0;
    while i < s.len()
        invariant
            i <= s@.len(),
            out@ == spec_deadlines_without(s@.take(i as int), p),
        decreases s@.len() - i,
    {
        proof {
            assert(s@.take(i + 1).drop_last() == s@.take(i as int));
        }
        if s[i].peer != p {
            out.push(s[i]);
        }
        i = i + 1;
    }
    proof {
        assert(s@.take(s@.len() as int) == s@);
    }
    out
}

fn account_clash(s: &Vec<ActiveLink>, p: PeerId) -> (r: bool)
    ensures
        r == spec_account_clash(s@, p),
{
    let mut i: usize = 0;
    while i < s.len()
        invariant
            i <= s@.len(),
            forall|k: int| 0 <= k < i ==> !(#[trigger] s@[k].peer.steam_id64 == p.steam_id64 && s@[k].peer != p),
        decreases s@.len() - i,
    {
        if s[i].peer.steam_id64 == p.steam_id64 && s[i].peer != p {
            proof {
                assert(s@[i as int].peer.steam_id64 == p.steam_id64);
            }
            return true;
        }
        i = i + 1;
    }
    false
}

proof fn lemma_links_without_subset(s: Seq<ActiveLink>, p: PeerId)
    ensures
        forall|k: int| 0 <= k < spec_links_without(s, p).len() ==>
            s.contains(#[trigger] spec_links_without(s, p)[k]) && spec_links_without(s, p)[k].peer != p,
    decreases s.len(),
{
    if s.len() > 0 {
        lemma_links_without_subset(s.drop_last(), p);
        let w = spec_links_without(s.drop_last(), p);
        assert forall|k: int| 0 <= k < spec_links_without(s, p).len() implies
            s.contains(#[trigger] spec_links_without(s, p)[k]) && spec_links_without(s, p)[k].peer != p by {
            if k < w.len() {
                assert(spec_links_without(s, p)[k] == w[k]);
                assert(s.drop_last().contains(w[k]));
                let j = choose|j: int| 0 <= j < s.drop_last().len() && s.drop_last()[j] == w[k];
                assert(s[j] == w[k]);
            } else {
                assert(s[s.len() - 1] == s.last());
            }
        }
    }
}

proof fn lemma_links_without_distinct(s: Seq<ActiveLink>, p: PeerId)
    requires
        spec_links_distinct(s),
    ensures
        spec_links_distinct(spec_links_without(s, p)),
    decreases s.len(),
{
    if s.len() > 0 {
        let t = s.drop_last();
        assert(spec_links_distinct(t)) by {
            assert forall|i: int, j: int| 0 <= i < j < t.len() implies #[trigger] t[i].peer != #[trigger] t[j].peer by {
                assert(t[i] == s[i] && t[j] == s[j]);
            }
        }
        lemma_links_without_distinct(t, p);
        lemma_links_without_subset(t, p);
        let w = spec_links_without(t, p);
        if s.last().peer != p {
            let x = s.last();
            assert forall|i: int, j: int| 0 <= i < j < w.push(x).len() implies #[trigger] w.push(x)[i].peer != #[trigger] w.push(x)[j].peer by {
                if j == w.len() {
                    assert(t.contains(w[i]));
                    let m = choose|m: int| 0 <= m < t.len() && t[m] == w[i];
                    assert(s[m] == t[m]);
                    assert(s[s.len() - 1] == x);
                }
            }
        }
    }
}

impl Membership {
    /// A room with the local peer alone, the first epoch to give out 1.
    pub fn new(local: PeerId) -> (m: Membership)
        ensures
            m@ == (local, Seq::<ActiveLink>::empty(), Seq::<PeerId>::empty(), Seq::<PeerId>::empty(),
                Seq::<RecoveryDeadline>::empty(), Some(1u64)),
    {
        Membership {
            local,
            active: Vec::new(),
            hints: Vec::new(),
            dialing: Vec::new(),
            recovering: Vec::new(),
            next_epoch: Some(1),
        }
    }

    /// Registers a link to `p` with `key`; see `spec_register`.
    pub fn register(&mut self, p: PeerId, key: LinkKey) -> (r: RegisterResult)
        requires
            spec_links_distinct(old(self).active@),
        ensures
            (final(self)@, r) == spec_register(old(self)@, p, key),
            spec_links_distinct(final(self).active@),
    {
        if p == self.local || p.steam_id64 == self.local.steam_id64 {
            return RegisterResult::SelfConnection;
        }
        if account_clash(&self.active, p) {
            return RegisterResult::DuplicateSteamIdentity;
        }
        let existing = link_of(&self.active, p);
        match existing {
            Some(e) => {
                if key_at_or_before(e.key, key) {
                    return RegisterResult::DuplicateLost;
                }
            },
            None => {},
        }
        let epoch = match self.next_epoch {
            Some(e) => e,
            None => return RegisterResult::LifecycleExhausted,
        };
        self.next_epoch = epoch.checked_add(1);
        let mut active = links_without(&self.active, p);
        proof {
            lemma_links_without_distinct(self.active@, p);
            lemma_links_without_subset(self.active@, p);
        }
        active.push(ActiveLink { peer: p, key, epoch });
        proof {
            let w = spec_links_without(self.active@, p);
            assert forall|i: int, j: int| 0 <= i < j < active@.len() implies #[trigger] active@[i].peer != #[trigger] active@[j].peer by {
                if j == w.len() {
                    assert(active@[i] == w[i]);
                }
            }
        }
        self.active = active;
        let mut hints = other_accounts(&self.hints, p.steam_id64);
        hints.push(p);
        self.hints = hints;
        self.dialing = peers_without(&self.dialing, p);
        self.recovering = deadlines_without(&self.recovering, p);
        RegisterResult::Accepted { replaced: existing, epoch }
    }

    /// Whether the link to `p` is the one with `key`.
    pub fn is_active_link(&self, p: PeerId, key: LinkKey) -> (r: bool)
        ensures
            r == (spec_link_of(self.active@, p) matches Some(l) && l.key == key),
    {
        match link_of(&self.active, p) {
            Some(l) => l.key == key,
            None => false,
        }
    }
}

/// The peers whose recovery deadline has passed at `now`.
pub open spec fn spec_expired(recovering: Seq<RecoveryDeadline>, p: PeerId, now: u64) -> bool {
    exists|i: int| 0 <= i < recovering.len() && #[trigger] recovering[i].peer == p && recovering[i].deadline <= now
}

/// The peers not expired at `now`.
pub open spec fn spec_unexpired_peers(s: Seq<PeerId>, recovering: Seq<RecoveryDeadline>, now: u64) -> Seq<PeerId>
    decreases s.len(),
{
    if s.len() == 0 {
        s
    } else if spec_expired(recovering, s.last(), now) {
        spec_unexpired_peers(s.drop_last(), recovering, now)
    } else {
        spec_unexpired_peers(s.drop_last(), recovering, now).push(s.last())
    }
}

/// The deadlines still ahead at `now`.
pub open spec fn spec_pending_deadlines(s: Seq<RecoveryDeadline>, now: u64) -> Seq<RecoveryDeadline>
    decreases s.len(),
{
    if s.len() == 0 {
        s
    } else if s.last().deadline <= now {
        spec_pending_deadlines(s.drop_last(), now)
    } else {
        spec_pending_deadlines(s.drop_last(), now).push(s.last())
    }
}

fn expired(recovering: &Vec<RecoveryDeadline>, p: PeerId, now: u64) -> (r: bool)
    ensures
        r == spec_expired(recovering@, p, now),
{
    let mut i: usize = 0;
    while i < recovering.len()
        invariant
            i <= recovering@.len(),
            forall|k: int| 0 <= k < i ==> !(#[trigger] recovering@[k].peer == p && recovering@[k].deadline <= now),
        decreases recovering@.len() - i,
    {
        if recovering[i].peer == p && recovering[i].deadline <= now {
            proof {
                assert(recovering@[i as int].peer == p);
            }
            return true;
        }
        i = i + 1;
    }
    false
}

fn unexpired_peers(s: &Vec<PeerId>, recovering: &Vec<RecoveryDeadline>, now: u64) -> (out: Vec<PeerId>)
    ensures
        out@ == spec_unexpired_peers(s@, recovering@, now),
{
    let mut out: Vec<PeerId> = Vec::new();
    let mut i: usize = 0;
    while i < s.len()
        invariant
            i <= s@.len(),
            out@ == spec_unexpired_peers(s@.take(i as int), recovering@, now),
        decreases s@.len() - i,
    {
        proof {
            assert(s@.take(i + 1).drop_last() == s@.take(i as int));
        }
        if !expired(recovering, s[i], now) {
            out.push(s[i]);
        }
        i = i + 1;
    }
    proof {
        assert(s@.take(s@.len() as int) == s@);
    }
    out
}

fn pending_deadlines(s: &Vec<RecoveryDeadline>, now: u64) -> (out: Vec<RecoveryDeadline>)
    ensures
        out@ == spec_pending_deadlines(s@, now),
{
    let mut out: Vec<RecoveryDeadline> = Vec::new();
    let mut i: usize = 0;
    while i < s.len()
        invariant
            i <= s@.len(),
            out@ == spec_pending_deadlines(s@.take(i as int), now),
        decreases s@.len() - i,
    {
        proof {
            assert(s@.take(i + 1).drop_last() == s@.take(i as int));
        }
        if s[i].deadline > now {
            out.push(s[i]);
        }
        i = i + 1;
    }
    proof {
        assert(s@.take(s@.len() as int) == s@);
    }
    out
}

impl Membership {
    /// Removes the link to `p` if it is the one with `key`, and returns its
    /// epoch. A graceful removal forgets the peer's hint and recovery; an
    /// abrupt one awaits the peer back until `now` plus the recovery horizon.
    pub fn remove_link(&mut self, p: PeerId, key: LinkKey, graceful: bool, now: u64) -> (r: Option<u64>)
        requires
            now + PEER_RECOVERY_HORIZON_MILLIS <= u64::MAX,
        ensures
            match spec_link_of(old(self).active@, p) {
                Some(l) => if l.key == key {
                    &&& r == Some(l.epoch)
                    &&& final(self).active@ == spec_links_without(old(self).active@, p)
                    &&& final(self).hints@ == (if graceful { spec_peers_without(old(self).hints@, p) } else { old(self).hints@ })
                    &&& final(self).recovering@ == (if graceful {
                        spec_deadlines_without(old(self).recovering@, p)
                    } else {
                        spec_deadlines_without(old(self).recovering@, p).push(
                            RecoveryDeadline { peer: p, deadline: (now + PEER_RECOVERY_HORIZON_MILLIS) as u64 })
                    })
                } else {
                    r is None && final(self)@ == old(self)@
                },
                None => r is None && final(self)@ == old(self)@,
            },
            final(self).local == old(self).local,
            final(self).dialing@ == old(self).dialing@,
            final(self).next_epoch == old(self).next_epoch,
    {
        let l = match link_of(&self.active, p) {
            Some(l) => l,
            None => return None,
        };
        if l.key != key {
            return None;
        }
        self.active = links_without(&self.active, p);
        if graceful {
            self.hints = peers_without(&self.hints, p);
            self.recovering = deadlines_without(&self.recovering, p);
        } else {
            let mut recovering = deadlines_without(&self.recovering, p);
            recovering.push(RecoveryDeadline { peer: p, deadline: now + PEER_RECOVERY_HORIZON_MILLIS });
            self.recovering = recovering;
        }
        Some(l.epoch)
    }

    /// Forgets the peers whose recovery deadline passed by `now`: their
    /// deadline, hint and dial go.
    pub fn expire(&mut self, now: u64)
        ensures
            final(self).recovering@ == spec_pending_deadlines(old(self).recovering@, now),
            final(self).hints@ == spec_unexpired_peers(old(self).hints@, old(self).recovering@, now),
            final(self).dialing@ == spec_unexpired_peers(old(self).dialing@, old(self).recovering@, now),
            final(self).local == old(self).local,
            final(self).active@ == old(self).active@,
            final(self).next_epoch == old(self).next_epoch,
    {
        self.hints = unexpired_peers(&self.hints, &self.recovering, now);
        self.dialing = unexpired_peers(&self.dialing, &self.recovering, now);
        self.recovering = pending_deadlines(&self.recovering, now);
    }

    /// Whether `p` is awaited back.
    pub fn is_recovering(&self, p: PeerId) -> (r: bool)
        ensures
            r == (exists|i: int| 0 <= i < self.recovering@.len() && #[trigger] self.recovering@[i].peer == p),
    {
        let mut i: usize = 0;
        while i < self.recovering.len()
            invariant
                i <= self.recovering@.len(),
                forall|k: int| 0 <= k < i ==> self.recovering@[k].peer != p,
            decreases self.recovering@.len() - i,
        {
            if self.recovering[i].peer == p {
                return true;
            }
            i = i + 1;
        }
        false
    }
}


/// `a` orders before `b`: by Steam id, then instance.
pub open spec fn peer_lt(a: PeerId, b: PeerId) -> bool {
    a.steam_id64 < b.steam_id64 || (a.steam_id64 == b.steam_id64 && a.instance < b.instance)
}

fn peer_before(a: PeerId, b: PeerId) -> (r: bool)
    ensures
        r == peer_lt(a, b),
{
    a.steam_id64 < b.steam_id64 || (a.steam_id64 == b.steam_id64 && a.instance < b.instance)
}

/// Every peer the local one knows of: itself, its links and its hints.
pub open spec fn spec_known(v: MembershipView) -> Seq<PeerId> {
    seq![v.0] + v.1.map_values(|l: ActiveLink| l.peer) + v.2
}

/// The hints that may be dialled again at `now`: no link, no dial under
/// way, and not awaited back past a deadline.
pub open spec fn spec_retry(hints: Seq<PeerId>, v: MembershipView, now: u64) -> Seq<PeerId>
    decreases hints.len(),
{
    if hints.len() == 0 {
        hints
    } else {
        let p = hints.last();
        let rest = spec_retry(hints.drop_last(), v, now);
        if spec_link_of(v.1, p) is None && !v.3.contains(p) && !spec_expired(v.4, p, now) {
            rest.push(p)
        } else {
            rest
        }
    }
}

fn contains_peer(s: &Vec<PeerId>, p: PeerId) -> (r: bool)
    ensures
        r == s@.contains(p),
{
    let mut i: usize = 0;
    while i < s.len()
        invariant
            i <= s@.len(),
            forall|k: int| 0 <= k < i ==> s@[k] != p,
        decreases s@.len() - i,
    {
        if s[i] == p {
            proof {
                assert(s@[i as int] == p);
            }
            return true;
        }
        i = i + 1;
    }
    false
}

/// The peers of `known`, each once, in identity order, at most `max` of
/// them (the first ones).
fn identity_order(known: &Vec<PeerId>, max: usize) -> (r: Vec<PeerId>)
    ensures
        r@.len() <= max,
        forall|i: int, j: int| 0 <= i < j < r@.len() ==> peer_lt(#[trigger] r@[i], #[trigger] r@[j]),
        forall|i: int| 0 <= i < r@.len() ==> known@.contains(#[trigger] r@[i]),
        forall|k: int| 0 <= k < known@.len() ==> r@.contains(#[trigger] known@[k])
            || (r@.len() == max && (max == 0 || peer_lt(r@[r@.len() - 1], known@[k]))),
{
    let mut out: Vec<PeerId> = Vec::new();
    while out.len() < max
        invariant
            out@.len() <= max,
            forall|i: int, j: int| 0 <= i < j < out@.len() ==> peer_lt(#[trigger] out@[i], #[trigger] out@[j]),
            forall|i: int| 0 <= i < out@.len() ==> known@.contains(#[trigger] out@[i]),
            out@.len() > 0 ==> forall|k: int| 0 <= k < known@.len() && !peer_lt(out@[out@.len() - 1], #[trigger] known@[k])
                ==> out@.contains(known@[k]),
        decreases max - out@.len(),
    {
        let mut best: Option<PeerId> = None;
        let mut k: usize = 0;
        while k < known.len()
            invariant
                k <= known@.len(),
                out@.len() < max,
                best matches Some(b) ==> known@.contains(b) && (out@.len() == 0 || peer_lt(out@[out@.len() - 1], b)),
                best matches Some(b) ==> forall|m: int| 0 <= m < k && (out@.len() == 0 || peer_lt(out@[out@.len() - 1], #[trigger] known@[m]))
                    ==> !peer_lt(known@[m], b),
                best is None ==> forall|m: int| 0 <= m < k ==> !(out@.len() == 0 || peer_lt(out@[out@.len() - 1], #[trigger] known@[m])),
            decreases known@.len() - k,
        {
            let x = known[k];
            let above = out.len() == 0 || peer_before(out[out.len() - 1], x);
            if above {
                let better = match best {
                    None => true,
                    Some(b) => peer_before(x, b),
                };
                if better {
                    proof {
                        assert(known@[k as int] == x);
                    }
                    best = Some(x);
                }
            }
            k = k + 1;
        }
        match best {
            None => {
                proof {
                    assert forall|m: int| 0 <= m < known@.len() implies #[trigger] out@.contains(known@[m])
                        || (out@.len() == max && (max == 0 || peer_lt(out@[out@.len() - 1], known@[m]))) by {
                    }
                }
                return out;
            },
            Some(b) => {
                let ghost before = out@;
                out.push(b);
                proof {
                    assert forall|m: int| 0 <= m < known@.len() && !peer_lt(out@[out@.len() - 1], #[trigger] known@[m])
                        implies out@.contains(known@[m]) by {
                        let u = known@[m];
                        if before.len() > 0 && !peer_lt(before[before.len() - 1], u) {
                            assert(before.contains(u));
                            let w = choose|w: int| 0 <= w < before.len() && before[w] == u;
                            assert(out@[w] == u);
                        } else {
                            assert(!peer_lt(u, b));
                            assert(u == b);
                            assert(out@[out@.len() - 1] == u);
                        }
                    }
                    assert forall|i: int| 0 <= i < out@.len() implies known@.contains(#[trigger] out@[i]) by {
                        if i < before.len() {
                            assert(out@[i] == before[i]);
                        }
                    }
                }
            },
        }
    }
    proof {
        assert forall|m: int| 0 <= m < known@.len() implies #[trigger] out@.contains(known@[m])
            || (out@.len() == max && (max == 0 || peer_lt(out@[out@.len() - 1], known@[m]))) by {
            if out@.len() > 0 && !peer_lt(out@[out@.len() - 1], known@[m]) {
            }
        }
    }
    out
}

proof fn lemma_sorted_covers(r: Seq<PeerId>, known: Seq<PeerId>)
    requires
        forall|i: int, j: int| 0 <= i < j < r.len() ==> peer_lt(#[trigger] r[i], #[trigger] r[j]),
        forall|i: int| 0 <= i < r.len() ==> known.contains(#[trigger] r[i]),
        r.len() == known.len(),
    ensures
        forall|k: int| 0 <= k < known.len() ==> r.contains(#[trigger] known[k]),
{
    broadcast use vstd::seq_lib::seq_to_set_is_finite;
    assert(r.no_duplicates()) by {
        assert forall|i: int, j: int| 0 <= i < r.len() && 0 <= j < r.len() && i != j implies r[i] != r[j] by {
            if i < j {
                assert(peer_lt(r[i], r[j]));
            } else {
                assert(peer_lt(r[j], r[i]));
            }
        }
    }
    r.unique_seq_to_set();
    known.lemma_cardinality_of_set();
    assert forall|k: int| 0 <= k < known.len() implies r.contains(#[trigger] known[k]) by {
        if !r.contains(known[k]) {
            let big = known.to_set().remove(known[k]);
            assert(r.to_set().subset_of(big)) by {
                assert forall|x: PeerId| r.to_set().contains(x) implies big.contains(x) by {
                    let i = choose|i: int| 0 <= i < r.len() && r[i] == x;
                    assert(known.contains(r[i]));
                }
            }
            assert(known.to_set().contains(known[k]));
            vstd::set_lib::lemma_len_subset(r.to_set(), big);
        }
    }
}

/// The peers of `s`, each once, in identity order.
fn identity_order_all(s: &Vec<PeerId>) -> (r: Vec<PeerId>)
    ensures
        forall|i: int, j: int| 0 <= i < j < r@.len() ==> peer_lt(#[trigger] r@[i], #[trigger] r@[j]),
        forall|x: PeerId| r@.contains(x) <==> s@.contains(x),
{
    let r = identity_order(s, s.len());
    proof {
        if r@.len() == s@.len() {
            lemma_sorted_covers(r@, s@);
        }
        assert forall|x: PeerId| r@.contains(x) <==> s@.contains(x) by {
            if s@.contains(x) {
                let k = choose|k: int| 0 <= k < s@.len() && s@[k] == x;
                assert(r@.contains(s@[k]));
            }
            if r@.contains(x) {
                let i = choose|i: int| 0 <= i < r@.len() && r@[i] == x;
                assert(s@.contains(r@[i]));
            }
        }
    }
    r
}

impl Membership {
    /// Starts a dial to `p` unless it is the local peer, already linked or
    /// already being dialled; returns whether the dial starts.
    pub fn begin_dial(&mut self, p: PeerId) -> (r: bool)
        ensures
            r == (p != old(self).local && spec_link_of(old(self).active@, p) is None && !old(self).dialing@.contains(p)),
            final(self).dialing@ == (if r { old(self).dialing@.push(p) } else { old(self).dialing@ }),
            final(self).local == old(self).local,
            final(self).active@ == old(self).active@,
            final(self).hints@ == old(self).hints@,
            final(self).recovering@ == old(self).recovering@,
            final(self).next_epoch == old(self).next_epoch,
    {
        if p == self.local || link_of(&self.active, p).is_some() {
            return false;
        }
        if contains_peer(&self.dialing, p) {
            return false;
        }
        self.dialing.push(p);
        true
    }

    /// Ends a dial to `p`; a failed dial awaits the peer back until `now`
    /// plus the recovery horizon, unless a wait for it is already set.
    pub fn end_dial(&mut self, p: PeerId, failed: bool, now: u64)
        requires
            now + PEER_RECOVERY_HORIZON_MILLIS <= u64::MAX,
        ensures
            final(self).dialing@ == spec_peers_without(old(self).dialing@, p),
            final(self).recovering@ == (if failed && !(exists|i: int| 0 <= i < old(self).recovering@.len() && #[trigger] old(self).recovering@[i].peer == p) {
                old(self).recovering@.push(RecoveryDeadline { peer: p, deadline: (now + PEER_RECOVERY_HORIZON_MILLIS) as u64 })
            } else {
                old(self).recovering@
            }),
            final(self).local == old(self).local,
            final(self).active@ == old(self).active@,
            final(self).hints@ == old(self).hints@,
            final(self).next_epoch == old(self).next_epoch,
    {
        self.dialing = peers_without(&self.dialing, p);
        if failed && !self.is_recovering(p) {
            self.recovering.push(RecoveryDeadline { peer: p, deadline: now + PEER_RECOVERY_HORIZON_MILLIS });
        }
    }

    /// The hints to dial again at `now`, in identity order.
    pub fn retry_candidates(&self, now: u64) -> (r: Vec<PeerId>)
        ensures
            forall|i: int, j: int| 0 <= i < j < r@.len() ==> peer_lt(#[trigger] r@[i], #[trigger] r@[j]),
            forall|x: PeerId| r@.contains(x) <==> spec_retry(self.hints@, self@, now).contains(x),
    {
        let mut out: Vec<PeerId> = Vec::new();
        let mut i: usize = 0;
        while i < self.hints.len()
            invariant
                i <= self.hints@.len(),
                out@ == spec_retry(self.hints@.take(i as int), self@, now),
            decreases self.hints@.len() - i,
        {
            proof {
                assert(self.hints@.take(i + 1).drop_last() =~= self.hints@.take(i as int));
            }
            let p = self.hints[i];
            if link_of(&self.active, p).is_none() && !contains_peer(&self.dialing, p) && !expired(&self.recovering, p, now) {
                out.push(p);
            }
            i = i + 1;
        }
        proof {
            assert(self.hints@.take(self.hints@.len() as int) =~= self.hints@);
        }
        identity_order_all(&out)
    }

    /// The peers the local one has a link to, in identity order.
    pub fn connected_peers(&self) -> (r: Vec<PeerId>)
        ensures
            forall|i: int, j: int| 0 <= i < j < r@.len() ==> peer_lt(#[trigger] r@[i], #[trigger] r@[j]),
            forall|x: PeerId| r@.contains(x) <==> self.active@.map_values(|l: ActiveLink| l.peer).contains(x),
    {
        let mut peers: Vec<PeerId> = Vec::new();
        let mut i: usize = 0;
        while i < self.active.len()
            invariant
                i <= self.active@.len(),
                peers@ == self.active@.take(i as int).map_values(|l: ActiveLink| l.peer),
            decreases self.active@.len() - i,
        {
            peers.push(self.active[i].peer);
            i = i + 1;
            proof {
                assert(peers@ =~= self.active@.take(i as int).map_values(|l: ActiveLink| l.peer));
            }
        }
        proof {
            assert(self.active@.take(i as int) =~= self.active@);
        }
        identity_order_all(&peers)
    }

    /// The hinted peers without a link, in identity order.
    pub fn hinted_peers(&self) -> (r: Vec<PeerId>)
        ensures
            forall|i: int, j: int| 0 <= i < j < r@.len() ==> peer_lt(#[trigger] r@[i], #[trigger] r@[j]),
            forall|x: PeerId| r@.contains(x) <==> (self.hints@.contains(x) && spec_link_of(self.active@, x) is None),
    {
        let mut peers: Vec<PeerId> = Vec::new();
        let mut i: usize = 0;
        while i < self.hints.len()
            invariant
                i <= self.hints@.len(),
                forall|x: PeerId| peers@.contains(x) <==> (self.hints@.take(i as int).contains(x) && spec_link_of(self.active@, x) is None),
            decreases self.hints@.len() - i,
        {
            let p = self.hints[i];
            let ghost before = peers@;
            if link_of(&self.active, p).is_none() {
                peers.push(p);
            }
            proof {
                let t = self.hints@.take(i + 1);
                assert(t =~= self.hints@.take(i as int).push(p));
                assert forall|x: PeerId| peers@.contains(x) <==> (t.contains(x) && spec_link_of(self.active@, x) is None) by {
                    if peers@.contains(x) && x != p {
                        let k = choose|k: int| 0 <= k < peers@.len() && peers@[k] == x;
                        assert(before[k] == x);
                        assert(before.contains(x));
                    }
                    if t.contains(x) && spec_link_of(self.active@, x) is None && x != p {
                        let k = choose|k: int| 0 <= k < t.len() && t[k] == x;
                        assert(k < i);
                        assert(self.hints@.take(i as int)[k] == x);
                        assert(self.hints@.take(i as int).contains(x));
                        assert(before.contains(x));
                        let w = choose|w: int| 0 <= w < before.len() && before[w] == x;
                        assert(peers@[w] == x);
                    }
                    if x == p && spec_link_of(self.active@, x) is None {
                        assert(peers@[peers@.len() - 1] == p);
                        assert(t[i as int] == p);
                    }
                    if x == p && peers@.contains(x) && spec_link_of(self.active@, x) is Some {
                        let k = choose|k: int| 0 <= k < peers@.len() && peers@[k] == x;
                        assert(before[k] == x);
                        assert(before.contains(x));
                    }
                }
            }
            i = i + 1;
        }
        proof {
            assert(self.hints@.take(i as int) =~= self.hints@);
        }
        identity_order_all(&peers)
    }

    /// The peers of the room as a snapshot: the local peer, its links and
    /// its hints, each once, in identity order, at most `max_peers` of them
    /// (the first ones).
    pub fn snapshot(&self, max_peers: usize) -> (r: Vec<PeerId>)
        ensures
            r@.len() <= max_peers,
            forall|i: int, j: int| 0 <= i < j < r@.len() ==> peer_lt(#[trigger] r@[i], #[trigger] r@[j]),
            forall|i: int| 0 <= i < r@.len() ==> spec_known(self@).contains(#[trigger] r@[i]),
            forall|k: int| 0 <= k < spec_known(self@).len() ==> r@.contains(#[trigger] spec_known(self@)[k])
                || (r@.len() == max_peers && (max_peers == 0 || peer_lt(r@[r@.len() - 1], spec_known(self@)[k]))),
    {
        let mut known: Vec<PeerId> = Vec::new();
        known.push(self.local);
        let mut a: usize = 0;
        while a < self.active.len()
            invariant
                a <= self.active@.len(),
                known@ == seq![self.local] + self.active@.take(a as int).map_values(|l: ActiveLink| l.peer),
            decreases self.active@.len() - a,
        {
            known.push(self.active[a].peer);
            a = a + 1;
            proof {
                assert(known@ =~= seq![self.local] + self.active@.take(a as int).map_values(|l: ActiveLink| l.peer));
            }
        }
        let mut h: usize = 0;
        while h < self.hints.len()
            invariant
                h <= self.hints@.len(),
                a == self.active@.len(),
                known@ == seq![self.local] + self.active@.take(a as int).map_values(|l: ActiveLink| l.peer) + self.hints@.take(h as int),
            decreases self.hints@.len() - h,
        {
            known.push(self.hints[h]);
            h = h + 1;
            proof {
                assert(known@ =~= seq![self.local] + self.active@.take(a as int).map_values(|l: ActiveLink| l.peer) + self.hints@.take(h as int));
            }
        }
        proof {
            assert(self.active@.take(a as int) =~= self.active@);
            assert(self.hints@.take(h as int) =~= self.hints@);
            assert(known@ =~= spec_known(self@));
        }
        identity_order(&known, max_peers)
    }
}

/// A hinted peer that is not kept: the local peer or another instance of
/// its Steam account, a linked peer, or another instance of a linked Steam
/// account.
pub open spec fn spec_hint_refused(v: MembershipView, p: PeerId) -> bool {
    ||| p == v.0
    ||| p.steam_id64 == v.0.steam_id64
    ||| spec_link_of(v.1, p) is Some
    ||| spec_account_clash(v.1, p)
}

/// The hints once `peers` are taken in one by one, and the peers that were
/// new to them, in the order they came.
pub open spec fn spec_merge(v: MembershipView, peers: Seq<PeerId>) -> (Seq<PeerId>, Seq<PeerId>)
    decreases peers.len(),
{
    if peers.len() == 0 {
        (v.2, Seq::empty())
    } else {
        let (hints, found) = spec_merge(v, peers.drop_last());
        let p = peers.last();
        if spec_hint_refused(v, p) || hints.contains(p) {
            (hints, found)
        } else {
            (hints.push(p), found.push(p))
        }
    }
}

/// The greatest peer of `s`, in identity order, that has no link.
pub open spec fn spec_greatest_unlinked(s: Seq<PeerId>, active: Seq<ActiveLink>) -> Option<PeerId>
    decreases s.len(),
{
    if s.len() == 0 {
        None
    } else {
        let best = spec_greatest_unlinked(s.drop_last(), active);
        let p = s.last();
        if spec_link_of(active, p) is Some {
            best
        } else {
            match best {
                Some(b) => if peer_lt(b, p) { Some(p) } else { Some(b) },
                None => Some(p),
            }
        }
    }
}

/// The hints once the greatest unlinked one is dropped, again and again,
/// until they and the local peer fit in `max_peers` or every one left has a
/// link.
pub open spec fn spec_trim(s: Seq<PeerId>, active: Seq<ActiveLink>, max_peers: nat) -> Seq<PeerId>
    decreases s.len(),
{
    if s.len() + 1 <= max_peers {
        s
    } else {
        match spec_greatest_unlinked(s, active) {
            None => s,
            Some(x) => {
                proof {
                    lemma_greatest_unlinked(s, active);
                    lemma_peers_without_shorter(s, x);
                }
                spec_trim(spec_peers_without(s, x), active, max_peers)
            },
        }
    }
}

pub proof fn lemma_greatest_unlinked(s: Seq<PeerId>, active: Seq<ActiveLink>)
    ensures
        spec_greatest_unlinked(s, active) matches Some(x) ==> s.contains(x) && spec_link_of(active, x) is None
            && forall|i: int| 0 <= i < s.len() && spec_link_of(active, #[trigger] s[i]) is None ==> !peer_lt(x, s[i]),
        spec_greatest_unlinked(s, active) is None ==> forall|i: int| 0 <= i < s.len() ==> spec_link_of(active, #[trigger] s[i]) is Some,
    decreases s.len(),
{
    if s.len() > 0 {
        let t = s.drop_last();
        let p = s.last();
        lemma_greatest_unlinked(t, active);
        assert(s[s.len() - 1] == p);
        match spec_greatest_unlinked(s, active) {
            Some(x) => {
                if x != p {
                    let k = choose|k: int| 0 <= k < t.len() && t[k] == x;
                    assert(s[k] == x);
                }
                assert forall|i: int| 0 <= i < s.len() && spec_link_of(active, #[trigger] s[i]) is None implies !peer_lt(x, s[i]) by {
                    if i < s.len() - 1 {
                        assert(t[i] == s[i]);
                    }
                }
            },
            None => {
                assert forall|i: int| 0 <= i < s.len() implies spec_link_of(active, #[trigger] s[i]) is Some by {
                    if i < s.len() - 1 {
                        assert(t[i] == s[i]);
                    }
                }
            },
        }
    }
}

pub proof fn lemma_peers_without_shorter(s: Seq<PeerId>, p: PeerId)
    ensures
        spec_peers_without(s, p).len() <= s.len(),
        s.contains(p) ==> spec_peers_without(s, p).len() < s.len(),
    decreases s.len(),
{
    if s.len() > 0 {
        lemma_peers_without_shorter(s.drop_last(), p);
        if s.last() != p && s.contains(p) {
            let i = choose|i: int| 0 <= i < s.len() && s[i] == p;
            assert(i < s.len() - 1);
            assert(s.drop_last()[i] == p);
        }
    }
}

proof fn lemma_trim_fits(s: Seq<PeerId>, active: Seq<ActiveLink>, max_peers: nat)
    ensures
        spec_trim(s, active, max_peers).len() + 1 <= max_peers
            || forall|i: int| 0 <= i < spec_trim(s, active, max_peers).len()
                ==> spec_link_of(active, #[trigger] spec_trim(s, active, max_peers)[i]) is Some,
    decreases s.len(),
{
    if s.len() + 1 > max_peers {
        lemma_greatest_unlinked(s, active);
        if let Some(x) = spec_greatest_unlinked(s, active) {
            lemma_peers_without_shorter(s, x);
            lemma_trim_fits(spec_peers_without(s, x), active, max_peers);
        }
    }
}

fn greatest_unlinked(s: &Vec<PeerId>, active: &Vec<ActiveLink>) -> (r: Option<PeerId>)
    ensures
        r == spec_greatest_unlinked(s@, active@),
{
    let mut best: Option<PeerId> = None;
    let mut i: usize = 0;
    while i < s.len()
        invariant
            i <= s@.len(),
            best == spec_greatest_unlinked(s@.take(i as int), active@),
        decreases s@.len() - i,
    {
        proof {
            assert(s@.take(i + 1).drop_last() == s@.take(i as int));
        }
        let p = s[i];
        if link_of(active, p).is_none() {
            best = match best {
                Some(b) => if peer_before(b, p) { Some(p) } else { Some(b) },
                None => Some(p),
            };
        }
        i = i + 1;
    }
    proof {
        assert(s@.take(s@.len() as int) == s@);
    }
    best
}

impl Membership {
    /// Takes in the peers another peer knows of: each one that is not
    /// refused (see `spec_hint_refused`) becomes a hint, then the greatest
    /// unlinked hints are dropped until the hints and the local peer fit in
    /// `max_peers`. Returns the peers that were new hints.
    pub fn merge_hints(&mut self, peers: &Vec<PeerId>, max_peers: usize) -> (r: Vec<PeerId>)
        ensures
            r@ == spec_merge(old(self)@, peers@).1,
            final(self).hints@ == spec_trim(spec_merge(old(self)@, peers@).0, old(self).active@, max_peers as nat),
            final(self).hints@.len() + 1 <= max_peers
                || forall|i: int| 0 <= i < final(self).hints@.len() ==> spec_link_of(old(self).active@, #[trigger] final(self).hints@[i]) is Some,
            final(self).local == old(self).local,
            final(self).active@ == old(self).active@,
            final(self).dialing@ == old(self).dialing@,
            final(self).recovering@ == old(self).recovering@,
            final(self).next_epoch == old(self).next_epoch,
    {
        let ghost v = self@;
        let mut found: Vec<PeerId> = Vec::new();
        let mut i: usize = 0;
        while i < peers.len()
            invariant
                i <= peers@.len(),
                v == old(self)@,
                self.local == v.0,
                self.active@ == v.1,
                self.dialing@ == v.3,
                self.recovering@ == v.4,
                self.next_epoch == v.5,
                (self.hints@, found@) == spec_merge(v, peers@.take(i as int)),
            decreases peers@.len() - i,
        {
            proof {
                assert(peers@.take(i + 1).drop_last() == peers@.take(i as int));
            }
            let p = peers[i];
            let refused = p == self.local || p.steam_id64 == self.local.steam_id64
                || link_of(&self.active, p).is_some() || account_clash(&self.active, p);
            if !refused && !contains_peer(&self.hints, p) {
                self.hints.push(p);
                found.push(p);
            }
            i = i + 1;
        }
        proof {
            assert(peers@.take(peers@.len() as int) == peers@);
        }
        let ghost merged = self.hints@;
        while self.hints.len() >= max_peers
            invariant
                v == old(self)@,
                merged == spec_merge(v, peers@).0,
                self.local == v.0,
                self.active@ == v.1,
                self.dialing@ == v.3,
                self.recovering@ == v.4,
                self.next_epoch == v.5,
                spec_trim(self.hints@, v.1, max_peers as nat) == spec_trim(merged, v.1, max_peers as nat),
            ensures
                self.hints@ == spec_trim(merged, v.1, max_peers as nat),
                self.local == v.0,
                self.active@ == v.1,
                self.dialing@ == v.3,
                self.recovering@ == v.4,
                self.next_epoch == v.5,
            decreases self.hints@.len(),
        {
            match greatest_unlinked(&self.hints, &self.active) {
                None => {
                    break;
                },
                Some(x) => {
                    proof {
                        lemma_greatest_unlinked(self.hints@, self.active@);
                        lemma_peers_without_shorter(self.hints@, x);
                    }
                    self.hints = peers_without(&self.hints, x);
                },
            }
        }
        proof {
            lemma_trim_fits(merged, v.1, max_peers as nat);
        }
        found
    }
}

proof fn lemma_merge_covers(v: MembershipView, peers: Seq<PeerId>)
    ensures
        forall|i: int| 0 <= i < peers.len() ==> spec_hint_refused(v, #[trigger] peers[i])
            || spec_merge(v, peers).0.contains(peers[i]),
        forall|x: PeerId| v.2.contains(x) ==> #[trigger] spec_merge(v, peers).0.contains(x),
    decreases peers.len(),
{
    if peers.len() > 0 {
        let rest = peers.drop_last();
        lemma_merge_covers(v, rest);
        let h = spec_merge(v, rest).0;
        let p = peers.last();
        assert forall|x: PeerId| h.contains(x) implies #[trigger] spec_merge(v, peers).0.contains(x) by {
            if !(spec_hint_refused(v, p) || h.contains(p)) {
                let k = choose|k: int| 0 <= k < h.len() && h[k] == x;
                assert(h.push(p)[k] == x);
            }
        }
        assert forall|i: int| 0 <= i < peers.len() implies spec_hint_refused(v, #[trigger] peers[i])
            || spec_merge(v, peers).0.contains(peers[i]) by {
            if i < peers.len() - 1 {
                assert(rest[i] == peers[i]);
            } else if !(spec_hint_refused(v, p) || h.contains(p)) {
                assert(h.push(p)[h.len() as int] == p);
            }
        }
    }
}

proof fn lemma_merge_known(v: MembershipView, peers: Seq<PeerId>)
    requires
        forall|i: int| 0 <= i < peers.len() ==> spec_hint_refused(v, #[trigger] peers[i]) || v.2.contains(peers[i]),
    ensures
        spec_merge(v, peers) == (v.2, Seq::<PeerId>::empty()),
    decreases peers.len(),
{
    if peers.len() > 0 {
        let rest = peers.drop_last();
        assert forall|i: int| 0 <= i < rest.len() implies spec_hint_refused(v, #[trigger] rest[i]) || v.2.contains(rest[i]) by {
            assert(rest[i] == peers[i]);
        }
        lemma_merge_known(v, rest);
        assert(peers[peers.len() - 1] == peers.last());
    }
}

/// Hints are idempotent: once a list of peers is taken in and nothing had
/// to be dropped to fit, taking in the same list again adds no hint and
/// discovers no peer.
pub proof fn law_merge_idempotent(v: MembershipView, peers: Seq<PeerId>, max_peers: nat)
    requires
        spec_merge(v, peers).0.len() + 1 <= max_peers,
    ensures
        spec_trim(spec_merge(v, peers).0, v.1, max_peers) == spec_merge(v, peers).0,
        spec_merge((v.0, v.1, spec_merge(v, peers).0, v.3, v.4, v.5), peers)
            == (spec_merge(v, peers).0, Seq::<PeerId>::empty()),
{
    let merged = spec_merge(v, peers).0;
    let w = (v.0, v.1, merged, v.3, v.4, v.5);
    lemma_merge_covers(v, peers);
    assert forall|i: int| 0 <= i < peers.len() implies spec_hint_refused(w, #[trigger] peers[i]) || w.2.contains(peers[i]) by {
        assert(spec_hint_refused(w, peers[i]) == spec_hint_refused(v, peers[i]));
    }
    lemma_merge_known(w, peers);
}

/// Two registrations of one peer never both stand: once a link is accepted,
/// a second link with a key at or after its key is refused, and one with a
/// smaller key replaces it.
pub proof fn law_smaller_key_wins(v: MembershipView, p: PeerId, first: LinkKey, second: LinkKey)
    requires
        spec_links_distinct(v.1),
        spec_register(v, p, first).1 is Accepted,
        spec_register(spec_register(v, p, first).0, p, second).1 !is LifecycleExhausted,
    ensures
        key_le(first, second) ==> spec_register(spec_register(v, p, first).0, p, second).1 == RegisterResult::DuplicateLost,
        !key_le(first, second) ==> spec_register(spec_register(v, p, first).0, p, second).1
            == (RegisterResult::Accepted { replaced: Some(ActiveLink { peer: p, key: first, epoch: v.5->0 }), epoch: (v.5->0 + 1) as u64 }),
{
    let w = spec_links_without(v.1, p);
    let a = w.push(ActiveLink { peer: p, key: first, epoch: v.5->0 });
    assert(a.drop_last() == w);
    lemma_links_without_subset(v.1, p);
    assert(!spec_account_clash(a, p)) by {
        if spec_account_clash(a, p) {
            let i = choose|i: int| 0 <= i < a.len() && #[trigger] a[i].peer.steam_id64 == p.steam_id64 && a[i].peer != p;
            assert(i < w.len());
            assert(v.1.contains(w[i]));
            let m = choose|m: int| 0 <= m < v.1.len() && v.1[m] == w[i];
            assert(v.1[m].peer.steam_id64 == p.steam_id64);
        }
    }
}

} // verus!
