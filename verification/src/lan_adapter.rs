//! The LAN adapters a room binds to and the candidate addresses it
//! announces: one address per adapter first, then the adapters' second
//! address families, best first, as far as the candidate budget allows.

use vstd::prelude::*;
use crate::lan_join_code::MAX_LAN_CANDIDATES;

verus! {

/// The most adapters a room binds: as many as a code carries candidates.
pub const MAX_SELECTED_LAN_ADAPTERS: usize = MAX_LAN_CANDIDATES;

/// An adapter's IP address, as a big-endian number.
#[derive(Clone, Copy, Debug, PartialEq, Eq, Structural)]
pub enum AdapterIp {
    V4(u32),
    V6(u128),
}

/// Whether the address is link-local: IPv4 169.254.0.0/16, IPv6 fe80::/10.
pub open spec fn spec_link_local(ip: AdapterIp) -> bool {
    match ip {
        AdapterIp::V4(a) => a / 0x1_0000 == 0xa9fe,
        AdapterIp::V6(a) => a / 0x40_0000_0000_0000_0000_0000_0000_0000 == 0x3fa,
    }
}

/// Whether the address is link-local.
pub fn is_link_local(ip: AdapterIp) -> (r: bool)
    ensures
        r == spec_link_local(ip),
{
    match ip {
        AdapterIp::V4(a) => a / 0x1_0000 == 0xa9fe,
        AdapterIp::V6(a) => a / 0x40_0000_0000_0000_0000_0000_0000_0000 == 0x3fa,
    }
}

/// Whether an address of an interface may be offered to peers: not the
/// unspecified, loopback or multicast address, nor the IPv4 broadcast.
pub open spec fn spec_usable_unicast(ip: AdapterIp) -> bool {
    match ip {
        AdapterIp::V4(a) => a != 0 && a / 0x100_0000 != 127 && a / 0x1000_0000 != 0xe && a != 0xffff_ffff,
        AdapterIp::V6(a) => a != 0 && a != 1 && a / 0x100_0000_0000_0000_0000_0000_0000_0000 != 0xff,
    }
}

/// Whether an address of an interface may be offered to peers.
pub fn is_usable_unicast(ip: AdapterIp) -> (r: bool)
    ensures
        r == spec_usable_unicast(ip),
{
    match ip {
        AdapterIp::V4(a) => a != 0 && a / 0x100_0000 != 127 && a / 0x1000_0000 != 0xe && a != 0xffff_ffff,
        AdapterIp::V6(a) => a != 0 && a != 1 && a / 0x100_0000_0000_0000_0000_0000_0000_0000 != 0xff,
    }
}

/// How much an address is preferred, lower first: routable IPv4, routable
/// IPv6, link-local IPv4, link-local IPv6.
pub open spec fn spec_preference(ip: AdapterIp) -> u8 {
    match ip {
        AdapterIp::V4(_) => if spec_link_local(ip) { 2 } else { 0 },
        AdapterIp::V6(_) => if spec_link_local(ip) { 3 } else { 1 },
    }
}

/// `a` sorts before `b`: by preference, then IPv4 before IPv6, then by
/// value.
pub open spec fn spec_ip_lt(a: AdapterIp, b: AdapterIp) -> bool {
    ||| spec_preference(a) < spec_preference(b)
    ||| spec_preference(a) == spec_preference(b) && match (a, b) {
        (AdapterIp::V4(x), AdapterIp::V4(y)) => x < y,
        (AdapterIp::V6(x), AdapterIp::V6(y)) => x < y,
        (AdapterIp::V4(_), AdapterIp::V6(_)) => true,
        (AdapterIp::V6(_), AdapterIp::V4(_)) => false,
    }
}

fn preference(ip: AdapterIp) -> (r: u8)
    ensures
        r == spec_preference(ip),
{
    let local = is_link_local(ip);
    match ip {
        AdapterIp::V4(_) => if local { 2 } else { 0 },
        AdapterIp::V6(_) => if local { 3 } else { 1 },
    }
}

/// Whether `a` sorts before `b`.
pub fn ip_before(a: AdapterIp, b: AdapterIp) -> (r: bool)
    ensures
        r == spec_ip_lt(a, b),
{
    let (pa, pb) = (preference(a), preference(b));
    if pa != pb {
        return pa < pb;
    }
    match (a, b) {
        (AdapterIp::V4(x), AdapterIp::V4(y)) => x < y,
        (AdapterIp::V6(x), AdapterIp::V6(y)) => x < y,
        (AdapterIp::V4(_), AdapterIp::V6(_)) => true,
        (AdapterIp::V6(_), AdapterIp::V4(_)) => false,
    }
}

/// One address of an adapter.
#[derive(Clone, Debug, PartialEq, Eq)]
pub struct LanAdapterAddress {
    pub adapter_id: String,
    pub name: String,
    pub address: AdapterIp,
    pub interface_index: u32,
}

/// An adapter with its addresses.
#[derive(Clone, Debug, PartialEq, Eq)]
pub struct LanAdapter {
    pub adapter_id: String,
    pub name: String,
    pub interface_index: u32,
    pub addresses: Vec<LanAdapterAddress>,
}

/// Why a set of adapters cannot be bound.
#[derive(Clone, Copy, Debug, PartialEq, Eq, Structural)]
pub enum LanAdapterSelectionError {
    /// No adapter was selected.
    Empty,
    /// More adapters than a room binds (the count).
    TooMany(usize),
}

impl LanAdapter {
    /// Whether the adapter has an address that is not link-local.
    pub fn is_recommended(&self) -> (r: bool)
        ensures
            r == exists|i: int| 0 <= i < self.addresses@.len() && !spec_link_local(#[trigger] self.addresses@[i].address),
    {
        let mut i: usize = 0;
        while i < self.addresses.len()
            invariant
                i <= self.addresses@.len(),
                forall|k: int| 0 <= k < i ==> spec_link_local(#[trigger] self.addresses@[k].address),
            decreases self.addresses@.len() - i,
        {
            if !is_link_local(self.addresses[i].address) {
                return true;
            }
            i = i + 1;
        }
        false
    }
}

fn duplicate(a: &LanAdapterAddress) -> (r: LanAdapterAddress)
    ensures
        r == *a,
{
    LanAdapterAddress {
        adapter_id: a.adapter_id.clone(),
        name: a.name.clone(),
        address: a.address,
        interface_index: a.interface_index,
    }
}

/// An adapter as values: id, name, interface index and addresses.
pub type LanAdapterView = (String, String, u32, Seq<LanAdapterAddress>);

impl View for LanAdapter {
    type V = LanAdapterView;

    open spec fn view(&self) -> LanAdapterView {
        (self.adapter_id, self.name, self.interface_index, self.addresses@)
    }
}

/// Whether an adapter has an address that is not link-local.
pub open spec fn spec_recommended(a: LanAdapter) -> bool {
    exists|i: int| 0 <= i < a.addresses@.len() && !spec_link_local(#[trigger] a.addresses@[i].address)
}

/// The recommended adapters of `a`, in order.
pub open spec fn spec_recommended_ones(a: Seq<LanAdapter>) -> Seq<LanAdapterView>
    decreases a.len(),
{
    if a.len() == 0 {
        Seq::empty()
    } else if spec_recommended(a.last()) {
        spec_recommended_ones(a.drop_last()).push(a.last()@)
    } else {
        spec_recommended_ones(a.drop_last())
    }
}

/// The first `n` adapters of `a`, or all of them where there are fewer.
pub open spec fn spec_first_views(a: Seq<LanAdapterView>, n: int) -> Seq<LanAdapterView> {
    a.take(if a.len() < n { a.len() as int } else { n })
}

/// The adapters selected when the user chose none: the recommended ones,
/// at most as many as a room binds; where none is recommended, the first
/// adapters, as many.
pub open spec fn spec_default_adapters(a: Seq<LanAdapter>) -> Seq<LanAdapterView> {
    let picked = spec_first_views(spec_recommended_ones(a), MAX_SELECTED_LAN_ADAPTERS as int);
    if picked.len() > 0 {
        picked
    } else {
        spec_first_views(a.map_values(|x: LanAdapter| x@), MAX_SELECTED_LAN_ADAPTERS as int)
    }
}

fn duplicate_adapter(a: &LanAdapter) -> (r: LanAdapter)
    ensures
        r@ == a@,
{
    let mut addresses: Vec<LanAdapterAddress> = Vec::new();
    let mut i: usize = 0;
    while i < a.addresses.len()
        invariant
            i <= a.addresses@.len(),
            addresses@ == a.addresses@.take(i as int),
        decreases a.addresses@.len() - i,
    {
        addresses.push(duplicate(&a.addresses[i]));
        i = i + 1;
        proof {
            assert(addresses@ =~= a.addresses@.take(i as int));
        }
    }
    proof {
        assert(a.addresses@.take(i as int) =~= a.addresses@);
    }
    LanAdapter {
        adapter_id: a.adapter_id.clone(),
        name: a.name.clone(),
        interface_index: a.interface_index,
        addresses,
    }
}

/// The adapters to bind when the user chose none; see
/// `spec_default_adapters`.
pub fn default_lan_adapters(adapters: &[LanAdapter]) -> (r: Vec<LanAdapter>)
    ensures
        r@.map_values(|x: LanAdapter| x@) == spec_default_adapters(adapters@),
        r@.len() <= MAX_SELECTED_LAN_ADAPTERS,
        adapters@.len() > 0 ==> r@.len() > 0,
{
    let mut selected: Vec<LanAdapter> = Vec::new();
    let mut i: usize = 0;
    while i < adapters.len()
        invariant
            i <= adapters@.len(),
            selected@.map_values(|x: LanAdapter| x@) == spec_first_views(
                spec_recommended_ones(adapters@.take(i as int)), MAX_SELECTED_LAN_ADAPTERS as int),
        decreases adapters@.len() - i,
    {
        let ghost t = adapters@.take(i + 1);
        let ghost before = spec_recommended_ones(adapters@.take(i as int));
        proof {
            assert(t.drop_last() =~= adapters@.take(i as int));
            assert(t.last() == adapters@[i as int]);
        }
        if adapters[i].is_recommended() {
            let ghost prev = selected@;
            let ghost after = before.push(adapters@[i as int]@);
            proof {
                assert(spec_recommended_ones(t) == after);
            }
            if selected.len() < MAX_SELECTED_LAN_ADAPTERS {
                let d = duplicate_adapter(&adapters[i]);
                selected.push(d);
                proof {
                    assert(prev.map_values(|x: LanAdapter| x@).len() == prev.len());
                    assert(spec_first_views(before, MAX_SELECTED_LAN_ADAPTERS as int).len() == prev.len());
                    assert(before.len() < MAX_SELECTED_LAN_ADAPTERS);
                    assert(spec_first_views(before, MAX_SELECTED_LAN_ADAPTERS as int) =~= before);
                    assert(spec_first_views(after, MAX_SELECTED_LAN_ADAPTERS as int) =~= after);
                    assert(selected@ == prev.push(d));
                    assert(selected@.map_values(|x: LanAdapter| x@) =~= prev.map_values(|x: LanAdapter| x@).push(d@));
                }
            } else {
                proof {
                    assert(spec_first_views(after, MAX_SELECTED_LAN_ADAPTERS as int)
                        =~= spec_first_views(before, MAX_SELECTED_LAN_ADAPTERS as int));
                }
            }
        } else {
            proof {
                assert(spec_recommended_ones(t) == before);
            }
        }
        i = i + 1;
    }
    proof {
        assert(adapters@.take(adapters@.len() as int) =~= adapters@);
    }
    if selected.len() == 0 {
        let count = if adapters.len() < MAX_SELECTED_LAN_ADAPTERS { adapters.len() } else { MAX_SELECTED_LAN_ADAPTERS };
        let ghost all = adapters@.map_values(|x: LanAdapter| x@);
        let mut j: usize = 0;
        while j < count
            invariant
                j <= count <= adapters@.len(),
                count == (if adapters@.len() < MAX_SELECTED_LAN_ADAPTERS { adapters@.len() } else { MAX_SELECTED_LAN_ADAPTERS as nat }),
                all == adapters@.map_values(|x: LanAdapter| x@),
                selected@.map_values(|x: LanAdapter| x@) == all.take(j as int),
            decreases count - j,
        {
            let ghost prev = selected@;
            let d = duplicate_adapter(&adapters[j]);
            selected.push(d);
            proof {
                assert(all[j as int] == adapters@[j as int]@);
                assert(selected@.map_values(|x: LanAdapter| x@) =~= prev.map_values(|x: LanAdapter| x@).push(d@));
                assert(all.take(j + 1) =~= all.take(j as int).push(all[j as int]));
            }
            j = j + 1;
        }
    }
    selected
}

/// The first address of one family (IPv6 when `v6`) that sorts before or
/// with every other address of that family.
pub open spec fn spec_best(s: Seq<LanAdapterAddress>, v6: bool) -> Option<LanAdapterAddress>
    decreases s.len(),
{
    if s.len() == 0 {
        None
    } else {
        let best = spec_best(s.drop_last(), v6);
        let x = s.last();
        if (x.address is V6) != v6 {
            best
        } else {
            match best {
                Some(b) => if spec_ip_lt(x.address, b.address) { Some(x) } else { Some(b) },
                None => Some(x),
            }
        }
    }
}

/// The addresses an adapter offers: its best IPv4 and its best IPv6
/// address, where it has them, the better one first.
pub open spec fn spec_preferred(a: LanAdapter) -> Seq<LanAdapterAddress> {
    match (spec_best(a.addresses@, false), spec_best(a.addresses@, true)) {
        (Some(x), Some(y)) => if spec_ip_lt(y.address, x.address) { seq![y, x] } else { seq![x, y] },
        (Some(x), None) => seq![x],
        (None, Some(y)) => seq![y],
        (None, None) => Seq::empty(),
    }
}

/// The first offered address of each adapter, in adapter order.
pub open spec fn spec_firsts(a: Seq<LanAdapter>) -> Seq<LanAdapterAddress>
    decreases a.len(),
{
    if a.len() == 0 {
        Seq::empty()
    } else {
        let p = spec_preferred(a.last());
        if p.len() > 0 { spec_firsts(a.drop_last()).push(p[0]) } else { spec_firsts(a.drop_last()) }
    }
}

/// The second offered address of each adapter that has one, in adapter
/// order.
pub open spec fn spec_seconds(a: Seq<LanAdapter>) -> Seq<LanAdapterAddress>
    decreases a.len(),
{
    if a.len() == 0 {
        Seq::empty()
    } else {
        let p = spec_preferred(a.last());
        if p.len() > 1 { spec_seconds(a.drop_last()).push(p[1]) } else { spec_seconds(a.drop_last()) }
    }
}

/// `s` with `x` placed after every element that does not sort after it.
pub open spec fn spec_insert(s: Seq<LanAdapterAddress>, x: LanAdapterAddress) -> Seq<LanAdapterAddress>
    decreases s.len(),
{
    if s.len() == 0 {
        seq![x]
    } else if spec_ip_lt(x.address, s.last().address) {
        spec_insert(s.drop_last(), x).push(s.last())
    } else {
        s.push(x)
    }
}

/// `s` sorted by address, addresses that sort together kept in their order.
pub open spec fn spec_sorted(s: Seq<LanAdapterAddress>) -> Seq<LanAdapterAddress>
    decreases s.len(),
{
    if s.len() == 0 {
        s
    } else {
        spec_insert(spec_sorted(s.drop_last()), s.last())
    }
}

/// The candidate addresses of a room bound to `a`: each adapter's first
/// offered address, then the second ones sorted, as many as the candidate
/// budget leaves room for.
pub open spec fn spec_candidate_plan(a: Seq<LanAdapter>) -> Seq<LanAdapterAddress> {
    let firsts = spec_firsts(a);
    let rest = spec_sorted(spec_seconds(a));
    let room = MAX_LAN_CANDIDATES - firsts.len();
    firsts + rest.take(if rest.len() < room { rest.len() as int } else { room })
}

pub proof fn lemma_firsts_len(a: Seq<LanAdapter>)
    ensures
        spec_firsts(a).len() <= a.len(),
    decreases a.len(),
{
    if a.len() > 0 {
        lemma_firsts_len(a.drop_last());
    }
}

fn best(s: &Vec<LanAdapterAddress>, v6: bool) -> (r: Option<LanAdapterAddress>)
    ensures
        r == spec_best(s@, v6),
{
    let mut found: Option<LanAdapterAddress> = None;
    let mut i: usize = 0;
    while i < s.len()
        invariant
            i <= s@.len(),
            found == spec_best(s@.take(i as int), v6),
        decreases s@.len() - i,
    {
        proof {
            assert(s@.take(i + 1).drop_last() == s@.take(i as int));
            assert(s@.take(i + 1).last() == s@[i as int]);
        }
        let x = &s[i];
        let family = match x.address {
            AdapterIp::V6(_) => true,
            AdapterIp::V4(_) => false,
        };
        if family == v6 {
            let better = match &found {
                Some(b) => ip_before(x.address, b.address),
                None => true,
            };
            if better {
                found = Some(duplicate(x));
            }
        }
        i = i + 1;
    }
    proof {
        assert(s@.take(s@.len() as int) == s@);
    }
    found
}

fn preferred(a: &LanAdapter) -> (r: Vec<LanAdapterAddress>)
    ensures
        r@ == spec_preferred(*a),
{
    let v4 = best(&a.addresses, false);
    let v6 = best(&a.addresses, true);
    let mut r: Vec<LanAdapterAddress> = Vec::new();
    match (v4, v6) {
        (Some(x), Some(y)) => {
            if ip_before(y.address, x.address) {
                r.push(y);
                r.push(x);
            } else {
                r.push(x);
                r.push(y);
            }
        },
        (Some(x), None) => r.push(x),
        (None, Some(y)) => r.push(y),
        (None, None) => {},
    }
    proof {
        assert(r@ =~= spec_preferred(*a));
    }
    r
}

fn insert_sorted(s: &mut Vec<LanAdapterAddress>, x: LanAdapterAddress)
    ensures
        final(s)@ == spec_insert(old(s)@, x),
{
    let mut k: usize = s.len();
    proof {
        assert(s@.take(k as int) =~= s@);
        assert(spec_insert(s@, x) + s@.skip(k as int) =~= spec_insert(s@, x));
    }
    loop
        invariant
            k <= s@.len(),
            s@ == old(s)@,
            spec_insert(s@, x) == spec_insert(s@.take(k as int), x) + s@.skip(k as int),
        ensures
            k <= s@.len(),
            s@ == old(s)@,
            spec_insert(s@, x) == spec_insert(s@.take(k as int), x) + s@.skip(k as int),
            k == 0 || !spec_ip_lt(x.address, s@[k - 1].address),
        decreases k,
    {
        if k == 0 {
            break;
        }
        if !ip_before(x.address, s[k - 1].address) {
            break;
        }
        proof {
            let t = s@.take(k as int);
            let z = spec_insert(s@.take(k - 1), x);
            assert(t.drop_last() =~= s@.take(k - 1));
            assert(t.last() == s@[k - 1]);
            assert(spec_insert(t, x) == z.push(s@[k - 1]));
            assert(z.push(s@[k - 1]) + s@.skip(k as int) =~= z + s@.skip(k - 1));
        }
        k = k - 1;
    }
    proof {
        let t = s@.take(k as int);
        if k > 0 {
            assert(t.last() == s@[k - 1]);
        }
        assert(spec_insert(t, x) == t.push(x));
        assert(t.push(x) + s@.skip(k as int) =~= s@.insert(k as int, x));
    }
    s.insert(k, x);
}

/// The candidate addresses to announce for the selected adapters: one to
/// the count of candidates a code carries. Each adapter gives its first
/// offered address, in adapter order; the second ones follow, sorted, as
/// far as room is left.
pub fn lan_candidate_addresses(adapters: &[LanAdapter]) -> (r: Result<Vec<LanAdapterAddress>, LanAdapterSelectionError>)
    ensures
        adapters@.len() == 0 ==> r == Err::<Vec<LanAdapterAddress>, LanAdapterSelectionError>(LanAdapterSelectionError::Empty),
        adapters@.len() > MAX_SELECTED_LAN_ADAPTERS ==> r == Err::<Vec<LanAdapterAddress>, LanAdapterSelectionError>(
            LanAdapterSelectionError::TooMany(adapters@.len() as usize)),
        0 < adapters@.len() <= MAX_SELECTED_LAN_ADAPTERS ==> (r matches Ok(v) && v@ == spec_candidate_plan(adapters@)),
        r matches Ok(v) ==> v@.len() <= MAX_LAN_CANDIDATES,
{
    if adapters.len() == 0 {
        return Err(LanAdapterSelectionError::Empty);
    }
    if adapters.len() > MAX_SELECTED_LAN_ADAPTERS {
        return Err(LanAdapterSelectionError::TooMany(adapters.len()));
    }
    let mut selected: Vec<LanAdapterAddress> = Vec::new();
    let mut alternatives: Vec<LanAdapterAddress> = Vec::new();
    let mut i: usize = 0;
    while i < adapters.len()
        invariant
            i <= adapters@.len(),
            selected@ == spec_firsts(adapters@.take(i as int)),
            alternatives@ == spec_sorted(spec_seconds(adapters@.take(i as int))),
        decreases adapters@.len() - i,
    {
        let ghost t = adapters@.take(i + 1);
        proof {
            assert(t.drop_last() =~= adapters@.take(i as int));
            assert(t.last() == adapters@[i as int]);
        }
        let choice = preferred(&adapters[i]);
        if choice.len() > 0 {
            selected.push(duplicate(&choice[0]));
        }
        if choice.len() > 1 {
            let ghost before = spec_seconds(adapters@.take(i as int));
            proof {
                assert(before.push(choice@[1]).drop_last() =~= before);
            }
            insert_sorted(&mut alternatives, duplicate(&choice[1]));
        }
        i = i + 1;
    }
    proof {
        assert(adapters@.take(adapters@.len() as int) =~= adapters@);
        lemma_firsts_len(adapters@);
    }
    let ghost firsts = selected@;
    let room = MAX_LAN_CANDIDATES - selected.len();
    let count = if alternatives.len() < room { alternatives.len() } else { room };
    let mut j: usize = 0;
    while j < count
        invariant
            j <= count <= alternatives@.len(),
            selected@ == firsts + alternatives@.take(j as int),
        decreases count - j,
    {
        selected.push(duplicate(&alternatives[j]));
        j = j + 1;
        proof {
            assert(selected@ =~= firsts + alternatives@.take(j as int));
        }
    }
    Ok(selected)
}

/// `a` sorts before `b` from position `i` on, character by character, a
/// proper prefix first: the order of `String`.
pub open spec fn spec_text_lt_from(a: Seq<char>, b: Seq<char>, i: int) -> bool
    decreases a.len() - i,
{
    if i < 0 || i >= a.len() {
        0 <= i < b.len()
    } else if i >= b.len() {
        false
    } else if a[i] != b[i] {
        (a[i] as u32) < (b[i] as u32)
    } else {
        spec_text_lt_from(a, b, i + 1)
    }
}

/// `a` sorts before `b` as text.
pub open spec fn spec_text_lt(a: Seq<char>, b: Seq<char>) -> bool {
    spec_text_lt_from(a, b, 0)
}

fn text_before(a: &str, b: &str) -> (r: bool)
    ensures
        r == spec_text_lt(a@, b@),
{
    let n = a.unicode_len();
    let m = b.unicode_len();
    let mut i: usize = 0;
    while i < n && i < m
        invariant
            i <= n == a@.len(),
            i <= m == b@.len(),
            spec_text_lt(a@, b@) == spec_text_lt_from(a@, b@, i as int),
        decreases n - i,
    {
        let x = a.get_char(i);
        let y = b.get_char(i);
        if x != y {
            return (x as u32) < (y as u32);
        }
        i = i + 1;
    }
    i < m
}

/// The group `g` has the key of address `a`: interface index, adapter id
/// and name.
pub open spec fn spec_same_key(g: LanAdapterView, a: LanAdapterAddress) -> bool {
    g.2 == a.interface_index && g.0@ == a.adapter_id@ && g.1@ == a.name@
}

/// The key of group `g` sorts before the key of address `a`: by interface
/// index, then adapter id, then name.
pub open spec fn spec_key_before(g: LanAdapterView, a: LanAdapterAddress) -> bool {
    ||| g.2 < a.interface_index
    ||| g.2 == a.interface_index && spec_text_lt(g.0@, a.adapter_id@)
    ||| g.2 == a.interface_index && g.0@ == a.adapter_id@ && spec_text_lt(g.1@, a.name@)
}

/// The position of the group with `a`'s key, if there is one.
pub open spec fn spec_group_of(groups: Seq<LanAdapterView>, a: LanAdapterAddress) -> Option<int>
    decreases groups.len(),
{
    if groups.len() == 0 {
        None
    } else if spec_same_key(groups.last(), a) {
        Some(groups.len() - 1)
    } else {
        spec_group_of(groups.drop_last(), a)
    }
}

/// How many groups have a key that sorts before `a`'s.
pub open spec fn spec_groups_before(groups: Seq<LanAdapterView>, a: LanAdapterAddress) -> nat
    decreases groups.len(),
{
    if groups.len() == 0 {
        0
    } else {
        spec_groups_before(groups.drop_last(), a) + if spec_key_before(groups.last(), a) { 1nat } else { 0nat }
    }
}

/// The groups once `a` is added: to the group of its key, in address
/// order, or as a new group at its key's place.
pub open spec fn spec_add_to_groups(groups: Seq<LanAdapterView>, a: LanAdapterAddress) -> Seq<LanAdapterView> {
    match spec_group_of(groups, a) {
        Some(j) => groups.update(j, (groups[j].0, groups[j].1, groups[j].2, spec_insert(groups[j].3, a))),
        None => groups.insert(spec_groups_before(groups, a) as int, (a.adapter_id, a.name, a.interface_index, seq![a])),
    }
}

/// The adapters that `addresses` belong to, one per key, in key order,
/// each with its addresses in address order.
pub open spec fn spec_grouped(addresses: Seq<LanAdapterAddress>) -> Seq<LanAdapterView>
    decreases addresses.len(),
{
    if addresses.len() == 0 {
        Seq::empty()
    } else {
        spec_add_to_groups(spec_grouped(addresses.drop_last()), addresses.last())
    }
}

pub proof fn lemma_group_of(groups: Seq<LanAdapterView>, a: LanAdapterAddress)
    ensures
        spec_group_of(groups, a) matches Some(j) ==> 0 <= j < groups.len() && spec_same_key(groups[j], a),
    decreases groups.len(),
{
    if groups.len() > 0 {
        lemma_group_of(groups.drop_last(), a);
        if let Some(j) = spec_group_of(groups.drop_last(), a) {
            assert(groups.drop_last()[j] == groups[j]);
        }
    }
}

fn group_of(groups: &Vec<LanAdapter>, a: &LanAdapterAddress) -> (r: Option<usize>)
    ensures
        match r {
            Some(j) => spec_group_of(groups@.map_values(|x: LanAdapter| x@), *a) == Some(j as int),
            None => spec_group_of(groups@.map_values(|x: LanAdapter| x@), *a) is None,
        },
{
    let ghost gv = groups@.map_values(|x: LanAdapter| x@);
    let mut k: usize = groups.len();
    proof {
        assert(gv.take(k as int) =~= gv);
    }
    while k > 0
        invariant
            k <= groups@.len(),
            gv == groups@.map_values(|x: LanAdapter| x@),
            spec_group_of(gv, *a) == spec_group_of(gv.take(k as int), *a),
        decreases k,
    {
        let g = &groups[k - 1];
        proof {
            assert(gv.take(k as int).drop_last() =~= gv.take(k - 1));
            assert(gv.take(k as int).last() == g@);
        }
        if g.interface_index == a.interface_index && g.adapter_id == a.adapter_id && g.name == a.name {
            return Some(k - 1);
        }
        k = k - 1;
    }
    None
}

fn groups_before(groups: &Vec<LanAdapter>, a: &LanAdapterAddress) -> (r: usize)
    ensures
        r == spec_groups_before(groups@.map_values(|x: LanAdapter| x@), *a),
        r <= groups@.len(),
{
    let ghost gv = groups@.map_values(|x: LanAdapter| x@);
    let mut count: usize = 0;
    let mut i: usize = 0;
    while i < groups.len()
        invariant
            i <= groups@.len(),
            count <= i,
            gv == groups@.map_values(|x: LanAdapter| x@),
            count == spec_groups_before(gv.take(i as int), *a),
        decreases groups@.len() - i,
    {
        let g = &groups[i];
        proof {
            assert(gv.take(i + 1).drop_last() =~= gv.take(i as int));
            assert(gv.take(i + 1).last() == g@);
        }
        let before = g.interface_index < a.interface_index
            || (g.interface_index == a.interface_index && text_before(g.adapter_id.as_str(), a.adapter_id.as_str()))
            || (g.interface_index == a.interface_index && g.adapter_id == a.adapter_id
                && text_before(g.name.as_str(), a.name.as_str()));
        if before {
            count = count + 1;
        }
        i = i + 1;
    }
    proof {
        assert(gv.take(i as int) =~= gv);
    }
    count
}

/// Gathers interface addresses into adapters; see `spec_grouped`.
pub fn group_lan_adapter_addresses(addresses: &Vec<LanAdapterAddress>) -> (r: Vec<LanAdapter>)
    ensures
        r@.map_values(|x: LanAdapter| x@) == spec_grouped(addresses@),
{
    let mut groups: Vec<LanAdapter> = Vec::new();
    let mut i: usize = 0;
    while i < addresses.len()
        invariant
            i <= addresses@.len(),
            groups@.map_values(|x: LanAdapter| x@) == spec_grouped(addresses@.take(i as int)),
        decreases addresses@.len() - i,
    {
        let a = &addresses[i];
        let ghost before = groups@;
        let ghost gv = before.map_values(|x: LanAdapter| x@);
        proof {
            assert(addresses@.take(i + 1).drop_last() =~= addresses@.take(i as int));
            assert(addresses@.take(i + 1).last() == *a);
        }
        match group_of(&groups, a) {
            Some(j) => {
                proof {
                    lemma_group_of(gv, *a);
                    assert(gv[j as int] == before[j as int]@);
                }
                let mut g = groups.remove(j);
                insert_sorted(&mut g.addresses, duplicate(a));
                let ghost gview = g@;
                groups.insert(j, g);
                proof {
                    assert(gview == (gv[j as int].0, gv[j as int].1, gv[j as int].2, spec_insert(gv[j as int].3, *a)));
                    assert(groups@.map_values(|x: LanAdapter| x@) =~= gv.update(j as int, gview));
                }
            },
            None => {
                let pos = groups_before(&groups, a);
                let mut first: Vec<LanAdapterAddress> = Vec::new();
                first.push(duplicate(a));
                let g = LanAdapter {
                    adapter_id: a.adapter_id.clone(),
                    name: a.name.clone(),
                    interface_index: a.interface_index,
                    addresses: first,
                };
                let ghost gview = g@;
                groups.insert(pos, g);
                proof {
                    assert(gview == (a.adapter_id, a.name, a.interface_index, seq![*a]));
                    assert(groups@.map_values(|x: LanAdapter| x@) =~= gv.insert(pos as int, gview));
                }
            },
        }
        i = i + 1;
    }
    proof {
        assert(addresses@.take(i as int) =~= addresses@);
    }
    groups
}

} // verus!
