//! Tallies of rejected packets keyed by (stage, reason), kept in ascending key
//! order with counts summed (capped at `u64::MAX`) as rejections are merged.

use vstd::prelude::*;
use crate::latency::sat_add;

verus! {

/// A count of rejections for one (stage, reason) pair; stages and reasons are
/// given by their position in declaration order.
#[derive(Clone, Copy, Debug, PartialEq, Eq, Structural)]
pub struct RejectionTally {
    pub stage: u8,
    pub reason: u8,
    pub count: u64,
}

/// The key order: by stage, then by reason.
pub open spec fn key_lt(a: RejectionTally, b: RejectionTally) -> bool {
    a.stage < b.stage || (a.stage == b.stage && a.reason < b.reason)
}

pub open spec fn same_key(a: RejectionTally, b: RejectionTally) -> bool {
    a.stage == b.stage && a.reason == b.reason
}

/// `list` after adding `e`: its count joins an entry with the same key, or it
/// is inserted before the first entry with a greater key.
pub open spec fn merge_one(list: Seq<RejectionTally>, e: RejectionTally) -> Seq<RejectionTally>
    decreases list.len(),
{
    if list.len() == 0 {
        seq![e]
    } else if key_lt(e, list[0]) {
        seq![e] + list
    } else if same_key(e, list[0]) {
        seq![RejectionTally { stage: e.stage, reason: e.reason, count: sat_add(list[0].count, e.count) }]
            + list.drop_first()
    } else {
        seq![list[0]] + merge_one(list.drop_first(), e)
    }
}

/// `list` after adding every entry of `es`, in order.
pub open spec fn merge_all(list: Seq<RejectionTally>, es: Seq<RejectionTally>) -> Seq<RejectionTally>
    decreases es.len(),
{
    if es.len() == 0 {
        list
    } else {
        merge_one(merge_all(list, es.drop_last()), es.last())
    }
}

proof fn lemma_merge_one_at(list: Seq<RejectionTally>, e: RejectionTally, pos: int)
    requires
        0 <= pos <= list.len(),
        forall|j: int| 0 <= j < pos ==> key_lt(#[trigger] list[j], e),
        pos < list.len() ==> !key_lt(list[pos], e),
    ensures
        pos < list.len() && same_key(e, list[pos]) ==> merge_one(list, e) == list.update(
            pos,
            RejectionTally { stage: e.stage, reason: e.reason, count: sat_add(list[pos].count, e.count) },
        ),
        !(pos < list.len() && same_key(e, list[pos])) ==> merge_one(list, e) == list.insert(pos, e),
    decreases pos,
{
    if pos == 0 {
        if list.len() == 0 {
            assert(list.insert(0, e) =~= seq![e]);
        } else if key_lt(e, list[0]) {
            assert(list.insert(0, e) =~= seq![e] + list);
        } else if same_key(e, list[0]) {
            assert(list.update(0, RejectionTally { stage: e.stage, reason: e.reason, count: sat_add(list[0].count, e.count) })
                =~= seq![RejectionTally { stage: e.stage, reason: e.reason, count: sat_add(list[0].count, e.count) }]
                + list.drop_first());
        } else {
            assert(key_lt(list[0], e));
            assert(false);
        }
    } else {
        let rest = list.drop_first();
        assert(key_lt(list[0], e));
        assert forall|j: int| 0 <= j < pos - 1 implies key_lt(#[trigger] rest[j], e) by {
            assert(key_lt(list[j + 1], e));
        }
        lemma_merge_one_at(rest, e, pos - 1);
        if pos < list.len() && same_key(e, list[pos]) {
            assert(list.update(pos, RejectionTally { stage: e.stage, reason: e.reason, count: sat_add(list[pos].count, e.count) })
                =~= seq![list[0]] + rest.update(pos - 1, RejectionTally { stage: e.stage, reason: e.reason, count: sat_add(rest[pos - 1].count, e.count) }));
        } else {
            assert(list.insert(pos, e) =~= seq![list[0]] + rest.insert(pos - 1, e));
        }
    }
}

/// Adds `e` to the ordered tally list.
pub fn merge_into(list: &mut Vec<RejectionTally>, e: RejectionTally)
    ensures
        final(list)@ == merge_one(old(list)@, e),
{
    let mut pos: usize = 0;
    while pos < list.len() && (list[pos].stage < e.stage || (list[pos].stage == e.stage
        && list[pos].reason < e.reason))
        invariant
            pos <= list@.len(),
            forall|j: int| 0 <= j < pos ==> key_lt(#[trigger] list@[j], e),
        decreases list@.len() - pos,
    {
        pos = pos + 1;
    }
    proof {
        lemma_merge_one_at(list@, e, pos as int);
    }
    if pos < list.len() && list[pos].stage == e.stage && list[pos].reason == e.reason {
        let count = list[pos].count.saturating_add(e.count);
        list.set(pos, RejectionTally { stage: e.stage, reason: e.reason, count });
    } else {
        list.insert(pos, e);
    }
}

/// Adds every entry of `es`, in order, to the ordered tally list.
pub fn merge_all_into(list: &mut Vec<RejectionTally>, es: &Vec<RejectionTally>)
    ensures
        final(list)@ == merge_all(old(list)@, es@),
{
    let mut i: usize = 0;
    while i < es.len()
        invariant
            i <= es@.len(),
            list@ == merge_all(old(list)@, es@.take(i as int)),
        decreases es@.len() - i,
    {
        proof {
            assert(es@.take(i + 1).drop_last() == es@.take(i as int));
        }
        merge_into(list, es[i]);
        i = i + 1;
    }
    assert(es@.take(es@.len() as int) == es@);
}

} // verus!
