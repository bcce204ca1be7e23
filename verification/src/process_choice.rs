//! Choosing the game process to bind to, and naming candidates in logs.

use vstd::prelude::*;
use crate::text::{push_decimal, push_str, spec_decimal};

verus! {

/// A running game process: its id and when it started.
#[derive(Clone, Copy, Debug, PartialEq, Eq, Structural)]
pub struct ProcessCandidate {
    pub pid: u32,
    pub started_at: u64,
}

/// Ordered by start time, then by process id.
pub open spec fn newer_or_same(a: ProcessCandidate, b: ProcessCandidate) -> bool {
    a.started_at > b.started_at || (a.started_at == b.started_at && a.pid >= b.pid)
}

/// The newest of the first `n` candidates; among equals, the last.
pub open spec fn spec_newest(ps: Seq<ProcessCandidate>, n: int) -> Option<ProcessCandidate>
    decreases n,
{
    if n <= 0 {
        None
    } else {
        match spec_newest(ps, n - 1) {
            None => Some(ps[n - 1]),
            Some(best) => if newer_or_same(ps[n - 1], best) { Some(ps[n - 1]) } else { Some(best) },
        }
    }
}

/// The most recently started process (by start time, then process id).
pub fn newest_process(processes: &Vec<ProcessCandidate>) -> (r: Option<ProcessCandidate>)
    ensures
        r == spec_newest(processes@, processes@.len() as int),
{
    let mut best: Option<ProcessCandidate> = None;
    let mut i: usize = 0;
    while i < processes.len()
        invariant
            i <= processes@.len(),
            best == spec_newest(processes@, i as int),
        decreases processes@.len() - i,
    {
        let p = processes[i];
        best = match best {
            None => Some(p),
            Some(b) => if p.started_at > b.started_at || (p.started_at == b.started_at && p.pid >= b.pid) {
                Some(p)
            } else {
                Some(b)
            },
        };
        i = i + 1;
    }
    best
}

/// The process ids joined by commas.
pub open spec fn spec_joined_ids(ps: Seq<ProcessCandidate>) -> Seq<char>
    decreases ps.len(),
{
    if ps.len() == 0 {
        Seq::empty()
    } else if ps.len() == 1 {
        spec_decimal(ps[0].pid as nat)
    } else {
        spec_joined_ids(ps.drop_last()) + ","@ + spec_decimal(ps.last().pid as nat)
    }
}

/// The candidates' ids, comma-separated, or `none`.
pub fn process_ids(processes: &Vec<ProcessCandidate>) -> (s: String)
    ensures
        s@ == (if processes@.len() == 0 { "none"@ } else { spec_joined_ids(processes@) }),
{
    if processes.len() == 0 {
        proof {
            reveal_strlit("none");
        }
        return String::from_str("none");
    }
    let mut s = String::new();
    let mut i: usize = 0;
    while i < processes.len()
        invariant
            i <= processes@.len(),
            s@ == spec_joined_ids(processes@.take(i as int)),
        decreases processes@.len() - i,
    {
        proof {
            assert(processes@.take(i + 1).drop_last() == processes@.take(i as int));
            assert(processes@.take(i + 1).last() == processes@[i as int]);
        }
        if i > 0 {
            push_str(&mut s, ",");
        }
        push_decimal(&mut s, processes[i].pid as u128);
        proof {
            if i == 0 {
                assert(processes@.take(0).len() == 0);
            }
        }
        i = i + 1;
    }
    proof {
        assert(processes@.take(processes@.len() as int) == processes@);
    }
    s
}

} // verus!
