//! Latency accounting: a bounded sample window with running extremes and
//! threshold counters, summarised by percentiles of the sorted window.

use vstd::prelude::*;
use vstd::relations::{sorted_by, total_ordering};

verus! {

/// Number of latency samples kept for percentile estimates.
pub const LATENCY_SAMPLE_CAPACITY: usize = 2048;

/// The `<=` order on `u64`.
pub open spec fn u64_leq() -> spec_fn(u64, u64) -> bool {
    |a: u64, b: u64| a <= b
}

/// `s` in ascending order.
pub open spec fn sorted_u64(s: Seq<u64>) -> Seq<u64> {
    s.sort_by(u64_leq())
}

proof fn lemma_u64_leq_total()
    ensures
        total_ordering(u64_leq()),
{
}

/// A sequence sorted ascending that holds the elements of `s` is `sorted_u64(s)`.
proof fn lemma_is_sorted_u64(r: Seq<u64>, s: Seq<u64>)
    requires
        sorted_by(r, u64_leq()),
        r.to_multiset() == s.to_multiset(),
    ensures
        r == sorted_u64(s),
{
    lemma_u64_leq_total();
    s.lemma_sort_by_ensures(u64_leq());
    vstd::seq_lib::lemma_sorted_unique(r, sorted_u64(s), u64_leq());
}

/// A copy of `v` in ascending order.
pub fn sorted_copy(v: &Vec<u64>) -> (r: Vec<u64>)
    ensures
        r@ == sorted_u64(v@),
{
    broadcast use vstd::seq_lib::group_to_multiset_ensures;
    let mut r: Vec<u64> = Vec::new();
    let mut i: usize = 0;
    while i < v.len()
        invariant
            i <= v@.len(),
            r@.len() == i,
            sorted_by(r@, u64_leq()),
            r@.to_multiset() == v@.take(i as int).to_multiset(),
        decreases v@.len() - i,
    {
        let x = v[i];
        let mut pos: usize = 0;
        while pos < r.len() && r[pos] <= x
            invariant
                pos <= r@.len(),
                forall|j: int| 0 <= j < pos ==> r@[j] <= x,
            decreases r@.len() - pos,
        {
            pos = pos + 1;
        }
        let ghost old_r = r@;
        r.insert(pos, x);
        proof {
            assert(v@.take(i + 1) == v@.take(i as int).push(x));
            vstd::seq_lib::to_multiset_insert(old_r, pos as int, x);
            vstd::seq_lib::to_multiset_build(v@.take(i as int), x);
            assert forall|a: int, b: int| 0 <= a < b < r@.len() implies #[trigger] (u64_leq())(r@[a], r@[b]) by {
                if b < pos {
                    assert((u64_leq())(old_r[a], old_r[b]));
                } else if b == pos {
                    assert(old_r[a] <= x);
                } else if a > pos {
                    assert((u64_leq())(old_r[a - 1], old_r[b - 1]));
                } else if a == pos {
                    if pos < old_r.len() {
                        assert(!(old_r[pos as int] <= x));
                        if b - 1 > pos {
                            assert((u64_leq())(old_r[pos as int], old_r[b - 1]));
                        }
                    }
                } else {
                    assert(old_r[a] <= x);
                    if pos < old_r.len() {
                        assert(!(old_r[pos as int] <= x));
                        if b - 1 > pos {
                            assert((u64_leq())(old_r[pos as int], old_r[b - 1]));
                        }
                    }
                }
            }
        }
        i = i + 1;
    }
    proof {
        assert(v@.take(v@.len() as int) == v@);
        lemma_is_sorted_u64(r@, v@);
    }
    r
}

/// Nearest-rank percentile of an ascending sequence: the element at index
/// `((len - 1) * p + 50) / 100`, or nothing for an empty sequence.
pub open spec fn spec_percentile(sorted: Seq<u64>, p: nat) -> Option<u64> {
    if sorted.len() == 0 {
        None
    } else {
        let index = ((sorted.len() - 1) * p + 50) / 100;
        if index < sorted.len() { Some(sorted[index]) } else { None }
    }
}

/// The percentile `p` of an ascending sequence, rounding the rank to nearest.
pub fn percentile(sorted_samples: &Vec<u64>, p: usize) -> (r: Option<u64>)
    ensures
        r == spec_percentile(sorted_samples@, p as nat),
{
    if sorted_samples.len() == 0 {
        return None;
    }
    let n: u128 = (sorted_samples.len() - 1) as u128;
    let q: u128 = p as u128;
    assert(n * q <= 0xffff_ffff_ffff_ffffu128 * 0xffff_ffff_ffff_ffffu128) by (nonlinear_arith)
        requires n <= 0xffff_ffff_ffff_ffffu128, q <= 0xffff_ffff_ffff_ffffu128;
    let index: u128 = (n * q + 50) / 100;
    if index < sorted_samples.len() as u128 {
        Some(sorted_samples[index as usize])
    } else {
        None
    }
}

#[derive(Clone, Copy, Debug, PartialEq, Eq, Structural)]
pub struct LatencySummary {
    pub count: u64,
    pub min_ms: Option<u64>,
    pub median_ms: Option<u64>,
    pub p95_ms: Option<u64>,
    pub max_ms: Option<u64>,
    pub over_200_ms: u64,
    pub over_500_ms: u64,
    pub over_1000_ms: u64,
}

impl LatencySummary {
    /// The summary of no samples.
    pub open spec fn spec_empty() -> LatencySummary {
        LatencySummary {
            count: 0,
            min_ms: None,
            median_ms: None,
            p95_ms: None,
            max_ms: None,
            over_200_ms: 0,
            over_500_ms: 0,
            over_1000_ms: 0,
        }
    }

    pub fn empty() -> (s: LatencySummary)
        ensures
            s == Self::spec_empty(),
    {
        LatencySummary {
            count: 0,
            min_ms: None,
            median_ms: None,
            p95_ms: None,
            max_ms: None,
            over_200_ms: 0,
            over_500_ms: 0,
            over_1000_ms: 0,
        }
    }
}

impl Default for LatencySummary {
    fn default() -> (s: LatencySummary)
        ensures
            s == Self::spec_empty(),
    {
        Self::empty()
    }
}

#[derive(Debug)]
pub struct LatencyAccumulator {
    pub count: u64,
    pub min_ms: Option<u64>,
    pub max_ms: Option<u64>,
    pub over_200_ms: u64,
    pub over_500_ms: u64,
    pub over_1000_ms: u64,
    pub samples: Vec<u64>,
}

/// `a + b`, capped at `u64::MAX`.
pub open spec fn sat_add(a: u64, b: u64) -> u64 {
    if a + b > u64::MAX { u64::MAX } else { (a + b) as u64 }
}

/// `a - b`, floored at zero.
pub open spec fn sat_sub(a: u64, b: u64) -> u64 {
    if a >= b { (a - b) as u64 } else { 0 }
}

/// `1` when `cond` holds, else `0`.
pub open spec fn count_if(cond: bool) -> u64 {
    if cond { 1 } else { 0 }
}

/// The running minimum after observing `m`.
pub open spec fn spec_min_after(current: Option<u64>, m: u64) -> Option<u64> {
    match current {
        Some(c) => Some(if c <= m { c } else { m }),
        None => Some(m),
    }
}

/// The running maximum after observing `m`.
pub open spec fn spec_max_after(current: Option<u64>, m: u64) -> Option<u64> {
    match current {
        Some(c) => Some(if c >= m { c } else { m }),
        None => Some(m),
    }
}

/// The slot overwritten once the window is full: the new count modulo the
/// capacity (slot 0 when the count does not fit a `usize`).
pub open spec fn spec_replace_index(count: u64) -> int {
    if count <= usize::MAX { (count as int) % (LATENCY_SAMPLE_CAPACITY as int) } else { 0 }
}

/// The sample window after observing `m` with the new `count`.
pub open spec fn spec_samples_after(samples: Seq<u64>, count: u64, m: u64) -> Seq<u64> {
    if samples.len() < LATENCY_SAMPLE_CAPACITY {
        samples.push(m)
    } else {
        samples.update(spec_replace_index(count), m)
    }
}

impl LatencyAccumulator {
    /// The sample window never exceeds its capacity.
    pub open spec fn wf(&self) -> bool {
        self.samples@.len() <= LATENCY_SAMPLE_CAPACITY
    }

    pub fn new() -> (a: LatencyAccumulator)
        ensures
            a.wf(),
            a.count == 0,
            a.min_ms is None,
            a.max_ms is None,
            a.over_200_ms == 0,
            a.over_500_ms == 0,
            a.over_1000_ms == 0,
            a.samples@ == Seq::<u64>::empty(),
    {
        LatencyAccumulator {
            count: 0,
            min_ms: None,
            max_ms: None,
            over_200_ms: 0,
            over_500_ms: 0,
            over_1000_ms: 0,
            samples: Vec::new(),
        }
    }

    /// `after` is `self` having recorded one latency of `millis` milliseconds.
    pub open spec fn spec_observed(&self, after: LatencyAccumulator, millis: u64) -> bool {
        &&& after.wf()
        &&& after.count == sat_add(self.count, 1)
        &&& after.min_ms == spec_min_after(self.min_ms, millis)
        &&& after.max_ms == spec_max_after(self.max_ms, millis)
        &&& after.over_200_ms == sat_add(self.over_200_ms, count_if(millis > 200))
        &&& after.over_500_ms == sat_add(self.over_500_ms, count_if(millis > 500))
        &&& after.over_1000_ms == sat_add(self.over_1000_ms, count_if(millis > 1000))
        &&& after.samples@ == spec_samples_after(self.samples@, after.count, millis)
    }

    /// Records one latency of `millis` milliseconds.
    pub fn observe(&mut self, millis: u64)
        requires
            old(self).wf(),
        ensures
            final(self).wf(),
            final(self).count == sat_add(old(self).count, 1),
            final(self).min_ms == spec_min_after(old(self).min_ms, millis),
            final(self).max_ms == spec_max_after(old(self).max_ms, millis),
            final(self).over_200_ms == sat_add(old(self).over_200_ms, count_if(millis > 200)),
            final(self).over_500_ms == sat_add(old(self).over_500_ms, count_if(millis > 500)),
            final(self).over_1000_ms == sat_add(old(self).over_1000_ms, count_if(millis > 1000)),
            final(self).samples@ == spec_samples_after(
                old(self).samples@,
                final(self).count,
                millis,
            ),
    {
        self.count = self.count.saturating_add(1);
        self.min_ms = match self.min_ms {
            Some(current) => Some(if current <= millis { current } else { millis }),
            None => Some(millis),
        };
        self.max_ms = match self.max_ms {
            Some(current) => Some(if current >= millis { current } else { millis }),
            None => Some(millis),
        };
        if millis > 200 {
            self.over_200_ms = self.over_200_ms.saturating_add(1);
        }
        if millis > 500 {
            self.over_500_ms = self.over_500_ms.saturating_add(1);
        }
        if millis > 1_000 {
            self.over_1000_ms = self.over_1000_ms.saturating_add(1);
        }
        if self.samples.len() < LATENCY_SAMPLE_CAPACITY {
            self.samples.push(millis);
        } else {
            let index: usize = if self.count <= usize::MAX as u64 {
                (self.count as usize) % LATENCY_SAMPLE_CAPACITY
            } else {
                0
            };
            self.samples.set(index, millis);
        }
    }

    /// The summary of everything observed so far: percentiles come from the
    /// sample window, counts and extremes from every observation.
    pub open spec fn spec_summary(&self) -> LatencySummary {
        LatencySummary {
            count: self.count,
            min_ms: self.min_ms,
            median_ms: spec_percentile(sorted_u64(self.samples@), 50),
            p95_ms: spec_percentile(sorted_u64(self.samples@), 95),
            max_ms: self.max_ms,
            over_200_ms: self.over_200_ms,
            over_500_ms: self.over_500_ms,
            over_1000_ms: self.over_1000_ms,
        }
    }

    pub fn summary(&self) -> (s: LatencySummary)
        requires
            self.wf(),
        ensures
            s == self.spec_summary(),
    {
        let samples = sorted_copy(&self.samples);
        proof {
            self.samples@.lemma_sort_by_ensures(u64_leq());
            vstd::seq_lib::to_multiset_len(self.samples@);
            vstd::seq_lib::to_multiset_len(samples@);
        }
        LatencySummary {
            count: self.count,
            min_ms: self.min_ms,
            median_ms: percentile(&samples, 50),
            p95_ms: percentile(&samples, 95),
            max_ms: self.max_ms,
            over_200_ms: self.over_200_ms,
            over_500_ms: self.over_500_ms,
            over_1000_ms: self.over_1000_ms,
        }
    }
}

} // verus!
