//! Waiting for the game process: each poll either binds a newly launched
//! process, or, after a grace period, one that was already running when the
//! wait began; the wait gives up after its timeout and notes its progress at
//! a fixed interval. The caller polls the process list, sleeps and watches
//! for cancellation; instants are milliseconds.

use vstd::prelude::*;
use crate::process_choice::{ProcessCandidate, newest_process, spec_newest};

verus! {

/// The limits of a wait, in milliseconds.
#[derive(Clone, Copy, Debug, PartialEq, Eq, Structural)]
pub struct ProcessWaitSettings {
    pub wait_timeout: u64,
    pub preexisting_grace: u64,
    pub notice_interval: u64,
}

/// How the bound process was found.
#[derive(Clone, Copy, Debug, PartialEq, Eq, Structural)]
pub enum ProcessBindingSource {
    NewLaunch,
    PreexistingFallback,
}

/// What a poll decides.
#[derive(Clone, Copy, Debug, PartialEq, Eq, Structural)]
pub enum WaitDecision {
    /// The wait lasted its whole timeout.
    TimedOut,
    /// This process is bound; `candidate_count` processes were listed.
    Bound { process: ProcessCandidate, source: ProcessBindingSource, candidate_count: usize },
    /// Sleep and poll again, first noting the wait's length in seconds if
    /// a notice is due.
    Continue { notice_seconds: Option<u64> },
}

/// A wait under way: when it began and, counted from then, when the next
/// notice is due.
#[derive(Clone, Copy, Debug, PartialEq, Eq, Structural)]
pub struct ProcessWait {
    pub started: u64,
    pub next_notice: u64,
}

/// The candidates that were (`known`) or were not running before the wait.
pub open spec fn spec_split(cands: Seq<ProcessCandidate>, before: Seq<ProcessCandidate>, known: bool) -> Seq<ProcessCandidate>
    decreases cands.len(),
{
    if cands.len() == 0 {
        cands
    } else if before.contains(cands.last()) == known {
        spec_split(cands.drop_last(), before, known).push(cands.last())
    } else {
        spec_split(cands.drop_last(), before, known)
    }
}

/// What a poll at `now` decides, given the processes listed (none when the
/// listing failed), and the wait after it.
pub open spec fn spec_wait_step(
    w: ProcessWait,
    s: ProcessWaitSettings,
    now: u64,
    listed: Option<Seq<ProcessCandidate>>,
    before: Seq<ProcessCandidate>,
) -> (ProcessWait, WaitDecision) {
    let elapsed: int = if now >= w.started { now - w.started } else { 0 };
    if elapsed >= s.wait_timeout {
        (w, WaitDecision::TimedOut)
    } else if listed is Some && spec_newest(spec_split(listed->0, before, false), spec_split(listed->0, before, false).len() as int) is Some {
        (w, WaitDecision::Bound {
            process: spec_newest(spec_split(listed->0, before, false), spec_split(listed->0, before, false).len() as int)->0,
            source: ProcessBindingSource::NewLaunch,
            candidate_count: listed->0.len() as usize,
        })
    } else if listed is Some && elapsed >= s.preexisting_grace
        && spec_newest(spec_split(listed->0, before, true), spec_split(listed->0, before, true).len() as int) is Some {
        (w, WaitDecision::Bound {
            process: spec_newest(spec_split(listed->0, before, true), spec_split(listed->0, before, true).len() as int)->0,
            source: ProcessBindingSource::PreexistingFallback,
            candidate_count: listed->0.len() as usize,
        })
    } else if elapsed >= w.next_notice {
        (ProcessWait { next_notice: (w.next_notice + s.notice_interval) as u64, ..w },
            WaitDecision::Continue { notice_seconds: Some((elapsed / 1000) as u64) })
    } else {
        (w, WaitDecision::Continue { notice_seconds: None })
    }
}

fn contains_process(ps: &Vec<ProcessCandidate>, p: ProcessCandidate) -> (r: bool)
    ensures
        r == ps@.contains(p),
{
    let mut i: usize = 0;
    while i < ps.len()
        invariant
            i <= ps@.len(),
            forall|k: int| 0 <= k < i ==> ps@[k] != p,
        decreases ps@.len() - i,
    {
        if ps[i] == p {
            proof {
                assert(ps@[i as int] == p);
            }
            return true;
        }
        i = i + 1;
    }
    false
}

fn split(cands: &Vec<ProcessCandidate>, before: &Vec<ProcessCandidate>, known: bool) -> (out: Vec<ProcessCandidate>)
    ensures
        out@ == spec_split(cands@, before@, known),
{
    let mut out: Vec<ProcessCandidate> = Vec::new();
    let mut i: usize = 0;
    while i < cands.len()
        invariant
            i <= cands@.len(),
            out@ == spec_split(cands@.take(i as int), before@, known),
        decreases cands@.len() - i,
    {
        proof {
            assert(cands@.take(i + 1).drop_last() == cands@.take(i as int));
        }
        if contains_process(before, cands[i]) == known {
            out.push(cands[i]);
        }
        i = i + 1;
    }
    proof {
        assert(cands@.take(cands@.len() as int) == cands@);
    }
    out
}

impl ProcessWait {
    /// A wait that began at `now`, its first notice one interval later.
    pub fn new(now: u64, settings: ProcessWaitSettings) -> (w: ProcessWait)
        ensures
            w == (ProcessWait { started: now, next_notice: settings.notice_interval }),
    {
        ProcessWait { started: now, next_notice: settings.notice_interval }
    }

    /// Decides on one poll at `now`; see `spec_wait_step`.
    pub fn step(
        &mut self,
        settings: ProcessWaitSettings,
        now: u64,
        listed: Option<&Vec<ProcessCandidate>>,
        before: &Vec<ProcessCandidate>,
    ) -> (d: WaitDecision)
        requires
            old(self).next_notice + settings.notice_interval <= u64::MAX,
        ensures
            (*final(self), d) == spec_wait_step(*old(self), settings, now,
                match listed { Some(l) => Some(l@), None => None }, before@),
    {
        let elapsed: u64 = if now >= self.started { now - self.started } else { 0 };
        if elapsed >= settings.wait_timeout {
            return WaitDecision::TimedOut;
        }
        match listed {
            Some(l) => {
                let fresh = split(l, before, false);
                match newest_process(&fresh) {
                    Some(p) => {
                        return WaitDecision::Bound {
                            process: p,
                            source: ProcessBindingSource::NewLaunch,
                            candidate_count: l.len(),
                        };
                    },
                    None => {},
                }
                if elapsed >= settings.preexisting_grace {
                    let known = split(l, before, true);
                    match newest_process(&known) {
                        Some(p) => {
                            return WaitDecision::Bound {
                                process: p,
                                source: ProcessBindingSource::PreexistingFallback,
                                candidate_count: l.len(),
                            };
                        },
                        None => {},
                    }
                }
            },
            None => {},
        }
        if elapsed >= self.next_notice {
            self.next_notice = self.next_notice + settings.notice_interval;
            WaitDecision::Continue { notice_seconds: Some(elapsed / 1000) }
        } else {
            WaitDecision::Continue { notice_seconds: None }
        }
    }
}

} // verus!
