//! How smooth play is likely to feel: the session-health verdict combined
//! with the current path measurements to each room peer.
//! Durations are microseconds.

use vstd::prelude::*;
use crate::session_health::{
    QualityConfidence, SessionHealthSnapshot, SessionQuality, SessionQualityReason,
};
use crate::room_path_quality::{RoomPathQualitySnapshot, RoomPathQualityState};

verus! {

/// Path p95 round trip that makes play worth watching.
pub const WATCH_PATH_P95_MICROS: u64 = 120_000;
/// Path p95 round trip that makes sustained play poor.
pub const POOR_PATH_P95_MICROS: u64 = 250_000;
/// Path jitter that makes play worth watching.
pub const WATCH_JITTER_MICROS: u64 = 30_000;
/// Path jitter that makes sustained play poor.
pub const POOR_JITTER_MICROS: u64 = 80_000;
/// Path loss that makes play worth watching.
pub const WATCH_LOSS_BASIS_POINTS: u16 = 200;
/// Path loss that makes sustained play poor.
pub const POOR_LOSS_BASIS_POINTS: u16 = 1_000;

/// Why play may not be smooth, listed in this order.
#[derive(Clone, Copy, Debug, PartialEq, Eq, Structural)]
pub enum SmoothnessReason {
    PathRttElevated,
    PathLoss,
    PathJitterElevated,
    LocalQueueDrop,
    SequenceGap,
    SequenceReordered,
    HookSendStall,
    RuntimeRttTimeout,
    StalePathSamples,
    InsufficientCurrentData,
}

#[derive(Debug)]
pub struct SmoothnessSnapshot {
    pub level: SessionQuality,
    pub confidence: QualityConfidence,
    pub observed_at: u64,
    pub freshness_seconds: Option<u64>,
    pub reasons: Vec<SmoothnessReason>,
    pub current_path_peers: u32,
    pub worst_current_path: Option<RoomPathQualitySnapshot>,
}

/// Two snapshots with the same content.
pub open spec fn same_smoothness(a: SmoothnessSnapshot, b: SmoothnessSnapshot) -> bool {
    &&& a.level == b.level
    &&& a.confidence == b.confidence
    &&& a.observed_at == b.observed_at
    &&& a.freshness_seconds == b.freshness_seconds
    &&& a.reasons@ == b.reasons@
    &&& a.current_path_peers == b.current_path_peers
    &&& a.worst_current_path == b.worst_current_path
}

impl SmoothnessSnapshot {
    /// A copy with the same content.
    pub fn duplicate(&self) -> (r: SmoothnessSnapshot)
        ensures
            same_smoothness(r, *self),
    {
        let mut reasons: Vec<SmoothnessReason> = Vec::new();
        let mut i: usize = 0;
        while i < self.reasons.len()
            invariant
                i <= self.reasons@.len(),
                reasons@ == self.reasons@.take(i as int),
            decreases self.reasons@.len() - i,
        {
            reasons.push(self.reasons[i]);
            proof {
                assert(self.reasons@.take(i + 1) == self.reasons@.take(i as int).push(self.reasons@[i as int]));
            }
            i = i + 1;
        }
        proof {
            assert(self.reasons@.take(self.reasons@.len() as int) == self.reasons@);
        }
        SmoothnessSnapshot {
            level: self.level,
            confidence: self.confidence,
            observed_at: self.observed_at,
            freshness_seconds: self.freshness_seconds,
            reasons,
            current_path_peers: self.current_path_peers,
            worst_current_path: self.worst_current_path,
        }
    }
}

impl Default for SmoothnessSnapshot {
    fn default() -> (s: SmoothnessSnapshot)
        ensures
            s.level == SessionQuality::Unavailable,
            s.confidence == QualityConfidence::Unrated,
            s.observed_at == 0,
            s.freshness_seconds is None,
            s.reasons@ == seq![SmoothnessReason::InsufficientCurrentData],
            s.current_path_peers == 0,
            s.worst_current_path is None,
    {
        let mut reasons: Vec<SmoothnessReason> = Vec::new();
        reasons.push(SmoothnessReason::InsufficientCurrentData);
        SmoothnessSnapshot {
            level: SessionQuality::Unavailable,
            confidence: QualityConfidence::Unrated,
            observed_at: 0,
            freshness_seconds: None,
            reasons,
            current_path_peers: 0,
            worst_current_path: None,
        }
    }
}

/// A path with enough fresh samples to be judged.
pub open spec fn spec_is_current(p: RoomPathQualitySnapshot) -> bool {
    p.state == RoomPathQualityState::Current && p.completed >= 5
}

/// The current paths of `paths`, in order.
pub open spec fn spec_current_paths(paths: Seq<RoomPathQualitySnapshot>) -> Seq<RoomPathQualitySnapshot>
    decreases paths.len(),
{
    if paths.len() == 0 {
        Seq::empty()
    } else {
        let rest = spec_current_paths(paths.drop_last());
        if spec_is_current(paths.last()) { rest.push(paths.last()) } else { rest }
    }
}

/// Probes that completed without an answer.
pub open spec fn spec_missing(p: RoomPathQualitySnapshot) -> u32 {
    if p.completed >= p.responses { (p.completed - p.responses) as u32 } else { 0 }
}

pub open spec fn spec_rtt_watch(p: RoomPathQualitySnapshot) -> bool {
    p.p95_rtt matches Some(rtt) && rtt >= WATCH_PATH_P95_MICROS
}

pub open spec fn spec_loss_watch(p: RoomPathQualitySnapshot) -> bool {
    p.loss_basis_points matches Some(loss) && loss >= WATCH_LOSS_BASIS_POINTS && spec_missing(p) >= 2
}

pub open spec fn spec_jitter_watch(p: RoomPathQualitySnapshot) -> bool {
    p.jitter matches Some(jitter) && jitter >= WATCH_JITTER_MICROS
}

/// A sustained path (ten or more samples) that is poor on round trip, loss or jitter.
pub open spec fn spec_path_poor(p: RoomPathQualitySnapshot) -> bool {
    p.completed >= 10 && {
        ||| (p.p95_rtt matches Some(rtt) && rtt >= POOR_PATH_P95_MICROS)
        ||| (p.loss_basis_points matches Some(loss) && loss >= POOR_LOSS_BASIS_POINTS
            && spec_missing(p) >= 3)
        ||| (p.jitter matches Some(jitter) && jitter >= POOR_JITTER_MICROS)
    }
}

pub open spec fn spec_path_watch(p: RoomPathQualitySnapshot) -> bool {
    spec_rtt_watch(p) || spec_loss_watch(p) || spec_jitter_watch(p)
}

/// The smoothness reason a session-health reason stands for, if any.
pub open spec fn spec_local_reason(r: SessionQualityReason) -> Option<SmoothnessReason> {
    match r {
        SessionQualityReason::LocalQueueDrop => Some(SmoothnessReason::LocalQueueDrop),
        SessionQualityReason::NetworkSendDrop => Some(SmoothnessReason::LocalQueueDrop),
        SessionQualityReason::DirectSendDrop => Some(SmoothnessReason::LocalQueueDrop),
        SessionQualityReason::DirectReceiveDrop => Some(SmoothnessReason::LocalQueueDrop),
        SessionQualityReason::DeliveryGap => Some(SmoothnessReason::SequenceGap),
        SessionQualityReason::DeliveryReordered => Some(SmoothnessReason::SequenceReordered),
        SessionQualityReason::HookSendStall => Some(SmoothnessReason::HookSendStall),
        SessionQualityReason::RuntimeRttTimeout => Some(SmoothnessReason::RuntimeRttTimeout),
        SessionQualityReason::StartupOrIdle => None,
    }
}

/// The smoothness reason a session-health reason stands for, if any.
pub fn map_local_reason(r: SessionQualityReason) -> (m: Option<SmoothnessReason>)
    ensures
        m == spec_local_reason(r),
{
    match r {
        SessionQualityReason::LocalQueueDrop => Some(SmoothnessReason::LocalQueueDrop),
        SessionQualityReason::NetworkSendDrop => Some(SmoothnessReason::LocalQueueDrop),
        SessionQualityReason::DirectSendDrop => Some(SmoothnessReason::LocalQueueDrop),
        SessionQualityReason::DirectReceiveDrop => Some(SmoothnessReason::LocalQueueDrop),
        SessionQualityReason::DeliveryGap => Some(SmoothnessReason::SequenceGap),
        SessionQualityReason::DeliveryReordered => Some(SmoothnessReason::SequenceReordered),
        SessionQualityReason::HookSendStall => Some(SmoothnessReason::HookSendStall),
        SessionQualityReason::RuntimeRttTimeout => Some(SmoothnessReason::RuntimeRttTimeout),
        SessionQualityReason::StartupOrIdle => None,
    }
}

/// Whether a reason of the session-health verdict stands for `r`.
pub open spec fn spec_has_local(reasons: Seq<SessionQualityReason>, r: SmoothnessReason) -> bool {
    exists|i: int| 0 <= i < reasons.len() && spec_local_reason(#[trigger] reasons[i]) == Some(r)
}

/// Whether some current path gives `r`, or the session-health verdict does.
pub open spec fn spec_flagged(
    reasons: Seq<SessionQualityReason>,
    current: Seq<RoomPathQualitySnapshot>,
    r: SmoothnessReason,
) -> bool {
    match r {
        SmoothnessReason::PathRttElevated => exists|i: int| 0 <= i < current.len() && spec_rtt_watch(#[trigger] current[i]),
        SmoothnessReason::PathLoss => exists|i: int| 0 <= i < current.len() && spec_loss_watch(#[trigger] current[i]),
        SmoothnessReason::PathJitterElevated => exists|i: int| 0 <= i < current.len() && spec_jitter_watch(#[trigger] current[i]),
        _ => spec_has_local(reasons, r),
    }
}

/// `s` with `r` appended when `cond` holds.
pub open spec fn push_if(s: Seq<SmoothnessReason>, cond: bool, r: SmoothnessReason) -> Seq<SmoothnessReason> {
    if cond { s.push(r) } else { s }
}

/// Every flagged reason once, in reason order.
pub open spec fn spec_ordered_reasons(
    reasons: Seq<SessionQualityReason>,
    current: Seq<RoomPathQualitySnapshot>,
) -> Seq<SmoothnessReason> {
    let f = |r: SmoothnessReason| spec_flagged(reasons, current, r);
    let s0 = push_if(Seq::empty(), f(SmoothnessReason::PathRttElevated), SmoothnessReason::PathRttElevated);
    let s1 = push_if(s0, f(SmoothnessReason::PathLoss), SmoothnessReason::PathLoss);
    let s2 = push_if(s1, f(SmoothnessReason::PathJitterElevated), SmoothnessReason::PathJitterElevated);
    let s3 = push_if(s2, f(SmoothnessReason::LocalQueueDrop), SmoothnessReason::LocalQueueDrop);
    let s4 = push_if(s3, f(SmoothnessReason::SequenceGap), SmoothnessReason::SequenceGap);
    let s5 = push_if(s4, f(SmoothnessReason::SequenceReordered), SmoothnessReason::SequenceReordered);
    let s6 = push_if(s5, f(SmoothnessReason::HookSendStall), SmoothnessReason::HookSendStall);
    push_if(s6, f(SmoothnessReason::RuntimeRttTimeout), SmoothnessReason::RuntimeRttTimeout)
}

/// The order of confidence levels.
pub open spec fn confidence_rank(c: QualityConfidence) -> nat {
    match c {
        QualityConfidence::Unrated => 0,
        QualityConfidence::Low => 1,
        QualityConfidence::Medium => 2,
        QualityConfidence::High => 3,
    }
}

/// The higher of two confidences.
pub open spec fn spec_max_confidence(a: QualityConfidence, b: QualityConfidence) -> QualityConfidence {
    if confidence_rank(a) >= confidence_rank(b) { a } else { b }
}

/// The higher of two confidences.
pub fn max_confidence(a: QualityConfidence, b: QualityConfidence) -> (c: QualityConfidence)
    ensures
        c == spec_max_confidence(a, b),
{
    match (a, b) {
        (QualityConfidence::High, _) | (_, QualityConfidence::High) => QualityConfidence::High,
        (QualityConfidence::Medium, _) | (_, QualityConfidence::Medium) => QualityConfidence::Medium,
        (QualityConfidence::Low, _) | (_, QualityConfidence::Low) => QualityConfidence::Low,
        (QualityConfidence::Unrated, QualityConfidence::Unrated) => QualityConfidence::Unrated,
    }
}

/// Confidence earned by the best-sampled current path.
pub open spec fn spec_path_confidence(samples: u32) -> QualityConfidence {
    if samples >= 20 {
        QualityConfidence::High
    } else if samples >= 10 {
        QualityConfidence::Medium
    } else if samples >= 5 {
        QualityConfidence::Low
    } else {
        QualityConfidence::Unrated
    }
}

/// Confidence earned by the best-sampled current path.
pub fn path_confidence(samples: u32) -> (c: QualityConfidence)
    ensures
        c == spec_path_confidence(samples),
{
    if samples >= 20 {
        QualityConfidence::High
    } else if samples >= 10 {
        QualityConfidence::Medium
    } else if samples >= 5 {
        QualityConfidence::Low
    } else {
        QualityConfidence::Unrated
    }
}

/// A path's severity key: loss, then p95 and jitter in whole milliseconds.
pub open spec fn spec_score(p: RoomPathQualitySnapshot) -> (u16, u64, u64) {
    (
        match p.loss_basis_points { Some(l) => l, None => 0 },
        (match p.p95_rtt { Some(r) => r, None => 0 }) / 1000,
        (match p.jitter { Some(j) => j, None => 0 }) / 1000,
    )
}

/// Lexicographic `a >= b` on severity keys.
pub open spec fn score_ge(a: (u16, u64, u64), b: (u16, u64, u64)) -> bool {
    a.0 > b.0 || (a.0 == b.0 && (a.1 > b.1 || (a.1 == b.1 && a.2 >= b.2)))
}

/// The most severe path; among equally severe ones, the last.
pub open spec fn spec_worst(paths: Seq<RoomPathQualitySnapshot>) -> Option<RoomPathQualitySnapshot>
    decreases paths.len(),
{
    if paths.len() == 0 {
        None
    } else {
        match spec_worst(paths.drop_last()) {
            None => Some(paths.last()),
            Some(w) => if score_ge(spec_score(paths.last()), spec_score(w)) {
                Some(paths.last())
            } else {
                Some(w)
            },
        }
    }
}

/// The largest sample count among `paths` (zero when there are none).
pub open spec fn spec_max_completed(paths: Seq<RoomPathQualitySnapshot>) -> u32
    decreases paths.len(),
{
    if paths.len() == 0 {
        0
    } else {
        let m = spec_max_completed(paths.drop_last());
        if paths.last().completed > m { paths.last().completed } else { m }
    }
}

/// The oldest-sample age in whole seconds, over the paths that have one.
pub open spec fn spec_max_freshness_seconds(paths: Seq<RoomPathQualitySnapshot>) -> Option<u64>
    decreases paths.len(),
{
    if paths.len() == 0 {
        None
    } else {
        let m = spec_max_freshness_seconds(paths.drop_last());
        match paths.last().freshness {
            None => m,
            Some(age) => {
                let secs = (age / 1_000_000) as u64;
                match m {
                    None => Some(secs),
                    Some(x) => Some(if secs > x { secs } else { x }),
                }
            },
        }
    }
}

pub open spec fn spec_health_level(health: Option<&SessionHealthSnapshot>) -> SessionQuality {
    match health {
        Some(h) => h.quality,
        None => SessionQuality::Unavailable,
    }
}

pub open spec fn spec_health_reasons(health: Option<&SessionHealthSnapshot>) -> Seq<SessionQualityReason> {
    match health {
        Some(h) => h.reasons@,
        None => Seq::empty(),
    }
}

/// The combined level: poor or watch if either side says so, good once any
/// path is current or the session is good, otherwise what the session says.
pub open spec fn spec_level(health_level: SessionQuality, current: Seq<RoomPathQualitySnapshot>) -> SessionQuality {
    let any_poor = exists|i: int| 0 <= i < current.len() && spec_path_poor(#[trigger] current[i]);
    let any_watch = exists|i: int| 0 <= i < current.len() && spec_path_watch(#[trigger] current[i]);
    if any_poor || health_level == SessionQuality::Poor {
        SessionQuality::Poor
    } else if any_watch || health_level == SessionQuality::Watch {
        SessionQuality::Watch
    } else if current.len() > 0 || health_level == SessionQuality::Good {
        SessionQuality::Good
    } else {
        health_level
    }
}

/// Whether any path, current or not, is stale.
pub open spec fn spec_any_stale(paths: Seq<RoomPathQualitySnapshot>) -> bool {
    exists|i: int| 0 <= i < paths.len() && (#[trigger] paths[i]).state == RoomPathQualityState::Stale
}

/// The full assessment.
pub open spec fn spec_assessment(
    s: SmoothnessSnapshot,
    health: Option<&SessionHealthSnapshot>,
    paths: Seq<RoomPathQualitySnapshot>,
    observed_at: u64,
) -> bool {
    let current = spec_current_paths(paths);
    let level = spec_level(spec_health_level(health), current);
    let base = match health {
        Some(h) => h.confidence,
        None => QualityConfidence::Unrated,
    };
    &&& s.level == level
    &&& s.observed_at == observed_at
    &&& s.freshness_seconds == spec_max_freshness_seconds(current)
    &&& s.current_path_peers == (if current.len() > u32::MAX { u32::MAX } else { current.len() as u32 })
    &&& s.worst_current_path == spec_worst(current)
    &&& (if level == SessionQuality::Unavailable {
        &&& s.confidence == QualityConfidence::Unrated
        &&& s.reasons@ == seq![
            if spec_any_stale(paths) {
                SmoothnessReason::StalePathSamples
            } else {
                SmoothnessReason::InsufficientCurrentData
            },
        ]
    } else {
        &&& s.confidence == spec_max_confidence(base, spec_path_confidence(spec_max_completed(current)))
        &&& s.reasons@ == spec_ordered_reasons(spec_health_reasons(health), current)
    })
}

fn push_when(reasons: &mut Vec<SmoothnessReason>, cond: bool, r: SmoothnessReason)
    ensures
        final(reasons)@ == push_if(old(reasons)@, cond, r),
{
    if cond {
        reasons.push(r);
    }
}

/// Whether some reason of `reasons` stands for `r`.
fn has_local(reasons: &Vec<SessionQualityReason>, r: SmoothnessReason) -> (b: bool)
    ensures
        b == spec_has_local(reasons@, r),
{
    let mut i: usize = 0;
    while i < reasons.len()
        invariant
            i <= reasons@.len(),
            forall|k: int| 0 <= k < i ==> spec_local_reason(#[trigger] reasons@[k]) != Some(r),
        decreases reasons@.len() - i,
    {
        if map_local_reason(reasons[i]) == Some(r) {
            return true;
        }
        i = i + 1;
    }
    false
}

fn score_at_least(a: &RoomPathQualitySnapshot, b: &RoomPathQualitySnapshot) -> (r: bool)
    ensures
        r == score_ge(spec_score(*a), spec_score(*b)),
{
    let al: u16 = match a.loss_basis_points { Some(l) => l, None => 0 };
    let bl: u16 = match b.loss_basis_points { Some(l) => l, None => 0 };
    let ar: u64 = (match a.p95_rtt { Some(r) => r, None => 0 }) / 1000;
    let br: u64 = (match b.p95_rtt { Some(r) => r, None => 0 }) / 1000;
    let aj: u64 = (match a.jitter { Some(j) => j, None => 0 }) / 1000;
    let bj: u64 = (match b.jitter { Some(j) => j, None => 0 }) / 1000;
    al > bl || (al == bl && (ar > br || (ar == br && aj >= bj)))
}

fn is_rtt_watch(p: &RoomPathQualitySnapshot) -> (r: bool)
    ensures
        r == spec_rtt_watch(*p),
{
    match p.p95_rtt {
        Some(rtt) => rtt >= WATCH_PATH_P95_MICROS,
        None => false,
    }
}

fn is_loss_watch(p: &RoomPathQualitySnapshot) -> (r: bool)
    ensures
        r == spec_loss_watch(*p),
{
    let missing: u32 = p.completed.saturating_sub(p.responses);
    match p.loss_basis_points {
        Some(loss) => loss >= WATCH_LOSS_BASIS_POINTS && missing >= 2,
        None => false,
    }
}

fn is_jitter_watch(p: &RoomPathQualitySnapshot) -> (r: bool)
    ensures
        r == spec_jitter_watch(*p),
{
    match p.jitter {
        Some(jitter) => jitter >= WATCH_JITTER_MICROS,
        None => false,
    }
}

fn is_path_poor(p: &RoomPathQualitySnapshot) -> (r: bool)
    ensures
        r == spec_path_poor(*p),
{
    let missing: u32 = p.completed.saturating_sub(p.responses);
    let rtt = match p.p95_rtt {
        Some(rtt) => rtt >= POOR_PATH_P95_MICROS,
        None => false,
    };
    let loss = match p.loss_basis_points {
        Some(loss) => loss >= POOR_LOSS_BASIS_POINTS && missing >= 3,
        None => false,
    };
    let jitter = match p.jitter {
        Some(jitter) => jitter >= POOR_JITTER_MICROS,
        None => false,
    };
    p.completed >= 10 && (rtt || loss || jitter)
}

/// Combines the session-health verdict with the room paths at `observed_at`.
pub fn assess_smoothness(
    health: Option<&SessionHealthSnapshot>,
    paths: &Vec<RoomPathQualitySnapshot>,
    observed_at: u64,
) -> (s: SmoothnessSnapshot)
    ensures
        spec_assessment(s, health, paths@, observed_at),
{
    let mut current: Vec<RoomPathQualitySnapshot> = Vec::new();
    let mut any_stale = false;
    let mut i: usize = 0;
    while i < paths.len()
        invariant
            i <= paths@.len(),
            current@ == spec_current_paths(paths@.take(i as int)),
            any_stale == spec_any_stale(paths@.take(i as int)),
        decreases paths@.len() - i,
    {
        let p = paths[i];
        proof {
            assert(paths@.take(i + 1).drop_last() == paths@.take(i as int));
            assert(paths@.take(i + 1).last() == p);
            let t = paths@.take(i + 1);
            if spec_any_stale(paths@.take(i as int)) {
                let k = choose|k: int| 0 <= k < i && (#[trigger] paths@.take(i as int)[k]).state == RoomPathQualityState::Stale;
                assert(t[k] == paths@.take(i as int)[k]);
            }
            if spec_any_stale(t) {
                let k = choose|k: int| 0 <= k < t.len() && (#[trigger] t[k]).state == RoomPathQualityState::Stale;
                if k < i {
                    assert(t[k] == paths@.take(i as int)[k]);
                }
            }
        }
        if p.state == RoomPathQualityState::Current && p.completed >= 5 {
            current.push(p);
        }
        if p.state == RoomPathQualityState::Stale {
            any_stale = true;
        }
        i = i + 1;
    }
    proof {
        assert(paths@.take(paths@.len() as int) == paths@);
    }
    let mut rtt_watch = false;
    let mut loss_watch = false;
    let mut jitter_watch = false;
    let mut path_poor = false;
    let mut worst: Option<RoomPathQualitySnapshot> = None;
    let mut max_completed: u32 = 0;
    let mut freshness: Option<u64> = None;
    let mut j: usize = 0;
    while j < current.len()
        invariant
            j <= current@.len(),
            rtt_watch == exists|k: int| 0 <= k < j && spec_rtt_watch(#[trigger] current@[k]),
            loss_watch == exists|k: int| 0 <= k < j && spec_loss_watch(#[trigger] current@[k]),
            jitter_watch == exists|k: int| 0 <= k < j && spec_jitter_watch(#[trigger] current@[k]),
            path_poor == exists|k: int| 0 <= k < j && spec_path_poor(#[trigger] current@[k]),
            worst == spec_worst(current@.take(j as int)),
            max_completed == spec_max_completed(current@.take(j as int)),
            freshness == spec_max_freshness_seconds(current@.take(j as int)),
        decreases current@.len() - j,
    {
        let p = current[j];
        proof {
            assert(current@.take(j + 1).drop_last() == current@.take(j as int));
            assert(current@.take(j + 1).last() == p);
        }
        if is_rtt_watch(&p) {
            rtt_watch = true;
        }
        if is_loss_watch(&p) {
            loss_watch = true;
        }
        if is_jitter_watch(&p) {
            jitter_watch = true;
        }
        if is_path_poor(&p) {
            path_poor = true;
        }
        worst = match worst {
            None => Some(p),
            Some(w) => if score_at_least(&p, &w) {
                Some(p)
            } else {
                Some(w)
            },
        };
        if p.completed > max_completed {
            max_completed = p.completed;
        }
        match p.freshness {
            None => {},
            Some(age) => {
                let secs = age / 1_000_000;
                freshness = match freshness {
                    None => Some(secs),
                    Some(x) => Some(if secs > x { secs } else { x }),
                };
            },
        }
        j = j + 1;
    }
    proof {
        assert(current@.take(current@.len() as int) == current@);
    }
    let health_level = match health {
        Some(h) => h.quality,
        None => SessionQuality::Unavailable,
    };
    let base = match health {
        Some(h) => h.confidence,
        None => QualityConfidence::Unrated,
    };
    let path_watch = rtt_watch || loss_watch || jitter_watch;
    proof {
        let c = current@;
        if path_watch {
            if rtt_watch {
                let k = choose|k: int| 0 <= k < c.len() && spec_rtt_watch(#[trigger] c[k]);
                assert(spec_path_watch(c[k]));
            } else if loss_watch {
                let k = choose|k: int| 0 <= k < c.len() && spec_loss_watch(#[trigger] c[k]);
                assert(spec_path_watch(c[k]));
            } else {
                let k = choose|k: int| 0 <= k < c.len() && spec_jitter_watch(#[trigger] c[k]);
                assert(spec_path_watch(c[k]));
            }
        }
    }
    let level = if path_poor || health_level == SessionQuality::Poor {
        SessionQuality::Poor
    } else if path_watch || health_level == SessionQuality::Watch {
        SessionQuality::Watch
    } else if current.len() > 0 || health_level == SessionQuality::Good {
        SessionQuality::Good
    } else {
        health_level
    };
    let current_path_peers: u32 = if current.len() > 4_294_967_295usize {
        u32::MAX
    } else {
        current.len() as u32
    };
    let mut reasons: Vec<SmoothnessReason> = Vec::new();
    let confidence;
    if level == SessionQuality::Unavailable {
        confidence = QualityConfidence::Unrated;
        reasons.push(
            if any_stale {
                SmoothnessReason::StalePathSamples
            } else {
                SmoothnessReason::InsufficientCurrentData
            },
        );
    } else {
        confidence = max_confidence(base, path_confidence(max_completed));
        let empty: Vec<SessionQualityReason> = Vec::new();
        let local: &Vec<SessionQualityReason> = match health {
            Some(h) => &h.reasons,
            None => &empty,
        };
        push_when(&mut reasons, rtt_watch, SmoothnessReason::PathRttElevated);
        push_when(&mut reasons, loss_watch, SmoothnessReason::PathLoss);
        push_when(&mut reasons, jitter_watch, SmoothnessReason::PathJitterElevated);
        let queue = has_local(local, SmoothnessReason::LocalQueueDrop);
        push_when(&mut reasons, queue, SmoothnessReason::LocalQueueDrop);
        let gap = has_local(local, SmoothnessReason::SequenceGap);
        push_when(&mut reasons, gap, SmoothnessReason::SequenceGap);
        let reordered = has_local(local, SmoothnessReason::SequenceReordered);
        push_when(&mut reasons, reordered, SmoothnessReason::SequenceReordered);
        let stall = has_local(local, SmoothnessReason::HookSendStall);
        push_when(&mut reasons, stall, SmoothnessReason::HookSendStall);
        let timeout = has_local(local, SmoothnessReason::RuntimeRttTimeout);
        push_when(&mut reasons, timeout, SmoothnessReason::RuntimeRttTimeout);
    }
    SmoothnessSnapshot {
        level,
        confidence,
        observed_at,
        freshness_seconds: freshness,
        reasons,
        current_path_peers,
        worst_current_path: worst,
    }
}

} // verus!
