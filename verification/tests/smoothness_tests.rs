use bridge_core::session_health::{SessionHealth, SessionQualityReason};
use bridge_core::room_path_quality::{RoomPathQualitySnapshot, RoomPathQualityState};
use bridge_core::session_health::{QualityConfidence, SessionQuality};
use bridge_core::smoothness::{assess_smoothness, SmoothnessReason, SmoothnessSnapshot};

const MILLI: u64 = 1_000;
const SECOND: u64 = 1_000_000;

fn path(
    state: RoomPathQualityState,
    completed: u32,
    responses: u32,
    p95_ms: u64,
    loss_basis_points: u16,
    jitter_ms: u64,
) -> RoomPathQualitySnapshot {
    RoomPathQualitySnapshot {
        state,
        completed,
        responses,
        p95_rtt: Some(p95_ms * MILLI),
        jitter: Some(jitter_ms * MILLI),
        loss_basis_points: Some(loss_basis_points),
        freshness: Some(SECOND),
        ..RoomPathQualitySnapshot::default()
    }
}

#[test]
fn stale_or_insufficient_evidence_is_unavailable() {
    let stale = path(RoomPathQualityState::Stale, 30, 30, 20, 0, 5);
    let estimate = assess_smoothness(None, &vec![stale], 10);
    assert_eq!(estimate.level, SessionQuality::Unavailable);
    assert_eq!(estimate.confidence, QualityConfidence::Unrated);
    assert_eq!(estimate.reasons, vec![SmoothnessReason::StalePathSamples]);
}

#[test]
fn sustained_path_degradation_is_poor_but_one_loss_is_not() {
    let isolated = path(RoomPathQualityState::Current, 30, 29, 40, 334, 5);
    assert_eq!(
        assess_smoothness(None, &vec![isolated], 10).level,
        SessionQuality::Good
    );

    let degraded = path(RoomPathQualityState::Current, 30, 24, 300, 2_000, 90);
    let estimate = assess_smoothness(None, &vec![degraded], 10);
    assert_eq!(estimate.level, SessionQuality::Poor);
    assert_eq!(estimate.confidence, QualityConfidence::High);
    assert_eq!(
        estimate.reasons,
        vec![
            SmoothnessReason::PathRttElevated,
            SmoothnessReason::PathLoss,
            SmoothnessReason::PathJitterElevated,
        ]
    );
}

#[test]
fn smoothness_reports_worst_path_freshness_and_peer_count() {
    let mild = RoomPathQualitySnapshot {
        steam_id64: 1,
        ..path(RoomPathQualityState::Current, 12, 12, 130, 0, 5)
    };
    let worse = RoomPathQualitySnapshot {
        steam_id64: 2,
        freshness: Some(3 * SECOND + 500 * MILLI),
        ..path(RoomPathQualityState::Current, 6, 5, 40, 1_666, 5)
    };
    let measuring = path(RoomPathQualityState::Measuring, 3, 3, 900, 0, 500);
    let estimate = assess_smoothness(None, &vec![mild, worse, measuring], 77);
    assert_eq!(estimate.level, SessionQuality::Watch);
    assert_eq!(estimate.confidence, QualityConfidence::Medium);
    assert_eq!(estimate.observed_at, 77);
    assert_eq!(estimate.current_path_peers, 2);
    assert_eq!(estimate.freshness_seconds, Some(3));
    assert_eq!(estimate.worst_current_path.map(|p| p.steam_id64), Some(2));
    assert_eq!(estimate.reasons, vec![SmoothnessReason::PathRttElevated]);
}

#[test]
fn default_smoothness_is_unavailable_for_lack_of_data() {
    let snapshot = SmoothnessSnapshot::default();
    assert_eq!(snapshot.level, SessionQuality::Unavailable);
    assert_eq!(snapshot.reasons, vec![SmoothnessReason::InsufficientCurrentData]);
    assert_eq!(assess_smoothness(None, &Vec::new(), 0).reasons, vec![SmoothnessReason::InsufficientCurrentData]);
}

#[test]
fn smoothness_is_never_better_than_the_session_verdict() {
    let mut health = SessionHealth::new(false, SECOND, 0);
    let mut snapshot = health.snapshot(60 * SECOND);
    snapshot.quality = SessionQuality::Poor;
    snapshot.confidence = QualityConfidence::Low;
    snapshot.reasons = vec![SessionQualityReason::DeliveryGap, SessionQualityReason::DirectSendDrop];
    let good_path = path(RoomPathQualityState::Current, 30, 30, 20, 0, 5);
    let estimate = assess_smoothness(Some(&snapshot), &vec![good_path], 1);
    assert_eq!(estimate.level, SessionQuality::Poor);
    assert_eq!(estimate.confidence, QualityConfidence::High);
    assert_eq!(
        estimate.reasons,
        vec![SmoothnessReason::LocalQueueDrop, SmoothnessReason::SequenceGap]
    );
}
