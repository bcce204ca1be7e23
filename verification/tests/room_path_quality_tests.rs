use bridge_core::room_path_quality::{
    PathProbePeer, RoomPathQuality, RoomPathQualityState, PROBE_TIMEOUT_MICROS,
};

const SECOND: u64 = 1_000_000;
const MILLI: u64 = 1_000;
const START: u64 = 1_000 * SECOND;

fn peer(steam_id64: u64) -> PathProbePeer {
    PathProbePeer {
        steam_id64,
        connected: true,
        room_path_probe: true,
    }
}

#[test]
fn publishes_bounded_window_median_jitter_and_loss() {
    let start = START;
    let mut quality = RoomPathQuality::new();
    quality.sync_peers(&vec![peer(1), peer(2)], 1);
    for id in 1..=35 {
        let sent = start + id * SECOND;
        quality.record_sent(2, id, sent);
        if id % 5 == 0 {
            quality.expire(sent + PROBE_TIMEOUT_MICROS);
        } else {
            let rtt = (20 + id) * MILLI;
            assert!(quality.record_echo(2, id, sent + rtt));
        }
    }
    let snapshot = quality.snapshots(start + 40 * SECOND)[0];
    assert_eq!(snapshot.completed, 30);
    assert_eq!(snapshot.responses, 24);
    assert_eq!(snapshot.loss_basis_points, Some(2_000));
    assert!(snapshot.median_rtt.is_some());
    assert!(snapshot.p95_rtt >= snapshot.median_rtt);
    assert!(snapshot.jitter.is_some());
}

#[test]
fn measuring_becomes_stale_and_peer_removal_clears_state() {
    let start = START;
    let mut quality = RoomPathQuality::new();
    quality.sync_peers(&vec![peer(1), peer(2)], 1);
    for id in 1..=5 {
        quality.record_sent(2, id, start);
        assert!(quality.record_echo(2, id, start + id * 10 * MILLI));
    }
    assert_eq!(
        quality.snapshots(start + SECOND)[0].state,
        RoomPathQualityState::Current
    );
    assert_eq!(
        quality.snapshots(start + 6 * SECOND)[0].state,
        RoomPathQualityState::Stale
    );
    quality.sync_peers(&vec![peer(1)], 1);
    assert!(quality.snapshots(start).is_empty());
}

#[test]
fn jitter_uses_only_the_completed_sample_window() {
    let start = START;
    let mut quality = RoomPathQuality::new();
    quality.sync_peers(&vec![peer(1), peer(2)], 1);
    for id in 1..=31 {
        let sent = start + id * SECOND;
        quality.record_sent(2, id, sent);
        let rtt = if id == 1 { 500 * MILLI } else { 20 * MILLI };
        assert!(quality.record_echo(2, id, sent + rtt));
    }

    assert_eq!(quality.snapshots(start + 32 * SECOND)[0].jitter, Some(0));
}

#[test]
fn path_snapshot_reports_exact_percentiles_and_loss() {
    let start = START;
    let mut quality = RoomPathQuality::new();
    quality.sync_peers(&vec![peer(7)], 1);
    for id in 1..=4 {
        quality.record_sent(7, id, start);
        assert!(quality.record_echo(7, id, start + id * 10 * MILLI));
    }
    quality.record_sent(7, 5, start);
    quality.expire(start + PROBE_TIMEOUT_MICROS);
    let snapshot = quality.snapshots(start + PROBE_TIMEOUT_MICROS)[0];
    assert_eq!(snapshot.steam_id64, 7);
    assert_eq!(snapshot.completed, 5);
    assert_eq!(snapshot.responses, 4);
    assert_eq!(snapshot.median_rtt, Some(30 * MILLI));
    assert_eq!(snapshot.p95_rtt, Some(40 * MILLI));
    assert_eq!(snapshot.jitter, Some(10 * MILLI));
    assert_eq!(snapshot.loss_basis_points, Some(2_000));
    assert_eq!(snapshot.freshness, Some(0));
    assert!(!quality.record_echo(7, 5, start));
    assert!(!quality.record_echo(8, 1, start));
}

#[test]
fn non_probing_and_local_peers_are_not_measured() {
    let mut quality = RoomPathQuality::new();
    let offline = PathProbePeer {
        steam_id64: 3,
        connected: false,
        room_path_probe: true,
    };
    let old_client = PathProbePeer {
        steam_id64: 4,
        connected: true,
        room_path_probe: false,
    };
    quality.sync_peers(&vec![peer(9), peer(1), offline, old_client, peer(5)], 1);
    assert_eq!(quality.targets(), vec![5, 9]);
    quality.clear();
    assert!(quality.targets().is_empty());
}
