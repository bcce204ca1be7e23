use bridge_core::lan_membership::{
    key_at_or_before, ActiveLink, LinkKey, Membership, PeerId, RecoveryDeadline, RegisterResult,
    PEER_RECOVERY_HORIZON_MILLIS,
};
use bridge_core::lan_path::{
    check_pairs, controls_path, select_candidate_pair, Candidate, CheckEntry, CheckState, EndpointPair, LanPeerPathStatus, PathMaterial, PathTick,
    PeerPath,
};
use bridge_core::lan_join_code::LanEndpoint;
use bridge_core::direct_log::{direct_summary_line, task_exit_message, transition_level, transition_log, TaskExit};
use bridge_core::logging::LogLevel;
use bridge_core::lan_data::{LanDataDropReason, LanDataStage};
use bridge_core::lan_ledger::{
    LanDataDirection, LanDataLedger, LanDataOutcome, LanIncidentTransitionKind,
    CLOSED_EPOCH_DETAIL_CAPACITY, PER_PEER_PACKET_QUEUE_CAPACITY, TRANSITION_CAPACITY,
};

#[test]
fn monitor_keeps_rejections_recorded_before_attachment() {
    let mut ledger = LanDataLedger::new();
    let key = ledger.activate(2, 1, 0);
    ledger.record(
        key,
        LanDataDirection::Receive,
        LanDataStage::InboundQueue,
        LanDataOutcome::Dropped(LanDataDropReason::QueueFull),
        Some(PER_PEER_PACKET_QUEUE_CAPACITY),
        0,
    );

    let snapshot = ledger.snapshot();
    assert_eq!(snapshot.receive.dropped, 1);
    assert_eq!(snapshot.peers[0].receive.dropped, 1);
    assert_eq!(ledger.drain_transitions().len(), 1);
}

#[test]
fn unattached_target_rejection_is_closed_when_the_first_epoch_activates() {
    let mut ledger = LanDataLedger::new();
    let key = ledger.unattached(2);
    ledger.record(
        key,
        LanDataDirection::Send,
        LanDataStage::OutboundQueue,
        LanDataOutcome::Dropped(LanDataDropReason::PeerUnavailable),
        Some(0),
        0,
    );
    ledger.activate(2, 1, 0);

    let snapshot = ledger.snapshot();
    assert_eq!(snapshot.peers[0].latest_lifecycle_epoch, 1);
    assert_eq!(snapshot.peers[0].send.dropped, 1);
    assert_eq!(
        ledger
            .drain_transitions()
            .into_iter()
            .map(|transition| transition.kind)
            .collect::<Vec<_>>(),
        vec![
            LanIncidentTransitionKind::Started,
            LanIncidentTransitionKind::Closed
        ]
    );
}

#[test]
fn transition_ring_is_bounded_and_reports_overflow() {
    let mut ledger = LanDataLedger::new();
    let key = ledger.activate(2, 1, 0);
    for _ in 0..130 {
        ledger.record(
            key,
            LanDataDirection::Send,
            LanDataStage::OutboundQueue,
            LanDataOutcome::Dropped(LanDataDropReason::QueueFull),
            Some(PER_PEER_PACKET_QUEUE_CAPACITY),
            0,
        );
        ledger.record(
            key,
            LanDataDirection::Send,
            LanDataStage::OutboundQueue,
            LanDataOutcome::Queued,
            Some(1),
            0,
        );
    }

    assert_eq!(ledger.drain_transitions().len(), TRANSITION_CAPACITY);
    assert_eq!(ledger.snapshot().transitions_dropped, 4);
}

#[test]
fn evicting_closed_epoch_detail_never_reduces_peer_or_aggregate_totals() {
    let mut ledger = LanDataLedger::new();
    for epoch in 1..=10 {
        let key = ledger.activate(2, epoch, 0);
        ledger.record(
            key,
            LanDataDirection::Send,
            LanDataStage::OutboundQueue,
            LanDataOutcome::Queued,
            Some(1),
            0,
        );
        ledger.record(
            key,
            LanDataDirection::Send,
            LanDataStage::UdpSend,
            LanDataOutcome::Succeeded,
            None,
            0,
        );
        ledger.close_epoch(key, 0);
    }

    let snapshot = ledger.snapshot();
    assert_eq!(snapshot.peers.len(), 1);
    assert_eq!(snapshot.peers[0].epochs.len(), CLOSED_EPOCH_DETAIL_CAPACITY);
    assert_eq!(snapshot.peers[0].send.queued, 10);
    assert_eq!(snapshot.peers[0].send.resolved_success, 10);
    assert_eq!(snapshot.send.queued, 10);
    assert_eq!(snapshot.send.resolved_success, 10);
}

#[test]
fn incident_reports_duration_and_drops_on_recovery() {
    let mut ledger = LanDataLedger::new();
    let key = ledger.activate(7, 3, 0);
    for at in [1_000, 2_000, 3_000] {
        ledger.record(
            key,
            LanDataDirection::Send,
            LanDataStage::UdpSend,
            LanDataOutcome::Dropped(LanDataDropReason::SendFailed),
            None,
            at,
        );
    }
    ledger.record_dropped_batch(
        key,
        LanDataDirection::Send,
        LanDataStage::UdpSend,
        LanDataDropReason::SendFailed,
        2,
        5,
        4_000,
    );
    ledger.record(
        key,
        LanDataDirection::Send,
        LanDataStage::UdpSend,
        LanDataOutcome::Succeeded,
        None,
        9_000,
    );
    let transitions = ledger.drain_transitions();
    assert_eq!(transitions.len(), 2);
    assert_eq!(transitions[0].kind, LanIncidentTransitionKind::Started);
    assert_eq!(transitions[1].kind, LanIncidentTransitionKind::Recovered);
    assert_eq!(transitions[1].duration, 8_000);
    assert_eq!(transitions[1].dropped_packets, 5);
    assert_eq!(transitions[1].peer_slot, 1);
    assert_eq!(transitions[1].lifecycle_epoch, 3);
    let snapshot = ledger.snapshot();
    assert_eq!(snapshot.send.dropped, 5);
    assert_eq!(snapshot.send.current_queue_depth, 5);
    assert_eq!(snapshot.send.rejections.len(), 1);
    assert_eq!(snapshot.send.rejections[0].count, 5);
}

#[test]
fn peers_get_stable_slots_in_first_seen_order() {
    let mut ledger = LanDataLedger::new();
    let b = ledger.activate(20, 1, 0);
    let a = ledger.activate(10, 1, 0);
    let b_again = ledger.activate(20, 2, 0);
    assert_eq!(b.peer_slot, 1);
    assert_eq!(a.peer_slot, 2);
    assert_eq!(b_again.peer_slot, 1);
    let snapshot = ledger.snapshot();
    assert_eq!(snapshot.peers.len(), 2);
    assert_eq!(snapshot.peers[0].peer_steam_id64, 20);
    assert_eq!(snapshot.peers[0].latest_lifecycle_epoch, 2);
    assert_eq!(snapshot.peers[1].peer_steam_id64, 10);
    ledger.finish_all(0);
}

#[test]
fn direct_data_log_lines_name_each_field() {
    let mut ledger = LanDataLedger::new();
    let key = ledger.activate(4, 2, 0);
    ledger.record(
        key,
        LanDataDirection::Receive,
        LanDataStage::HookQueue,
        LanDataOutcome::Dropped(LanDataDropReason::HookDisconnected),
        None,
        0,
    );
    ledger.close_epoch(key, 2_500);
    let transitions = ledger.drain_transitions();
    assert_eq!(transition_level(transitions[0].kind), LogLevel::Warn);
    assert_eq!(transition_level(transitions[1].kind), LogLevel::Info);
    assert_eq!(
        transition_log(&transitions[1]),
        "Direct data incident kind=Closed peer_slot=1 epoch=2 direction=Receive stage=HookQueue reason=HookDisconnected outage_ms=2 packets_dropped=1"
    );
    assert_eq!(
        direct_summary_line(&ledger.snapshot()),
        "Direct data summary peers=1 send_queued=0 send_succeeded=0 send_dropped=0 receive_queued=0 hook_queue_accepted=0 receive_dropped=1 transitions_dropped=0"
    );
    assert_eq!(task_exit_message("Hook input task", true, &TaskExit::Finished), None);
    assert_eq!(
        task_exit_message("Hook input task", false, &TaskExit::Failed("broken pipe".to_owned())).as_deref(),
        Some("Hook input task failed: broken pipe")
    );
}

fn peer(steam_id64: u64, instance: u128) -> PeerId {
    PeerId { steam_id64, instance }
}

fn key(link_id: u128, initiator: PeerId) -> LinkKey {
    LinkKey { link_id, initiator }
}

#[test]
fn membership_register_keeps_one_link_per_peer_and_account() {
    let local = peer(1, 1);
    let alice = peer(2, 10);
    let alice_again = peer(2, 11);
    let mut room = Membership::new(local);
    assert_eq!(room.register(local, key(1, local)), RegisterResult::SelfConnection);
    assert_eq!(room.register(peer(1, 99), key(1, local)), RegisterResult::SelfConnection);
    room.dialing.push(alice);
    room.recovering.push(RecoveryDeadline { peer: alice, deadline: 50 });
    room.hints.push(alice_again);
    assert_eq!(room.register(alice, key(5, alice)), RegisterResult::Accepted { replaced: None, epoch: 1 });
    assert_eq!(room.hints, vec![alice]);
    assert!(room.dialing.is_empty() && room.recovering.is_empty());
    assert!(room.is_active_link(alice, key(5, alice)));
    assert_eq!(room.register(alice_again, key(1, alice_again)), RegisterResult::DuplicateSteamIdentity);
    assert_eq!(room.register(alice, key(5, alice)), RegisterResult::DuplicateLost);
    assert_eq!(room.register(alice, key(6, local)), RegisterResult::DuplicateLost);
    let first = ActiveLink { peer: alice, key: key(5, alice), epoch: 1 };
    assert_eq!(room.register(alice, key(4, local)), RegisterResult::Accepted { replaced: Some(first), epoch: 2 });
    assert_eq!(room.active.len(), 1);
    assert!(!room.is_active_link(alice, key(5, alice)));
    assert_eq!(room.register(peer(3, 1), key(9, local)), RegisterResult::Accepted { replaced: None, epoch: 3 });
    room.next_epoch = None;
    assert_eq!(room.register(peer(4, 1), key(9, local)), RegisterResult::LifecycleExhausted);
}

fn descriptor(id: u8, instance: u8) -> PeerId {
    PeerId { steam_id64: u64::from(id), instance: u128::from_be_bytes([instance; 16]) }
}

#[test]
fn deterministic_link_key_has_one_winner() {
    let low = LinkKey { link_id: u128::from_be_bytes([1; 16]), initiator: descriptor(1, 1) };
    let high = LinkKey { link_id: u128::from_be_bytes([2; 16]), initiator: descriptor(2, 2) };
    assert!(key_at_or_before(low, high) && !key_at_or_before(high, low));
}

#[test]
fn accepted_links_receive_monotonic_lifecycle_epochs() {
    let mut membership = Membership::new(descriptor(1, 1));
    let peer = descriptor(2, 2);
    let link = |id: u8| LinkKey { link_id: u128::from_be_bytes([id; 16]), initiator: descriptor(1, 1) };
    let first = match membership.register(peer, link(2)) {
        RegisterResult::Accepted { epoch, .. } => epoch,
        _ => panic!("first link should be accepted"),
    };
    let second = match membership.register(peer, link(1)) {
        RegisterResult::Accepted { epoch, .. } => epoch,
        _ => panic!("lower link key should replace the active link"),
    };
    assert_eq!(first, 1);
    assert_eq!(second, 2);
}

#[test]
fn membership_remove_and_expire_follow_the_recovery_horizon() {
    let mut room = Membership::new(descriptor(1, 1));
    let old = descriptor(2, 2);
    let k = LinkKey { link_id: 1, initiator: descriptor(1, 1) };
    room.register(old, k);
    assert_eq!(room.remove_link(old, LinkKey { link_id: 9, ..k }, false, 0), None);
    assert_eq!(room.remove_link(old, k, false, 1_000), Some(1));
    assert!(room.active.is_empty() && room.is_recovering(old));
    assert_eq!(room.recovering[0].deadline, 1_000 + PEER_RECOVERY_HORIZON_MILLIS);
    room.dialing.push(old);
    room.expire(1_000 + PEER_RECOVERY_HORIZON_MILLIS - 1);
    assert!(room.is_recovering(old) && room.hints == vec![old]);
    room.expire(1_000 + PEER_RECOVERY_HORIZON_MILLIS);
    assert!(!room.is_recovering(old) && room.hints.is_empty() && room.dialing.is_empty());
    let again = descriptor(3, 3);
    room.register(again, k);
    assert_eq!(room.remove_link(again, k, true, 5), Some(2));
    assert!(room.hints.is_empty() && room.recovering.is_empty());
}

fn v4(port: u16) -> LanEndpoint {
    LanEndpoint::V4 { address: u32::from_be_bytes([127, 0, 0, 1]), port }
}

fn checked(local: LanEndpoint, remote: LanEndpoint, request_seen: bool, response_seen: bool) -> CheckEntry {
    CheckEntry { pair: EndpointPair { local, remote }, state: CheckState { request_seen, response_seen } }
}

#[test]
fn preferred_healthy_candidate_pair_wins() {
    let (preferred_local, fallback_local) = (v4(21_001), v4(21_002));
    let (preferred_remote, fallback_remote) = (v4(22_001), v4(22_002));
    let checks = vec![
        checked(preferred_local, preferred_remote, true, true),
        checked(fallback_local, fallback_remote, true, true),
    ];
    let local = vec![Candidate { endpoint: preferred_local, priority: 20 }, Candidate { endpoint: fallback_local, priority: 10 }];
    let remote = vec![Candidate { endpoint: preferred_remote, priority: 20 }, Candidate { endpoint: fallback_remote, priority: 10 }];
    assert_eq!(
        select_candidate_pair(&checks, &local, &remote),
        Some(EndpointPair { local: preferred_local, remote: preferred_remote })
    );
}

#[test]
fn only_bidirectionally_successful_pair_is_eligible() {
    let (preferred_local, fallback_local) = (v4(21_001), v4(21_002));
    let (preferred_remote, fallback_remote) = (v4(22_001), v4(22_002));
    let checks = vec![
        checked(preferred_local, preferred_remote, false, true),
        checked(fallback_local, fallback_remote, true, true),
    ];
    let local = vec![Candidate { endpoint: preferred_local, priority: 20 }, Candidate { endpoint: fallback_local, priority: 10 }];
    let remote = vec![Candidate { endpoint: preferred_remote, priority: 20 }, Candidate { endpoint: fallback_remote, priority: 10 }];
    assert_eq!(
        select_candidate_pair(&checks, &local, &remote),
        Some(EndpointPair { local: fallback_local, remote: fallback_remote })
    );
}

#[test]
fn lan_path_offer_checks_nomination_and_heartbeats() {
    let material = PathMaterial { id: 7, token: 9 };
    let (local, remote) = (v4(21_001), v4(22_001));
    let candidates = vec![Candidate { endpoint: remote, priority: 5 }];
    let mine = vec![Candidate { endpoint: local, priority: 5 }];

    let mut follower = PeerPath::new(0, None);
    assert_eq!(follower.on_offer(true, material, candidates.clone(), 10), None);
    assert_eq!(follower.on_offer(false, material, candidates.clone(), 10), Some(true));
    assert_eq!(follower.on_offer(false, PathMaterial { id: 8, token: 9 }, candidates.clone(), 11), None);
    assert_eq!(follower.status(3_009), LanPeerPathStatus::Checking);
    assert_eq!(follower.status(3_010), LanPeerPathStatus::Unavailable);
    assert!(!follower.on_nominate(false, 7, remote, local, 20));
    assert!(follower.on_check(true, material, true, local, remote, true, false));
    assert!(!follower.on_check(true, material, true, local, v4(1), true, false));
    assert!(!follower.on_check(true, material, true, local, remote, false, false));
    assert!(!follower.on_nominate(false, 7, remote, local, 20));
    assert!(!follower.on_check(true, material, true, local, remote, false, true));
    assert!(!follower.on_nominate(false, 8, remote, local, 20));
    assert!(follower.on_nominate(false, 7, remote, local, 20));
    assert_eq!(follower.status(10_000), LanPeerPathStatus::Usable);
    assert!(follower.on_heartbeat(true, material, local, remote, true, 500));
    assert!(!follower.on_heartbeat(true, material, remote, local, true, 600));
    assert_eq!(follower.tick(3_499), PathTick::Heartbeat { id: 1, pair: EndpointPair { local, remote } });
    assert_eq!(follower.tick(3_500), PathTick::Lost);
    assert!(follower.checks.is_empty() && follower.nominated.is_none() && follower.checking_since == 3_500);

    let mut controller = PeerPath::new(0, Some(material));
    assert_eq!(controller.tick(1), PathTick::Idle);
    assert_eq!(controller.on_offer(true, material, candidates, 5), Some(false));
    assert_eq!(controller.tick(6), PathTick::Recheck);
    assert_eq!(controller.maybe_nominate(true, &mine), None);
    controller.on_check(true, material, true, local, remote, true, false);
    controller.on_check(true, material, true, local, remote, false, true);
    assert_eq!(controller.maybe_nominate(false, &mine), None);
    let pair = EndpointPair { local, remote };
    assert_eq!(controller.maybe_nominate(true, &mine), Some((7, pair)));
    assert_eq!(controller.maybe_nominate(true, &mine), None);
    assert_eq!(controller.tick(7), PathTick::RepeatNominationAndRecheck { path_id: 7, pair });
    controller.on_nominate_ack(true, 8, 9);
    assert!(controller.nominated.is_none());
    controller.on_nominate_ack(true, 7, 9);
    assert_eq!(controller.nominated.map(|n| n.pair), Some(pair));
    assert!(controller.pending_nomination.is_none());
    controller.next_heartbeat_id = u64::MAX;
    assert_eq!(controller.tick(10), PathTick::Heartbeat { id: u64::MAX, pair });
    assert_eq!(controller.next_heartbeat_id, 1);
}

#[test]
fn lan_path_checks_every_pair_and_the_smaller_identity_controls() {
    let local = vec![Candidate { endpoint: v4(1), priority: 2 }, Candidate { endpoint: v4(2), priority: 1 }];
    let remote = vec![Candidate { endpoint: v4(7), priority: 1 }, Candidate { endpoint: v4(8), priority: 1 }, Candidate { endpoint: v4(9), priority: 1 }];
    let pairs = check_pairs(&local, &remote);
    assert_eq!(pairs.len(), 6);
    assert_eq!(pairs[0], EndpointPair { local: v4(1), remote: v4(7) });
    assert_eq!(pairs[4], EndpointPair { local: v4(2), remote: v4(8) });
    assert!(controls_path(descriptor(1, 9), descriptor(2, 1)));
    assert!(controls_path(descriptor(2, 1), descriptor(2, 2)));
    assert!(!controls_path(descriptor(2, 2), descriptor(2, 2)));
    assert!(!controls_path(descriptor(3, 0), descriptor(2, 9)));
}

#[test]
fn restart_replaces_disconnected_instance_and_grace_expiry_removes_stale_hint() {
    let max_peers = 16;
    let mut membership = Membership::new(descriptor(1, 1));
    let old = descriptor(2, 2);
    let key = LinkKey { link_id: u128::from_be_bytes([1; 16]), initiator: descriptor(1, 1) };
    membership.register(old, key);
    assert!(membership.remove_link(old, key, false, 1_000).is_some());

    let restarted = descriptor(2, 3);
    assert!(matches!(
        membership.register(restarted, LinkKey { link_id: u128::from_be_bytes([2; 16]), initiator: descriptor(1, 1) }),
        RegisterResult::Accepted { .. }
    ));
    assert_eq!(membership.snapshot(max_peers).len(), 2);

    let active = *membership.active.last().unwrap();
    membership.remove_link(restarted, active.key, false, 1_000);
    membership.expire(1_000 + PEER_RECOVERY_HORIZON_MILLIS + 1_000);
    assert_eq!(membership.snapshot(max_peers), vec![descriptor(1, 1)]);
}

#[test]
fn membership_dials_retries_and_snapshots_in_identity_order() {
    let mut room = Membership::new(descriptor(5, 5));
    let (a, b, c) = (descriptor(3, 1), descriptor(7, 1), descriptor(4, 9));
    room.hints = vec![b, a, c];
    assert!(!room.begin_dial(descriptor(5, 5)));
    assert!(room.begin_dial(a));
    assert!(!room.begin_dial(a));
    assert_eq!(room.retry_candidates(0), vec![c, b]);
    room.end_dial(a, true, 100);
    assert!(room.dialing.is_empty() && room.is_recovering(a));
    assert_eq!(room.retry_candidates(100 + PEER_RECOVERY_HORIZON_MILLIS - 1), vec![a, c, b]);
    assert_eq!(room.retry_candidates(100 + PEER_RECOVERY_HORIZON_MILLIS), vec![c, b]);
    room.end_dial(a, true, 5_000);
    assert_eq!(room.recovering.len(), 1);
    room.register(c, LinkKey { link_id: 1, initiator: c });
    assert_eq!(room.retry_candidates(0), vec![a, b]);
    assert_eq!(room.connected_peers(), vec![c]);
    assert_eq!(room.hinted_peers(), vec![a, b]);
    assert_eq!(room.snapshot(16), vec![a, c, descriptor(5, 5), b]);
    assert_eq!(room.snapshot(2), vec![a, c]);
    assert_eq!(room.snapshot(0), vec![]);
}

#[test]
fn snapshots_are_idempotent_hints_and_cannot_replace_live_instance() {
    let max_peers = 16;
    let mut membership = Membership::new(descriptor(1, 1));
    let hinted = descriptor(2, 2);
    assert_eq!(membership.merge_hints(&vec![hinted], max_peers).len(), 1);
    assert!(membership.merge_hints(&vec![hinted], max_peers).is_empty());

    let live = LinkKey { link_id: u128::from_be_bytes([1; 16]), initiator: descriptor(1, 1) };
    assert!(matches!(membership.register(descriptor(2, 2), live), RegisterResult::Accepted { .. }));
    membership.merge_hints(&vec![descriptor(2, 3)], max_peers);
    assert_eq!(membership.connected_peers()[0].instance, u128::from_be_bytes([2; 16]));
}

#[test]
fn merged_hints_drop_the_greatest_unlinked_peers_to_fit() {
    let local = descriptor(1, 1);
    let (a, b, c) = (descriptor(5, 1), descriptor(3, 1), descriptor(9, 1));
    let mut room = Membership::new(local);
    assert_eq!(room.merge_hints(&vec![local, descriptor(1, 7), a, b, a, c], 3), vec![a, b, c]);
    assert_eq!(room.hints, vec![a, b]);
    room.register(b, LinkKey { link_id: 4, initiator: local });
    assert_eq!(room.merge_hints(&vec![descriptor(3, 2), c], 2), vec![c]);
    assert_eq!(room.hints, vec![b]);
    assert_eq!(room.merge_hints(&vec![], 1), vec![]);
    assert_eq!(room.hints, vec![b]);
}
