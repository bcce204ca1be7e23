use bridge_core::delivery::DeliveryStreamId;
use bridge_core::direct_receive::{DirectReceiveObserver, LogLine};
use bridge_core::session_health::SessionHealth;
use bridge_core::hook_ipc::{write_all_step, IoErrorKind, WriteAllStep, WriteOutcome};
use bridge_core::hook_lifecycle::{
    injection_support_message, ADMIN_PERMISSION_CANCELLED_MESSAGE, STALE_NATIVE_HOOK_MESSAGE,
};
use bridge_core::logging::LogLevel;
use bridge_core::packet_flow::{
    encode_inbound_hook_packet, should_sample_packet, DeliveryStreamAllocator, HookGamePacket,
    InboundGamePacket, PacketObserver, PacketSummary,
};
use bridge_core::process_choice::{newest_process, process_ids, ProcessCandidate};

fn hook_packet(target: u64) -> HookGamePacket {
    HookGamePacket {
        peer: target,
        sequence: 1,
        channel: 0,
        send_type: 0,
        payload: Vec::new(),
    }
}

fn stream(byte: u8) -> DeliveryStreamId {
    DeliveryStreamId::from_bytes([byte; 16])
}

#[test]
fn delivery_streams_are_independent_per_target() {
    let mut allocator = DeliveryStreamAllocator::new();
    let b1 = allocator.assign_hook_packet(hook_packet(2), stream(1));
    let c1 = allocator.assign_hook_packet(hook_packet(3), stream(2));
    let b2 = allocator.assign_hook_packet(hook_packet(2), stream(3));
    let c2 = allocator.assign_hook_packet(hook_packet(3), stream(4));

    assert_eq!((b1.delivery_sequence, b2.delivery_sequence), (1, 2));
    assert_eq!((c1.delivery_sequence, c2.delivery_sequence), (1, 2));
    assert_eq!(b1.delivery_stream_id, b2.delivery_stream_id);
    assert_eq!(c1.delivery_stream_id, c2.delivery_stream_id);
    assert_ne!(b1.delivery_stream_id, c1.delivery_stream_id);
}

#[test]
fn sequence_exhaustion_rotates_the_delivery_stream() {
    let mut allocator = DeliveryStreamAllocator::new();
    let first = allocator.assign_hook_packet(hook_packet(2), stream(1));
    let cursor = allocator.by_target.get_mut(&2).unwrap();
    cursor.next_sequence = u64::MAX;
    let rotated = allocator.assign_hook_packet(hook_packet(2), stream(9));

    assert_eq!(rotated.delivery_sequence, 1);
    assert_ne!(rotated.delivery_stream_id, first.delivery_stream_id);
}

#[test]
fn hook_packet_conversion_preserves_route_neutral_fields() {
    let packet = HookGamePacket {
        peer: 76_561_198_000_000_002,
        sequence: 42,
        channel: 3,
        send_type: 1,
        payload: vec![1, 2, 3],
    };

    let outbound = DeliveryStreamAllocator::new().assign_hook_packet(packet, stream(1));

    assert_eq!(outbound.to_steam_id64, 76_561_198_000_000_002);
    assert_eq!(outbound.hook_sequence, 42);
    assert_eq!(outbound.channel, 3);
    assert_eq!(outbound.send_type, 1);
    assert_eq!(outbound.payload, vec![1, 2, 3]);
}

#[test]
fn inbound_packets_take_the_next_local_sequence() {
    let mut local_sequence = 7;
    let inbound = InboundGamePacket {
        from_steam_id64: 5,
        delivery_stream_id: stream(1),
        delivery_sequence: 99,
        channel: -2,
        send_type: 1,
        payload: vec![4, 5],
    };
    let (packet, summary, bytes) = encode_inbound_hook_packet(inbound, &mut local_sequence);
    assert_eq!(packet.sequence, 7);
    assert_eq!(local_sequence, 8);
    assert_eq!(summary.wire_bytes, 2);
    assert_eq!(bytes, 2);

    let mut observer = PacketObserver::new();
    let first = observer.observe_network_packet(&summary, 0);
    assert_eq!(first.first_line, Some("First network packet received"));
    assert_eq!(
        first.sample_line.as_deref(),
        Some("Network -> Hook packet #1: from=5 delivery_sequence=99 hook_sequence=7 channel=-2 send_type=1 payload_bytes=2 local_bytes=2")
    );
    let later = observer.observe_network_packet(&summary, 1_500_000);
    assert_eq!(later.gap_line.as_deref(), Some("Network -> Hook packet gap: 1500 ms"));
    assert!(later.first_line.is_none());
    let hook = observer.observe_hook_packet(
        &PacketSummary { peer: 9, hook_sequence: 1, delivery_sequence: 0, channel: 0, send_type: 2, payload_bytes: 10, wire_bytes: 12 },
        0,
    );
    assert_eq!(
        hook.sample_line.as_deref(),
        Some("Hook -> network packet #1: to=9 hook_sequence=1 channel=0 send_type=2 payload_bytes=10 wire_bytes=12")
    );
    assert!(should_sample_packet(64));
    assert!(!should_sample_packet(65));
    assert!(should_sample_packet(2_000));
}

#[test]
fn newest_process_is_deterministic() {
    let candidates = vec![
        ProcessCandidate { pid: 7, started_at: 101 },
        ProcessCandidate { pid: 9, started_at: 101 },
        ProcessCandidate { pid: 42, started_at: 100 },
    ];

    assert_eq!(
        newest_process(&candidates),
        Some(ProcessCandidate { pid: 9, started_at: 101 })
    );
    assert_eq!(process_ids(&candidates), "7,9,42");
    assert_eq!(process_ids(&Vec::new()), "none");
}

#[test]
fn retries_zero_progress_windows_named_pipe_write() {
    let bytes = b"game-packet";
    let mut written_bytes = Vec::new();
    let mut returned_zero = false;
    let mut written = 0;
    let mut now = 0;
    while written < bytes.len() {
        let outcome = if !returned_zero {
            returned_zero = true;
            WriteOutcome::Written(0)
        } else {
            written_bytes.extend_from_slice(&bytes[written..]);
            WriteOutcome::Written(bytes.len() - written)
        };
        match write_all_step(written, outcome, now, 250_000, true) {
            WriteAllStep::Continue(next) => written = next,
            WriteAllStep::Sleep => now += 10_000,
            other => panic!("unexpected step {other:?}"),
        }
    }

    assert!(returned_zero);
    assert_eq!(written_bytes, b"game-packet");
    assert_eq!(
        write_all_step(0, WriteOutcome::Written(0), 0, 250_000, false),
        WriteAllStep::WriteZero
    );
    assert_eq!(
        write_all_step(0, WriteOutcome::Failed(IoErrorKind::WouldBlock), 300_000, 250_000, true),
        WriteAllStep::TimedOut
    );
}

#[test]
fn access_denied_support_message_uses_injector_category() {
    let message = injection_support_message(false, false, true, "OpenProcess failed: Access is denied. (os error 5)");

    assert!(message.contains("access denied"));
    assert!(message.contains("matching privilege levels"));
}

#[test]
fn admin_permission_cancelled_support_message_is_short() {
    let message = injection_support_message(false, true, false, "cancelled");

    assert_eq!(message, ADMIN_PERMISSION_CANCELLED_MESSAGE);
}

#[test]
fn stale_native_hook_support_message_requires_full_isaac_restart() {
    let message = injection_support_message(true, false, false, "already loaded");

    assert_eq!(message, STALE_NATIVE_HOOK_MESSAGE);
    assert!(message.contains("Fully exit Isaac"));
}

#[test]
fn direct_receive_outage_warns_once_and_reports_recovery() {
    let mut observer = DirectReceiveObserver::new();
    let onset = observer.observe(false, 0).unwrap();
    assert_eq!(onset.level, LogLevel::Warn);
    assert!(onset.message.contains("queue is full"));
    assert!(observer.observe(false, 5_000).is_none());
    let recovery = observer.observe(true, 12_000).unwrap();
    assert_eq!(recovery.level, LogLevel::Info);
    assert!(recovery.message.contains("outage_ms=12") && recovery.message.contains("packets_dropped=2"));

    observer.observe(false, 20_000);
    let summary = observer.finish(40_000).unwrap();
    assert_eq!(summary.duration, 20_000);
    assert_eq!(summary.dropped_packets, 1);
    assert!(observer.observe(false, 50_000).is_none());
    assert!(observer.finish(60_000).is_none());
}

/// Observes one hand-off the way a session does: the health counters first,
/// then the outage watcher, unless the watcher has finished.
fn observe_handoff(
    observer: &mut DirectReceiveObserver,
    health: &mut SessionHealth,
    events: &mut Vec<LogLine>,
    accepted: bool,
    now: u64,
) {
    if observer.closed {
        return;
    }
    health.observe_direct_receive_handoff(accepted);
    if let Some(line) = observer.observe(accepted, now) {
        events.push(line);
    }
}

#[test]
fn one_incident_emits_onset_and_recovery_without_packet_log_flood() {
    let start = 1_000_000;
    let mut health = SessionHealth::new(false, 1_000_000, start);
    health.enable_direct_receive_handoff();
    let mut observer = DirectReceiveObserver::new();
    let mut events = Vec::new();

    observe_handoff(&mut observer, &mut health, &mut events, false, start);
    observe_handoff(&mut observer, &mut health, &mut events, false, start + 5_000);
    observe_handoff(&mut observer, &mut health, &mut events, true, start + 12_000);

    assert_eq!(events.len(), 2);
    assert!(events[0].level == LogLevel::Warn && events[0].message.contains("queue is full"));
    assert!(
        events[1].level == LogLevel::Info
            && events[1].message.contains("outage_ms=12")
            && events[1].message.contains("packets_dropped=2")
    );

    let snapshot = health.snapshot(start + 12_000);
    assert_eq!(snapshot.direct_receive.attempted, 3);
    assert_eq!(snapshot.direct_receive.dropped, 2);
    assert!(!snapshot.direct_receive.saturated);
}

#[test]
fn finish_summarizes_an_unrecovered_incident_and_ignores_late_observations() {
    let start = 1_000_000;
    let mut health = SessionHealth::new(false, 1_000_000, start);
    health.enable_direct_receive_handoff();
    let mut observer = DirectReceiveObserver::new();
    let mut events = Vec::new();

    observe_handoff(&mut observer, &mut health, &mut events, false, start);
    let summary = observer
        .finish(start + 20_000)
        .expect("active incident should produce a final summary");
    observe_handoff(&mut observer, &mut health, &mut events, false, start + 30_000);

    assert_eq!(events.len(), 1);
    assert_eq!(summary.duration, 20_000);
    assert_eq!(summary.dropped_packets, 1);
    assert!(observer.finish(start + 40_000).is_none());
    assert_eq!(health.snapshot(start + 30_000).direct_receive.attempted, 1);
}

#[test]
fn random_stream_ids_are_never_all_zero_and_differ() {
    let a = DeliveryStreamId::random();
    let b = DeliveryStreamId::random();
    assert!(a.as_bytes().iter().any(|byte| *byte != 0));
    assert_ne!(a, b);
}
