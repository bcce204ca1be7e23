use bridge_core::process_lifecycle::{still_waiting_message, wait_timeout_message, LifecycleAction, LifecycleEvent, ProcessLifecycle};
use bridge_core::hook_lifecycle::{injection_outcome, injection_start_log, HookStartupPhase, InjectionResult};
use bridge_core::logging::LogLevel;
use bridge_core::relay_join::{JoinAction, JoinReply, RelayJoin, RelayJoinPhase};
use bridge_core::process_choice::ProcessCandidate;
use bridge_core::process_wait::{ProcessBindingSource, ProcessWait, ProcessWaitSettings, WaitDecision};
use bridge_core::hook_link::{
    link_status, merged_health, HookHealth, LinkConnection, LinkStatus,
    may_send_data, ConnectionOutcome, HookMessageKind, LinkFailure, LinkState, ListenerAction, ListenerState,
    MessageOutcome,
};
use bridge_core::relay_recovery::{
    resume_decision, resume_prerequisites, RecoveryErrorKind, ResumeDecision, ResumeReply,
};
use bridge_core::hook_ipc::{FlushResult, PendingWrite, WriteOutcome};
use bridge_core::hook_lifecycle::INJECTOR_HELPER_TIMEOUT_SECONDS;
use bridge_core::input_delay::{
    input_delay_evidence, InputDelayContext, InputDelayEvidenceBlocker, InputDelayOperation,
    InputDelayStatus,
};
use bridge_core::probe::{
    failed_readiness_case_report, readiness_probe_connection_profiles,
    readiness_probe_payload_bytes, validate_probe_payload, ProbeRequestError,
    MAX_RELAY_PROBE_PAYLOAD_BYTES,
};
use bridge_core::record_reader::{read_bounded_record, ByteReader, MAX_LOG_RECORD_BYTES};
use bridge_core::session_config::{ConnectionProfile, SessionMode, TransportChoice};
use bridge_core::session_health::{QualityConfidence, SessionQuality};
use bridge_core::smoothness::SmoothnessSnapshot;
use bridge_core::upload::HttpEndpoint;

/// A writer that accepts nothing on its first call and everything after.
struct ZeroThenWrite {
    returned_zero: bool,
    bytes: Vec<u8>,
}

impl ZeroThenWrite {
    fn write(&mut self, buffer: &[u8]) -> WriteOutcome {
        if !self.returned_zero {
            self.returned_zero = true;
            return WriteOutcome::Written(0);
        }
        self.bytes.extend_from_slice(buffer);
        WriteOutcome::Written(buffer.len())
    }
}

fn flush(pending: &mut PendingWrite, writer: &mut ZeroThenWrite, now: u64) -> bool {
    let outcome = writer.write(pending.remaining());
    match pending.try_flush(outcome, now) {
        FlushResult::Complete => true,
        FlushResult::Pending => false,
        other => panic!("unexpected flush result {other:?}"),
    }
}

#[test]
fn pending_write_resumes_after_zero_progress() {
    let mut writer = ZeroThenWrite {
        returned_zero: false,
        bytes: Vec::new(),
    };
    let mut pending = PendingWrite {
        bytes: b"game-packet".to_vec(),
        written: 0,
        stalled_since: 1_000,
    };

    assert!(!flush(&mut pending, &mut writer, 1_000));
    assert!(flush(&mut pending, &mut writer, 2_000));

    assert_eq!(writer.bytes, b"game-packet");
}

#[test]
fn bounded_record_reader_does_not_grow_for_a_malformed_long_line() {
    let input = vec![b'x'; MAX_LOG_RECORD_BYTES.saturating_mul(2)];
    let mut reader = ByteReader::new(input, 8 * 1024);
    let mut record = Vec::new();

    assert_eq!(read_bounded_record(&mut reader, &mut record), Some(true));
    assert_eq!(record.len(), MAX_LOG_RECORD_BYTES);
    assert_eq!(read_bounded_record(&mut reader, &mut record), None);
}

#[test]
fn injector_helper_has_bounded_startup_window() {
    assert_eq!(INJECTOR_HELPER_TIMEOUT_SECONDS, 60);
}

#[test]
fn evidence_is_read_only_and_requires_current_delay_and_quality() {
    let mut context = InputDelayContext {
        session_running: false,
        active_session_mode: None,
        hook_connected: false,
        latest_input_delay_status: None,
        smoothness: SmoothnessSnapshot::default(),
    };
    assert_eq!(
        input_delay_evidence(&context).blocker,
        Some(InputDelayEvidenceBlocker::SessionNotRunning)
    );

    context.session_running = true;
    context.active_session_mode = Some(SessionMode::Pure);
    context.hook_connected = true;
    assert_eq!(
        input_delay_evidence(&context).blocker,
        Some(InputDelayEvidenceBlocker::CurrentDelayUnknown)
    );

    context.latest_input_delay_status = Some(InputDelayStatus {
        operation: InputDelayOperation::Read,
        result: Ok(3),
        updated_at: 42,
    });
    context.smoothness.level = SessionQuality::Good;
    context.smoothness.confidence = QualityConfidence::High;
    let evidence = input_delay_evidence(&context);
    assert!(evidence.recommendation_possible);
    assert_eq!(evidence.current_delay, Some(3));
    assert_eq!(evidence.current_delay_observed_at, Some(42));
}

#[test]
fn parses_http_upload_endpoint() {
    let endpoint = HttpEndpoint::parse("http://upload.example.test:30080/upload").unwrap();

    assert_eq!(
        endpoint,
        HttpEndpoint {
            host: "upload.example.test".to_owned(),
            host_header: "upload.example.test:30080".to_owned(),
            port: 30080,
            path: "/upload".to_owned(),
        }
    );
}

#[test]
fn rejects_oversized_relay_probe_payload() {
    let result = validate_probe_payload(MAX_RELAY_PROBE_PAYLOAD_BYTES + 1);

    assert!(matches!(result, Err(ProbeRequestError::InvalidInput(_))));
}

#[test]
fn readiness_matrix_declares_supported_connection_profiles() {
    assert_eq!(
        readiness_probe_connection_profiles(),
        [ConnectionProfile::Tcp, ConnectionProfile::Udp]
    );

    let report = failed_readiness_case_report(
        ConnectionProfile::Udp,
        readiness_probe_payload_bytes()[0],
        1,
        "probe error".to_owned(),
    );

    assert_eq!(report.connection_profile, ConnectionProfile::Udp);
    assert_eq!(report.transport, TransportChoice::Udp);
    assert!(report.detailed_log().contains("connection_profile=UDP"));
}

#[test]
fn hook_listener_deadline_switches_after_first_connection() {
    let mut listener = ListenerState::new(1_000);
    assert_eq!(listener.deadline_failure(5_999, 5_000, 2_000), None);
    assert_eq!(listener.deadline_failure(6_000, 5_000, 2_000), Some("Native Hook local IPC connection timed out"));
    assert_eq!(listener.on_accepted(), 0);
    listener.on_handshake();
    assert_eq!(listener.on_connection_end(ConnectionOutcome::Disconnected, 10_000), ListenerAction::AwaitReconnect { publish_reconnecting: true });
    assert_eq!(listener.deadline_failure(11_999, 5_000, 2_000), None);
    assert_eq!(listener.deadline_failure(12_000, 5_000, 2_000), Some("Native Hook local IPC reconnect timed out"));
    assert_eq!(listener.on_accepted(), 1);
    assert_eq!(listener.on_connection_end(ConnectionOutcome::IoError, 20_000), ListenerAction::AwaitReconnect { publish_reconnecting: false });
    assert_eq!(listener.disconnected_at, 20_000);
    assert_eq!(listener.on_connection_end(ConnectionOutcome::ProtocolError, 30_000), ListenerAction::Fail);
    assert_eq!(listener.on_connection_end(ConnectionOutcome::Shutdown, 30_000), ListenerAction::Stop);
    assert_eq!(listener.disconnected_at, 20_000);
}

#[test]
fn hook_link_pings_once_per_interval_and_checks_replies() {
    let mut link = LinkState::new(0);
    assert_eq!(link.ping_due(false, 249_999), None);
    assert_eq!(link.ping_due(true, 250_000), None);
    assert_eq!(link.ping_due(false, 250_000), Some(1));
    assert_eq!(link.pending_ping, Some((1, 1_250_000)));
    assert_eq!(link.ping_due(false, 600_000), None);
    assert!(!link.liveness_expired(1_249_999));
    assert!(link.liveness_expired(1_250_000));
    assert_eq!(link.on_message(HookMessageKind::Pong { id: 2 }), MessageOutcome::Fail(LinkFailure::UnexpectedPong));
    assert_eq!(link.on_message(HookMessageKind::Pong { id: 1 }), MessageOutcome::Alive);
    assert_eq!(link.on_message(HookMessageKind::Pong { id: 1 }), MessageOutcome::Fail(LinkFailure::UnexpectedPong));
    assert_eq!(link.ping_due(false, 600_000), Some(2));
    link.register_call(9);
    link.register_call(9);
    assert_eq!(link.pending_calls, vec![9]);
    assert_eq!(link.on_message(HookMessageKind::InputDelayResult { id: 9 }), MessageOutcome::Answer { id: 9 });
    assert_eq!(
        link.on_message(HookMessageKind::InputDelayResult { id: 9 }),
        MessageOutcome::Fail(LinkFailure::UnexpectedInputDelayId)
    );
    assert_eq!(link.on_message(HookMessageKind::Ready), MessageOutcome::Fail(LinkFailure::UnexpectedHandshake));
    assert_eq!(LinkFailure::UnexpectedHandshake.message(), "unexpected handshake message after ready");
    assert_eq!(link.on_message(HookMessageKind::Game), MessageOutcome::Forward);
    assert_eq!(link.on_message(HookMessageKind::Health), MessageOutcome::Publish);
    assert_eq!(link.on_message(HookMessageKind::Goodbye), MessageOutcome::Disconnected);
    link.next_ping_id = u32::MAX;
    link.pending_ping = None;
    assert_eq!(link.ping_due(false, 900_000), Some(u32::MAX));
    assert_eq!(link.next_ping_id, 0);
    assert!(may_send_data(63, false));
    assert!(!may_send_data(64, false));
    assert!(!may_send_data(0, true));
}

#[test]
fn relay_resume_replies_are_decided() {
    assert_eq!(resume_prerequisites(true, Some(7), true), Ok(7));
    assert_eq!(
        resume_prerequisites(false, Some(7), true),
        Err((RecoveryErrorKind::InvalidInput, "Relay session is not reconnectable"))
    );
    assert_eq!(
        resume_prerequisites(true, None, true),
        Err((RecoveryErrorKind::NotConnected, "Relay connection id is unavailable"))
    );
    assert_eq!(
        resume_prerequisites(true, Some(7), false),
        Err((RecoveryErrorKind::NotConnected, "Relay resume credential is unavailable"))
    );
    assert!(matches!(resume_decision(7, ResumeReply::ResumeReady { connection_id: 7 }), ResumeDecision::Resume));
    assert!(matches!(resume_decision(7, ResumeReply::ResumeReady { connection_id: 8 }), ResumeDecision::Wait));
    assert!(matches!(resume_decision(7, ResumeReply::Other), ResumeDecision::Wait));
    assert!(matches!(
        resume_decision(7, ResumeReply::ResumeRejected { allow_full_join: true, code: "Expired".to_owned() }),
        ResumeDecision::FullJoin
    ));
    match resume_decision(7, ResumeReply::ResumeRejected { allow_full_join: false, code: "Expired".to_owned() }) {
        ResumeDecision::Fail { kind, message } => {
            assert_eq!(kind, RecoveryErrorKind::PermissionDenied);
            assert_eq!(message, "Relay resume rejected: Expired");
        }
        _ => panic!("expected a failure"),
    }
    match resume_decision(
        7,
        ResumeReply::Error { code: "Busy".to_owned(), retryable: true, message: "later".to_owned() },
    ) {
        ResumeDecision::Fail { kind, message } => {
            assert_eq!(kind, RecoveryErrorKind::Other);
            assert_eq!(message, "Relay recovery error Busy retryable=true: later");
        }
        _ => panic!("expected a failure"),
    }
}

#[test]
fn process_wait_prefers_new_launches_then_falls_back_after_grace() {
    let settings = ProcessWaitSettings { wait_timeout: 60_000, preexisting_grace: 5_000, notice_interval: 10_000 };
    let old = ProcessCandidate { pid: 10, started_at: 100 };
    let older = ProcessCandidate { pid: 9, started_at: 50 };
    let before = vec![old, older];
    let mut wait = ProcessWait::new(1_000, settings);
    assert_eq!(wait.step(settings, 2_000, Some(&vec![old, older]), &before), WaitDecision::Continue { notice_seconds: None });
    assert_eq!(wait.step(settings, 3_000, None, &before), WaitDecision::Continue { notice_seconds: None });
    assert_eq!(
        wait.step(settings, 6_000, Some(&vec![older, old]), &before),
        WaitDecision::Bound { process: old, source: ProcessBindingSource::PreexistingFallback, candidate_count: 2 }
    );
    let fresh = ProcessCandidate { pid: 11, started_at: 90 };
    assert_eq!(
        wait.step(settings, 2_000, Some(&vec![old, fresh]), &before),
        WaitDecision::Bound { process: fresh, source: ProcessBindingSource::NewLaunch, candidate_count: 2 }
    );
    assert_eq!(wait.step(settings, 11_500, Some(&vec![]), &before), WaitDecision::Continue { notice_seconds: Some(10) });
    assert_eq!(wait.next_notice, 20_000);
    assert_eq!(wait.step(settings, 12_000, None, &before), WaitDecision::Continue { notice_seconds: None });
    assert_eq!(wait.step(settings, 61_000, None, &before), WaitDecision::TimedOut);
}

#[test]
fn relay_join_walks_challenge_admission_and_udp_validation() {
    let mut join = RelayJoin::new(true);
    assert_eq!(join.step(JoinReply::Other), JoinAction::Wait);
    assert_eq!(join.step(JoinReply::AdmissionChallenge { sha256: false }), JoinAction::Wait);
    assert_eq!(join.step(JoinReply::AdmissionChallenge { sha256: true }), JoinAction::SendProof);
    assert_eq!(join.step(JoinReply::JoinReady { connection_id: 7 }), JoinAction::RequestUdpPath);
    assert_eq!(join.step(JoinReply::UdpPathToken { connection_id: 8 }), JoinAction::Wait);
    assert_eq!(join.step(JoinReply::UdpPathToken { connection_id: 7 }), JoinAction::SendUdpHello { connection_id: 7 });
    assert_eq!(join.step(JoinReply::UdpPathReady { connection_id: 7 }), JoinAction::Done { connection_id: 7 });
    assert_eq!(join.phase, RelayJoinPhase::Joined);

    let mut tcp = RelayJoin::new(false);
    tcp.step(JoinReply::AdmissionChallenge { sha256: true });
    assert_eq!(tcp.step(JoinReply::JoinReady { connection_id: 3 }), JoinAction::Done { connection_id: 3 });

    let mut refused = RelayJoin::new(false);
    assert_eq!(
        refused.step(JoinReply::Error { code: "RoomFull".to_owned(), message: "no seats".to_owned() }),
        JoinAction::Fail { message: "RoomFull: no seats".to_owned() }
    );
}

#[test]
fn hook_health_merges_the_larger_counts() {
    let health = HookHealth { reconnects: 3, hook_data_dropped: 7, client_data_dropped: 2, malformed_frames: 1 };
    assert_eq!(
        merged_health(1, 9, health),
        LinkStatus { connection: LinkConnection::Connected, reconnects: 3, hook_data_dropped: 7, client_data_dropped: 9, malformed_frames: 1 }
    );
    assert_eq!(merged_health(5, 0, health).reconnects, 5);
    assert_eq!(merged_health(5, 0, health).client_data_dropped, 2);
    assert_eq!(
        link_status(LinkConnection::Reconnecting, 2, 4),
        LinkStatus { connection: LinkConnection::Reconnecting, reconnects: 2, hook_data_dropped: 0, client_data_dropped: 4, malformed_frames: 0 }
    );
}

#[test]
fn injection_results_become_startup_states_logs_and_session_ends() {
    let ok = injection_outcome(InjectionResult::Injected, "isaac-ng.exe", 42, "hook.dll");
    assert_eq!(ok.phase, Some(HookStartupPhase::WaitingForHookEndpoint));
    assert!(ok.injected && !ok.count_error && ok.session_end.is_none());
    assert_eq!(ok.log_text, "Native Hook injected into isaac-ng.exe (42) from hook.dll");
    assert_eq!(ok.startup_message.as_deref(), Some("Injection succeeded; waiting for local IPC handshake"));

    let denied = injection_outcome(
        InjectionResult::Failed {
            native_hook_already_loaded: false,
            admin_permission_cancelled: false,
            access_denied: true,
            error_text: "denied".to_owned(),
        },
        "isaac-ng.exe",
        42,
        "hook.dll",
    );
    assert_eq!(denied.phase, Some(HookStartupPhase::Failed));
    assert!(denied.access_denied && denied.count_error);
    assert_eq!(denied.log_level, LogLevel::Error);
    assert!(denied.log_text.starts_with("Native Hook injection failed: denied; access denied usually means"));
    assert_eq!(denied.session_end.as_deref(), Some(denied.log_text.as_str()));

    let task = injection_outcome(InjectionResult::TaskFailed { error_text: "panicked".to_owned() }, "x", 1, "h");
    assert_eq!(task.phase, None);
    assert_eq!(task.session_end.as_deref(), Some("Native Hook injection task failed: panicked"));

    let slow = injection_outcome(InjectionResult::TimedOut, "x", 1, "h");
    assert_eq!(slow.log_text, "Native Hook injector helper timed out after 60 seconds");
    assert_eq!(slow.phase, Some(HookStartupPhase::Failed));

    let cancelled = injection_outcome(InjectionResult::Cancelled, "x", 1, "h");
    assert_eq!(cancelled.phase, Some(HookStartupPhase::Cancelled));
    assert_eq!(cancelled.log_text, "Native Hook injection cancelled");
    assert!(cancelled.session_end.is_none() && !cancelled.count_error);

    assert_eq!(
        injection_start_log("isaac-ng.exe", 42, "inj.exe", "hook.dll"),
        "Starting Native Hook injector helper for isaac-ng.exe (42): injector=inj.exe hook=hook.dll"
    );
}

#[test]
fn process_lifecycle_waits_injects_watches_and_ends_once() {
    let bound = ProcessCandidate { pid: 42, started_at: 100 };
    let found = WaitDecision::Bound { process: bound, source: ProcessBindingSource::NewLaunch, candidate_count: 1 };
    let mut hooked = ProcessLifecycle::new(true);
    assert_eq!(hooked.step(LifecycleEvent::Waited(WaitDecision::Continue { notice_seconds: None })), LifecycleAction::KeepWaiting);
    assert_eq!(hooked.step(LifecycleEvent::Waited(found)), LifecycleAction::Inject { process: bound });
    assert_eq!(hooked.step(LifecycleEvent::InjectionFinished { session_cancelled: false }), LifecycleAction::Watch { process: bound });
    assert_eq!(hooked.step(LifecycleEvent::Watched { running: true }), LifecycleAction::Watch { process: bound });
    assert_eq!(hooked.step(LifecycleEvent::Watched { running: false }), LifecycleAction::EndGameExited { process: bound });
    assert_eq!(hooked.step(LifecycleEvent::Watched { running: false }), LifecycleAction::Stop);

    let mut plain = ProcessLifecycle::new(false);
    assert_eq!(plain.step(LifecycleEvent::Waited(found)), LifecycleAction::Watch { process: bound });
    assert_eq!(plain.step(LifecycleEvent::Cancelled), LifecycleAction::Stop);

    let mut cancelled = ProcessLifecycle::new(false);
    assert_eq!(cancelled.step(LifecycleEvent::Cancelled), LifecycleAction::ReportWaitCancelled);
    let mut late = ProcessLifecycle::new(true);
    assert_eq!(late.step(LifecycleEvent::Waited(WaitDecision::TimedOut)), LifecycleAction::FailWaitTimedOut);
    let mut injected_then_cancelled = ProcessLifecycle::new(true);
    injected_then_cancelled.step(LifecycleEvent::Waited(found));
    assert_eq!(injected_then_cancelled.step(LifecycleEvent::InjectionFinished { session_cancelled: true }), LifecycleAction::Stop);

    assert_eq!(wait_timeout_message(30), "Isaac process was not found within 30 seconds");
    assert_eq!(still_waiting_message(10), "Still waiting for Isaac process after 10 seconds");
}
