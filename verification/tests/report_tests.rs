use bridge_core::client_session::upsert_light_ping_report;
use bridge_core::light_ping::{LightPingState, PingAction, PingEvent};
use bridge_core::package::{
    enforce_total_bound, package_manifest, push_text_entry, tail_bounded, MAX_PACKAGE_ENTRY_BYTES,
    MAX_PACKAGE_FILES,
};
use bridge_core::input_delay::{
    ensure_input_delay_available, input_delay_log_text, input_delay_status, InputDelayError,
    InputDelayOperation, InputDelayReport,
};
use bridge_core::logging::{client_log_fields, ClientSessionLogContext, ClientSessionLogRoute};
use bridge_core::probe::{
    display_latency, light_ping_report, probe_payload, readiness_case_report, HookReceiveProbeReport,
    LightPingTarget, ReadinessProbeReport, RelayProbeReport,
};
use bridge_core::record_reader::{read_bounded_record, ByteReader};
use bridge_core::session_config::{ConnectionProfile, RelayEndpoint, SessionMode, TransportChoice};
use bridge_core::session_health::{SessionHealth, SessionQuality};
use bridge_core::upload::{
    parse_http_response, parse_u16, upload_receipt, HttpEndpoint, IntParseError, UploadError,
};

#[test]
fn relay_probe_summary_names_payload_and_transport() {
    let report = RelayProbeReport {
        relay: "relay.test:25910".to_owned(),
        transport: TransportChoice::Udp,
        room: "ephemeral probe room".to_owned(),
        a_to_b_bytes: 512,
        b_to_a_bytes: 512,
        payload_bytes: 512,
    };
    assert_eq!(
        report.short_summary(),
        "Relay probe passed: 512 byte payload, 512 bytes A->B, 512 bytes B->A via relay.test:25910 (UDP)"
    );
    assert!(report.display_text().ends_with("; room=ephemeral probe room"));
    let payload = probe_payload(3);
    assert_eq!(payload, vec![17, 48, 79]);
}

#[test]
fn hook_probe_summary_shows_missing_versions_as_dashes() {
    let report = HookReceiveProbeReport {
        connection: "connected".to_owned(),
        protocol_major: Some(2),
        protocol_minor: None,
        reconnects: 1,
        hook_data_dropped: 3,
        client_data_dropped: 4,
        malformed_frames: 0,
        last_error: Some("boom".to_owned()),
    };
    assert_eq!(
        report.short_summary(),
        "Hook IPC health: connection=connected version=2.- reconnects=1 drops=3/4 malformed=0"
    );
    assert!(report.display_text().ends_with("; last_error=boom"));
}

#[test]
fn readiness_case_statistics_and_log() {
    let case = readiness_case_report(
        ConnectionProfile::Tcp,
        TransportChoice::Tcp,
        512,
        900,
        5,
        4,
        &vec![40, 0, 10, 30],
        None,
    );
    assert_eq!(case.missing_packets, 1);
    assert_eq!(case.min_latency_ms, Some(0));
    assert_eq!(case.median_latency_ms, Some(30));
    assert_eq!(case.p95_latency_ms, Some(40));
    assert_eq!(case.max_latency_ms, Some(40));
    assert_eq!(case.jitter_ms, Some(10));
    assert!(case.has_issue());
    assert_eq!(
        case.detailed_log(),
        "connection_profile=TCP; transport=TCP; payload_bytes=512; duration_ms=900; sent=5; received=4; missing=1; min_ms=<1; median_ms=30; p95_ms=40; max_ms=40; jitter_ms=10"
    );
    let report = ReadinessProbeReport {
        relay: "r:1".to_owned(),
        room: "room".to_owned(),
        duration_ms: 1,
        samples_per_case: 50,
        cases: vec![case],
    };
    assert!(report.has_issue());
    assert!(report.detailed_log().starts_with("Readiness matrix via r:1; room=room; duration_ms=1; samples_per_case=50; cases=[connection_profile=TCP"));
    assert_eq!(display_latency(None), "-");
}

#[test]
fn light_ping_median_and_failure_reason() {
    let target = LightPingTarget {
        relay_id: None,
        relay_name: None,
        endpoint: RelayEndpoint::new("relay.test", 1),
        transport: TransportChoice::Udp,
    };
    let ok = light_ping_report(target.clone(), 5, 4, &vec![30, 10, 20, 40], Some("ping timed out".to_owned()));
    assert_eq!(ok.median_rtt_ms, Some(30));
    assert_eq!(ok.failure_reason, None);
    assert_eq!(ok.latency_label(), "ok");
    let failed = light_ping_report(target, 5, 0, &Vec::new(), None);
    assert_eq!(failed.failure_reason.as_deref(), Some("no pongs received"));
    assert_eq!(failed.latency_label(), "unreachable");
}

#[test]
fn http_response_and_endpoint_errors() {
    assert_eq!(
        parse_http_response("HTTP/1.1 201 Created\r\nX: y\r\n\r\n  stored  "),
        Ok((201, "stored".to_owned()))
    );
    assert_eq!(
        parse_http_response(""),
        Err(UploadError::InvalidUploadEndpoint("empty HTTP response".to_owned()))
    );
    assert_eq!(
        parse_http_response("HTTP/1.1\r\n\r\n"),
        Err(UploadError::InvalidUploadEndpoint("missing HTTP status".to_owned()))
    );
    assert_eq!(
        parse_http_response("HTTP/1.1 abc\r\n\r\n"),
        Err(UploadError::InvalidUploadEndpoint("invalid digit found in string".to_owned()))
    );
    assert_eq!(
        HttpEndpoint::parse("https://x"),
        Err(UploadError::UnsupportedUploadEndpoint)
    );
    assert_eq!(
        HttpEndpoint::parse("http://:80/"),
        Err(UploadError::InvalidUploadEndpoint("host is required".to_owned()))
    );
    assert_eq!(
        HttpEndpoint::parse("http://host:99999"),
        Err(UploadError::InvalidUploadEndpoint("number too large to fit in target type".to_owned()))
    );
    let endpoint = HttpEndpoint::parse(" http://host ").unwrap();
    assert_eq!((endpoint.port, endpoint.path.as_str()), (80, "/"));
    assert_eq!(parse_u16("+7"), Ok(7));
    assert_eq!(parse_u16(""), Err(IntParseError::Empty));
    assert_eq!(upload_receipt(204, "ok".to_owned()).unwrap().status_code, 204);
    assert_eq!(
        upload_receipt(500, "no".to_owned()),
        Err(UploadError::UploadRejected { status_code: 500, body: "no".to_owned() })
    );
}

#[test]
fn input_delay_availability_and_logs() {
    assert_eq!(ensure_input_delay_available(false, None, false), Err(InputDelayError::SessionNotRunning));
    assert_eq!(
        ensure_input_delay_available(true, Some(SessionMode::Official), true),
        Err(InputDelayError::UnsupportedMode)
    );
    assert_eq!(
        ensure_input_delay_available(true, Some(SessionMode::Fallback), false),
        Err(InputDelayError::HookNotReady)
    );
    assert_eq!(ensure_input_delay_available(true, Some(SessionMode::Pure), true), Ok(()));
    let ok: Result<InputDelayReport, InputDelayError> = Ok(InputDelayReport { value: -3 });
    assert_eq!(input_delay_log_text(InputDelayOperation::Write, &ok), "Input delay write succeeded value=-3");
    let failed: Result<InputDelayReport, InputDelayError> = Err(InputDelayError::HookNotReady);
    assert_eq!(input_delay_log_text(InputDelayOperation::Read, &failed), "Input delay read failed error=Native Hook is not ready");
    let status = input_delay_status(InputDelayOperation::Read, &failed, 9);
    assert_eq!(status.result, Err("Native Hook is not ready".to_owned()));
}

#[test]
fn log_fields_follow_the_route() {
    let context = ClientSessionLogContext {
        route: ClientSessionLogRoute::ExternalRelay {
            relay_name: Some("EU".to_owned()),
            relay: RelayEndpoint::new("relay.test", 25910),
            transport: TransportChoice::Tcp,
        },
        mode: SessionMode::Fallback,
    };
    let fields = client_log_fields(Some(&context));
    assert_eq!(fields.route, Some("external_relay"));
    assert_eq!(fields.relay.as_deref(), Some("relay.test:25910"));
    assert_eq!(fields.transport, Some("TCP"));
    assert_eq!(fields.mode, Some("Fallback"));
    let lan = client_log_fields(Some(&ClientSessionLogContext { route: ClientSessionLogRoute::LanDirect, mode: SessionMode::Pure }));
    assert_eq!(lan.route, Some("lan_direct"));
    assert!(lan.relay.is_none());
    assert!(client_log_fields(None).mode.is_none());
}

#[test]
fn record_reader_splits_lines_across_small_buffers() {
    let mut reader = ByteReader::new(b"alpha\nbeta".to_vec(), 3);
    let mut record = Vec::new();
    assert_eq!(read_bounded_record(&mut reader, &mut record), Some(false));
    assert_eq!(record, b"alpha\n");
    assert_eq!(read_bounded_record(&mut reader, &mut record), Some(false));
    assert_eq!(record, b"beta");
    assert_eq!(read_bounded_record(&mut reader, &mut record), None);
}

#[test]
fn compact_log_line_summarises_a_snapshot() {
    let mut health = SessionHealth::new(false, 1_000_000, 0);
    let snapshot = health.snapshot(2_000_000);
    assert_eq!(snapshot.quality, SessionQuality::Unavailable);
    assert_eq!(
        snapshot.compact_log_line("health"),
        "health: quality=unavailable confidence=None reasons=[StartupOrIdle] window=2s hook_in=0 relay_recv=0 rtt_p95=- queue_drops=0 seq_gaps=0 relay_gap_p95=- hook_out_p95=-"
    );
}

#[test]
fn package_entries_are_bounded_and_listed() {
    assert_eq!(tail_bounded("héllo", 4), ("llo".to_owned(), true));
    assert_eq!(tail_bounded("abc", 4), ("abc".to_owned(), false));

    let mut entries = Vec::new();
    let mut warnings = Vec::new();
    let long = "x".repeat(MAX_PACKAGE_ENTRY_BYTES + 10);
    push_text_entry(&mut entries, "log.txt", &long, &mut warnings);
    assert_eq!(entries[0].1.len(), MAX_PACKAGE_ENTRY_BYTES);
    assert_eq!(warnings, vec!["log.txt: truncated to the most recent 262144 bytes".to_owned()]);
    for index in 1..MAX_PACKAGE_FILES {
        push_text_entry(&mut entries, &format!("f{index}"), "small", &mut warnings);
    }
    push_text_entry(&mut entries, "extra", "x", &mut warnings);
    assert_eq!(entries.len(), MAX_PACKAGE_FILES);
    assert_eq!(warnings.last().unwrap(), "extra: omitted because the package file limit was reached");

    let mut big = vec![
        ("a".to_owned(), "x".repeat(1_500_000)),
        ("b".to_owned(), "y".repeat(1_000_000)),
        ("c".to_owned(), "z".to_owned()),
    ];
    let mut notes = Vec::new();
    enforce_total_bound(&mut big, &mut notes);
    assert_eq!(big.len(), 2);
    assert_eq!(big[1].1.len(), 2_097_152 - 1_500_000);
    assert_eq!(
        notes,
        vec![
            "b: truncated by the package size limit".to_owned(),
            "c: omitted because the package size limit was reached".to_owned(),
        ]
    );

    let manifest = package_manifest(&vec![("s.txt".to_owned(), "abc".to_owned())], &Vec::new(), "2024-01-01T00:00:00.000Z");
    assert_eq!(
        manifest,
        "Tractor Beam Troubleshooting Package\ngenerated_at: 2024-01-01T00:00:00.000Z\nfiles:\n- s.txt: 3 bytes\nwarnings:\n- none\n"
    );
}

fn ping_target() -> LightPingTarget {
    LightPingTarget {
        relay_id: Some("eu-1".to_owned()),
        relay_name: None,
        endpoint: RelayEndpoint::new("relay.test", 1),
        transport: TransportChoice::Udp,
    }
}

#[test]
fn light_ping_run_counts_only_matching_pongs_and_keeps_first_failure() {
    let mut run = LightPingState::new();
    assert_eq!(run.pending_action(), PingAction::Connect { timeout_seconds: 2 });
    assert_eq!(run.step(PingEvent::Connected), PingAction::SendPing { id: 1 });
    assert_eq!(run.step(PingEvent::Sent), PingAction::Receive { timeout_seconds: 2 });
    assert_eq!(run.step(PingEvent::Datagram { pong_id: Some(1), elapsed_ms: 30 }), PingAction::Sleep { millis: 200 });
    assert_eq!(run.step(PingEvent::Rested), PingAction::SendPing { id: 2 });
    run.step(PingEvent::Sent);
    run.step(PingEvent::Datagram { pong_id: Some(7), elapsed_ms: 5 });
    run.step(PingEvent::Rested);
    run.step(PingEvent::Sent);
    run.step(PingEvent::RecvTimedOut);
    run.step(PingEvent::Rested);
    run.step(PingEvent::Sent);
    run.step(PingEvent::RecvFailed("reset".to_owned()));
    assert_eq!(run.failure_reason.as_deref(), Some("ping timed out"));
    run.step(PingEvent::Rested);
    run.step(PingEvent::Sent);
    run.step(PingEvent::Datagram { pong_id: Some(5), elapsed_ms: 10 });
    assert_eq!(run.step(PingEvent::Rested), PingAction::Report);
    assert_eq!((run.sent, run.received), (5, 2));
    let report = run.report(ping_target());
    assert_eq!(report.median_rtt_ms, Some(30));
    assert_eq!(report.failure_reason, None);
}

#[test]
fn light_ping_run_stops_on_send_failure_and_reports_connect_errors() {
    let mut run = LightPingState::new();
    run.step(PingEvent::Connected);
    run.step(PingEvent::Sent);
    run.step(PingEvent::RecvTimedOut);
    run.step(PingEvent::Rested);
    assert_eq!(run.step(PingEvent::SendFailed("closed".to_owned())), PingAction::Report);
    assert_eq!(run.step(PingEvent::Sent), PingAction::Report);
    let report = run.report(ping_target());
    assert_eq!((report.sent, report.received), (1, 0));
    assert_eq!(report.failure_reason.as_deref(), Some("send failed: closed"));

    let mut refused = LightPingState::new();
    assert_eq!(refused.step(PingEvent::ConnectFailed("refused".to_owned())), PingAction::Report);
    assert_eq!(refused.report(ping_target()).failure_reason.as_deref(), Some("connect failed: refused"));
    let mut slow = LightPingState::new();
    slow.step(PingEvent::ConnectTimedOut);
    assert_eq!(slow.report(ping_target()).failure_reason.as_deref(), Some("connect timed out"));
    let mut silent = LightPingState::new();
    silent.step(PingEvent::Connected);
    for _ in 0..5 {
        silent.step(PingEvent::Sent);
        silent.step(PingEvent::Datagram { pong_id: None, elapsed_ms: 1 });
        silent.step(PingEvent::Rested);
    }
    assert_eq!(silent.report(ping_target()).failure_reason.as_deref(), Some("no pongs received"));
}

#[test]
fn light_ping_reports_are_kept_one_per_relay() {
    let target = |host: &str| LightPingTarget {
        relay_id: None,
        relay_name: None,
        endpoint: RelayEndpoint::new(host, 443),
        transport: TransportChoice::Udp,
    };
    let mut reports = Vec::new();
    upsert_light_ping_report(&mut reports, light_ping_report(target("a.test"), 5, 5, &vec![10], None));
    upsert_light_ping_report(&mut reports, light_ping_report(target("b.test"), 5, 0, &vec![], None));
    upsert_light_ping_report(&mut reports, light_ping_report(target("a.test"), 5, 4, &vec![20], None));
    assert_eq!(reports.len(), 2);
    assert_eq!(reports[0].target.endpoint.host, "a.test");
    assert_eq!(reports[0].received, 4);
    assert_eq!(reports[1].failure_reason.as_deref(), Some("no pongs received"));
}
