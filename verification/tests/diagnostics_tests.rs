use bridge_core::diagnostics::{
    diagnostics_text, DiagnosticLogEntry, DiagnosticsInputs, FileExcerpt, HookStartupLines, IncidentLines, InputDelayLine,
};

fn s(text: &str) -> String {
    text.to_owned()
}

fn quiet_inputs() -> DiagnosticsInputs {
    DiagnosticsInputs {
        version: s("0.1.0"),
        status: s("Idle"),
        hook_to_relay: 1,
        relay_to_hook: 2,
        sent_bytes: 3,
        received_bytes: 4,
        errors: 5,
        config_source: None,
        default_transport: s("tcp"),
        default_mode: s("relay"),
        relay_presets: 2,
        log_directory: Some(s("/logs")),
        last_stop_reason: None,
        readiness: None,
        hook_receive: Some(s("ok")),
        hook_receive_error: None,
        input_delay: Some(InputDelayLine { operation: s("set"), result: Ok(s("3")), updated_at: s("10") }),
        ipc_connection: s("connected"),
        negotiated_major: Some(1),
        negotiated_minor: Some(2),
        reconnects: 0,
        hook_data_dropped: 0,
        client_data_dropped: 0,
        malformed_frames: 0,
        ipc_updated_at: 7,
        ipc_last_error: None,
        startup: None,
        session_health: None,
        incidents: vec![],
        launch_parameters_path_written: None,
        launch_parameters_cleanup: None,
        hook_log_path_expected: None,
        runtime_files: vec![],
        online_log_directory: s("/isaac"),
        online_log: FileExcerpt { name: s("online.log"), text: Err(s("missing")) },
        logs: vec![DiagnosticLogEntry { timestamp: s("T"), level: s("INFO"), message: s("hello") }],
        process_log: None,
        session_logs: vec![FileExcerpt { name: s("s1.log"), text: Ok(s("abc")) }],
    }
}

#[test]
fn diagnostics_text_lays_out_every_section_of_a_quiet_client() {
    let expected = [
        "Tractor Beam diagnostics\n\n",
        "version: 0.1.0\nstatus: Idle\n",
        "hook_to_relay: 1\nrelay_to_hook: 2\nsent_bytes: 3\nreceived_bytes: 4\nerrors: 5\n",
        "\nclient config:\nsource: built-in defaults\ndefault_transport: tcp\ndefault_mode: relay\nrelay_presets: 2\n",
        "log_directory: /logs\n",
        "\nsession lifecycle:\nlast_stop_reason: none\n",
        "\nlatest probes:\nreadiness: none\nhook_receive: ok\n",
        "input_delay: operation=set result=ok value=3 updated_at=10\n",
        "\nnative hook local IPC:\nconnection: connected\nnegotiated_version: 1.2\n",
        "reconnects: 0\nhook_data_dropped: 0\nclient_data_dropped: 0\nmalformed_frames: 0\nupdated_at: 7\n",
        "\nnative hook startup:\nphase: not_started\n",
        "\nsession health:\nnone\n",
        "\nclient incidents:\nnone\n\n",
        "hook runtime files:\nlaunch_parameters_path_written: none\n",
        "\nIsaac online log excerpts:\ndirectory: /isaac\n",
        "\n--- online.log ---\nunavailable: missing\n",
        "\nlogs:\n[T] INFO hello\n",
        "\nprocess log:\nunavailable\n",
        "\nsession logs:\n",
        "\n--- s1.log ---\nabc\n",
    ]
    .concat();
    assert_eq!(diagnostics_text(&quiet_inputs()), expected);
}

#[test]
fn diagnostics_text_shows_startup_health_incidents_and_runtime_files() {
    let mut d = quiet_inputs();
    d.config_source = Some(s("/cfg/client.toml"));
    d.log_directory = None;
    d.last_stop_reason = Some(s("Session stopped"));
    d.input_delay = Some(InputDelayLine { operation: s("get"), result: Err(s("no game")), updated_at: s("11") });
    d.negotiated_minor = None;
    d.ipc_last_error = Some(s("pipe closed"));
    d.startup = Some(HookStartupLines {
        phase: s("ready"),
        injected: true,
        endpoint_ready: false,
        access_denied: false,
        updated_at: 42,
        process_name: Some(s("isaac-ng.exe")),
        pid: Some(4242),
        injector_path: None,
        hook_path: None,
        launch_parameters_path: None,
        endpoint: Some(s("127.0.0.1:1")),
        message: None,
    });
    d.session_health = Some((s("summary quality=good"), Err(s("bad float"))));
    d.incidents = vec![IncidentLines { timestamp: s("9"), kind: s("stall"), summary: s("late"), health_line: s("health x") }];
    d.launch_parameters_path_written = Some(s("/run/params.json"));
    d.runtime_files = vec![FileExcerpt { name: s("bridge.toml"), text: Ok(s("a = 1\n")) }];
    d.process_log = Some(FileExcerpt { name: s("/logs/p.log"), text: Ok(s("tail")) });
    d.session_logs = vec![];
    let text = diagnostics_text(&d);
    assert!(text.contains("\nclient config:\nsource: /cfg/client.toml\n"));
    assert!(text.contains("relay_presets: 2\nlog_directory: unavailable\n\nsession lifecycle:\nlast_stop_reason: Session stopped\n\n"));
    assert!(text.contains("input_delay: operation=get result=error error=no game updated_at=11\n"));
    assert!(text.contains("negotiated_version: none\n"));
    assert!(text.contains("updated_at: 7\nlast_error: pipe closed\n\nnative hook startup:\n"));
    assert!(text.contains(
        "phase: ready\ninjected: true\nendpoint_ready: false\naccess_denied: false\nupdated_at: 42\nprocess_name: isaac-ng.exe\npid: 4242\nendpoint: 127.0.0.1:1\n\nsession health:\n"
    ));
    assert!(text.contains("summary quality=good\njson_unavailable: bad float\n\nclient incidents:\n- [9] stall: late\n  health x\n\nhook runtime files:\n"));
    assert!(text.contains(
        "launch_parameters_path_written: /run/params.json\nlaunch_parameters_cleanup: none\n\n--- bridge.toml ---\na = 1\n\nIsaac online log excerpts:\n"
    ));
    assert!(text.ends_with("\nprocess log:\n--- /logs/p.log ---\ntail\n\nsession logs:\n"));
}
