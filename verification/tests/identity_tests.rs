use bridge_core::client_session::{ClientSession, LogLine, ProbeStartError, RuntimeEvent, SessionStatus, SessionStopReason};
use bridge_core::logging::LogLevel;
use bridge_core::build_info::{self, BuildInfo, PACKAGE_VERSION};
use bridge_core::join_code::SessionCredential;
use bridge_core::session_config::{
    ConfigError, ExternalRelayConfig, LanDirectConfig, RelayEndpoint, SessionConfig,
    SessionHealthConfig, SessionMode, SessionRouteConfig, TransportChoice,
};

#[test]
fn lib_exposes_runtime_name() {
    assert_eq!(bridge_core::bridge_client::runtime_name(), "bridge-client");
}

#[test]
fn runtime_tests_exposes_runtime_name() {
    assert_eq!(bridge_core::runtime::runtime_name(), "bridge-core");
}

#[test]
fn build_info_exposes_package_version() {
    let info = BuildInfo::current(None);

    assert_eq!(info.version, PACKAGE_VERSION);
    assert_eq!(info.version, "0.1.0");
    assert!(!info.version_label().is_empty());
    assert_eq!(build_info::version_label(None), "0.1.0");
    assert_eq!(build_info::current(Some(" abc ")).git_hash, Some("abc"));
}

#[test]
fn display_uses_short_git_hash() {
    let info = BuildInfo {
        version: "1.2.3",
        git_hash: Some("0123456789abcdef"),
    };

    assert_eq!(info.version_label(), "1.2.3+0123456789ab");
}

#[test]
fn validates_relay_endpoint() {
    assert!(RelayEndpoint::new("relay.example.com", 25_910)
        .validate()
        .is_ok());
    assert_eq!(
        RelayEndpoint::new("", 25_910).validate(),
        Err(ConfigError::MissingRelayHost)
    );
}

#[test]
fn build_hash_is_trimmed_and_blank_hashes_are_dropped() {
    let info = BuildInfo::current(Some("  0123456789abcdef \n"));
    assert_eq!(info.git_hash, Some("0123456789abcdef"));
    assert_eq!(info.version_label(), "0.1.0+0123456789ab");
    assert_eq!(BuildInfo::current(Some("   ")).git_hash, None);
    assert_eq!(BuildInfo::current(None).version_label(), "0.1.0");
}

#[test]
fn validates_session_config() {
    let config = SessionConfig {
        route: SessionRouteConfig::ExternalRelay(ExternalRelayConfig {
            relay: RelayEndpoint::new("relay.example.com", 25_910),
            relay_name: None,
            transport: TransportChoice::Udp,
            session_credential: SessionCredential::generate(),
        }),
        mode: SessionMode::Pure,
        steam_id64: "76561198000000001".to_owned(),
        display_name: "Alice".to_owned(),
        session_health: SessionHealthConfig::default(),
    };

    assert!(config.validate().is_ok());
}

#[test]
fn validates_lan_session_without_relay_fields() {
    let config = SessionConfig {
        route: SessionRouteConfig::LanDirect(LanDirectConfig {
            session_credential: SessionCredential::generate(),
            room: None,
        }),
        mode: SessionMode::Pure,
        steam_id64: "76561198000000001".to_owned(),
        display_name: "Alice".to_owned(),
        session_health: SessionHealthConfig::default(),
    };

    assert!(config.validate().is_ok());
}

#[test]
fn session_config_checks_relay_then_steam_id_then_health() {
    let relay = |host: &str, port: u16| {
        SessionRouteConfig::ExternalRelay(ExternalRelayConfig {
            relay: RelayEndpoint::new(host, port),
            relay_name: None,
            transport: TransportChoice::Tcp,
            session_credential: SessionCredential::from_bytes([1; 16]),
        })
    };
    let config = |route, mode, steam: &str, health| SessionConfig {
        route,
        mode,
        steam_id64: steam.to_owned(),
        display_name: "Bob".to_owned(),
        session_health: health,
    };
    let health = SessionHealthConfig::default();
    assert_eq!(config(relay(" ", 1), SessionMode::Pure, "1", health).validate(), Err(ConfigError::MissingRelayHost));
    assert_eq!(config(relay("h", 0), SessionMode::Fallback, "1", health).validate(), Err(ConfigError::InvalidRelayPort));
    assert_eq!(config(relay(" ", 0), SessionMode::Official, "1", health).validate(), Ok(()));
    assert_eq!(config(relay("h", 1), SessionMode::Pure, "  ", health).validate(), Err(ConfigError::MissingSteamId));
    assert_eq!(config(relay("h", 1), SessionMode::Pure, "12a", health).validate(), Err(ConfigError::InvalidSteamId));
    let mut bad = health;
    bad.runtime_rtt_timeout_seconds = 0;
    assert_eq!(config(relay("h", 1), SessionMode::Pure, "12", bad).validate(), Err(ConfigError::InvalidSessionHealth));
}

fn game_exited() -> SessionStopReason {
    SessionStopReason::GameExited { process_name: "isaac-ng.exe".to_owned(), pid: 42 }
}

#[test]
fn reliable_game_exit_completion_returns_client_to_idle() {
    let mut client = ClientSession::new();
    client.status = SessionStatus::Running;
    client.active_session_mode = Some(SessionMode::Pure);
    client.session_active = true;
    assert!(client.poll_events(vec![
        RuntimeEvent::SessionEnded(game_exited()),
        RuntimeEvent::SessionEnded(SessionStopReason::RuntimeEnded { message: "later task exit".to_owned() }),
        RuntimeEvent::Stopped,
    ]));
    assert_eq!(client.status, SessionStatus::Idle);
    assert_eq!(client.active_session_mode, None);
    assert!(!client.session_active);
    assert_eq!(client.last_stop_reason, Some(game_exited()));
}

#[test]
fn stop_does_not_overwrite_a_terminal_reason_that_already_arrived() {
    let mut client = ClientSession::new();
    client.status = SessionStatus::Running;
    client.active_session_mode = Some(SessionMode::Official);
    client.session_active = true;
    let first = client.stop_session(vec![RuntimeEvent::SessionEnded(game_exited()), RuntimeEvent::Stopped]);
    let second = client.stop_session(vec![]);
    let stopped = LogLine { level: LogLevel::Info, text: "Session stopped".to_owned() };
    assert_eq!((first, second), (stopped.clone(), stopped));
    assert_eq!(client.status, SessionStatus::Idle);
    assert_eq!(client.last_stop_reason, Some(game_exited()));
}

#[test]
fn player_stop_is_recorded_only_without_an_earlier_reason_and_probes_run_once() {
    let mut client = ClientSession::new();
    assert!(!client.poll_events(vec![]));
    client.session_started(SessionMode::Fallback);
    assert_eq!(client.status, SessionStatus::Running);
    client.stop_session(vec![RuntimeEvent::Other]);
    assert_eq!(client.last_stop_reason, Some(SessionStopReason::UserStopped));
    client.session_started(SessionMode::Pure);
    assert_eq!(client.last_stop_reason, None);
    assert_eq!(client.start_readiness_probe(), Ok(()));
    assert_eq!(client.start_readiness_probe(), Err(ProbeStartError::ReadinessProbeRunning));
    client.latest_hook_receive_probe_error = Some("old failure".to_owned());
    assert_eq!(
        client.start_hook_receive_probe(),
        Ok(LogLine { level: LogLevel::Info, text: "Hook receive probe started".to_owned() })
    );
    assert_eq!(client.latest_hook_receive_probe_error, None);
    assert!(client.session_active && client.active_session_mode == Some(SessionMode::Pure));
    assert_eq!(client.start_hook_receive_probe(), Err(ProbeStartError::HookReceiveProbeRunning));
    assert_eq!(ProbeStartError::ReadinessProbeRunning.message(), "readiness probe is already running");
    client.poll_events(vec![RuntimeEvent::ReadinessProbeFinished]);
    assert!(!client.readiness_probe_running && client.hook_probe_running);
    client.poll_events(vec![RuntimeEvent::HookReceiveProbeFinished { error: Some("no hook".to_owned()) }]);
    assert!(!client.hook_probe_running);
    assert_eq!(client.latest_hook_receive_probe_error.as_deref(), Some("no hook"));
    assert_eq!(client.status, SessionStatus::Running);
}
