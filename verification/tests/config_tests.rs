use bridge_core::client_config::{
    config_text_with_selection, loaded_client_config, parse_mode, parse_transport, ClientConfig, ClientConfigError,
    ClientConfigSelection, RawClientConfig, RawRelayPreset,
    RawSessionHealthConfig,
};
use bridge_core::session_config::{SessionMode, TransportChoice};

fn raw() -> RawClientConfig {
    RawClientConfig {
        default_transport: None,
        default_mode: None,
        selected_relay: None,
        selected_steam_id64: None,
        session_health: None,
        relays: Vec::new(),
    }
}

fn preset(id: &str, host: &str) -> RawRelayPreset {
    RawRelayPreset {
        id: id.to_owned(),
        name: format!("{id} relay"),
        host: host.to_owned(),
        port: 25910,
        udp: true,
        tcp: true,
        default_transport: None,
    }
}

#[test]
fn parses_relay_presets_and_defaults() {
    let value = RawClientConfig {
        default_transport: Some("tcp".to_owned()),
        default_mode: Some("pure".to_owned()),
        selected_relay: Some("current".to_owned()),
        session_health: Some(RawSessionHealthConfig {
            enabled: Some(true),
            runtime_rtt_enabled: Some(false),
            snapshot_interval_seconds: Some(10),
            runtime_rtt_interval_seconds: None,
            runtime_rtt_timeout_seconds: None,
        }),
        relays: vec![RawRelayPreset {
            id: "current".to_owned(),
            name: "Current test relay".to_owned(),
            host: "relay.example.test".to_owned(),
            port: 25910,
            udp: true,
            tcp: true,
            default_transport: Some("tcp".to_owned()),
        }],
        ..raw()
    };
    let config = ClientConfig::from_raw(&value).unwrap();
    assert_eq!(config.default_transport, TransportChoice::Tcp);
    assert_eq!(config.default_mode, SessionMode::Pure);
    assert!(config.session_health.enabled);
    assert!(!config.session_health.runtime_rtt_enabled);
    assert_eq!(config.session_health.snapshot_interval_seconds, 10);
    assert_eq!(config.selected_relay_index(), Some(0));
    assert_eq!(
        config.relays[0].preferred_transport(TransportChoice::Udp),
        TransportChoice::Tcp
    );
}

#[test]
fn parses_ipv6_relay_preset() {
    let value = RawClientConfig {
        relays: vec![RawRelayPreset {
            id: "ipv6".to_owned(),
            name: "IPv6 relay".to_owned(),
            host: "[2001:db8::10]".to_owned(),
            port: 25910,
            udp: true,
            tcp: true,
            default_transport: None,
        }],
        ..raw()
    };
    let config = ClientConfig::from_raw(&value).unwrap();
    assert_eq!(config.relays[0].endpoint.host, "2001:db8::10");
}

#[test]
fn rejects_invalid_session_health_interval() {
    let value = RawClientConfig {
        session_health: Some(RawSessionHealthConfig {
            enabled: Some(true),
            runtime_rtt_enabled: None,
            snapshot_interval_seconds: Some(0),
            runtime_rtt_interval_seconds: None,
            runtime_rtt_timeout_seconds: None,
        }),
        ..raw()
    };
    let error = ClientConfig::from_raw(&value).unwrap_err();
    assert!(matches!(error, ClientConfigError::InvalidSessionHealth(_)));
}

#[test]
fn defaults_transport_to_tcp_when_omitted() {
    let config = ClientConfig::from_raw(&raw()).unwrap();
    assert_eq!(config.default_transport, TransportChoice::Tcp);
}

#[test]
fn config_errors_name_the_offending_value() {
    let value = RawClientConfig {
        default_transport: Some(" QUIC ".to_owned()),
        ..raw()
    };
    let error = ClientConfig::from_raw(&value).unwrap_err();
    assert_eq!(error, ClientConfigError::InvalidTransport("quic".to_owned()));
    assert_eq!(error.message(), "invalid default transport: quic");

    let value = RawClientConfig {
        default_mode: Some("Turbo".to_owned()),
        ..raw()
    };
    assert_eq!(
        ClientConfig::from_raw(&value).unwrap_err(),
        ClientConfigError::InvalidMode("turbo".to_owned())
    );

    let value = RawClientConfig {
        relays: vec![preset("a", "one.test"), preset("a", "two.test")],
        ..raw()
    };
    assert_eq!(
        ClientConfig::from_raw(&value).unwrap_err(),
        ClientConfigError::DuplicateRelayId("a".to_owned())
    );

    let value = RawClientConfig {
        selected_relay: Some("missing".to_owned()),
        relays: vec![preset("a", "one.test")],
        ..raw()
    };
    assert_eq!(
        ClientConfig::from_raw(&value).unwrap_err(),
        ClientConfigError::UnknownSelectedRelay("missing".to_owned())
    );

    let value = RawClientConfig {
        relays: vec![preset("a", " ")],
        ..raw()
    };
    assert_eq!(
        ClientConfig::from_raw(&value).unwrap_err(),
        ClientConfigError::InvalidRelay("a: relay host is required".to_owned())
    );
}

#[test]
fn preset_label_and_transport_preference() {
    let config = ClientConfig::from_raw(&RawClientConfig {
        relays: vec![RawRelayPreset {
            udp: false,
            ..preset("b", "relay.test")
        }],
        ..raw()
    })
    .unwrap();
    let relay = &config.relays[0];
    assert_eq!(relay.label(), "b relay (relay.test:25910)");
    assert_eq!(relay.preferred_transport(TransportChoice::Udp), TransportChoice::Tcp);
    assert!(!relay.supports(TransportChoice::Udp));
}

#[test]
fn invalid_config_file_falls_back_to_defaults_with_a_warning() {
    let loaded = loaded_client_config(
        Some("/bundle/config.toml"),
        Some(Err(ClientConfigError::InvalidMode("x".to_owned()))),
    );
    assert_eq!(loaded.source.as_deref(), Some("/bundle/config.toml"));
    assert_eq!(
        loaded.warnings,
        vec!["Invalid config at /bundle/config.toml: invalid default mode: x".to_owned()]
    );
    let unavailable = loaded_client_config(None, None);
    assert_eq!(unavailable.warnings, vec!["Bundle config path is unavailable".to_owned()]);
}

#[test]
fn selection_is_written_without_clobbering_other_keys() {
    let existing = "# keep this comment\ndefault_transport = \"tcp\"\nselected_steam_id64 = \"1\"\n";
    let text = config_text_with_selection(
        existing,
        &ClientConfigSelection {
            selected_relay: Some(" r1 ".to_owned()),
            selected_steam_id64: Some("  ".to_owned()),
        },
    )
    .unwrap();
    assert!(text.contains("selected_relay = \"r1\""));
    assert!(!text.contains("selected_steam_id64"));
    assert!(text.contains("# keep this comment"));
    assert!(text.contains("default_transport = \"tcp\""));
    assert!(matches!(
        config_text_with_selection("not = = toml", &ClientConfigSelection { selected_relay: None, selected_steam_id64: None }),
        Err(ClientConfigError::InvalidDocument(_))
    ));
}

#[test]
fn save_selection_writes_keys_without_clobbering_others() {
    let existing = "# keep this comment\ndefault_transport = \"tcp\"\nroom = \"legacy-room-value\"\n[[relays]]\nid = \"r1\"\nname = \"Relay 1\"\nhost = \"relay.example.test\"\nport = 25910\n";
    let content = config_text_with_selection(
        existing,
        &ClientConfigSelection {
            selected_relay: Some("r1".to_owned()),
            selected_steam_id64: Some("76561198000000001".to_owned()),
        },
    )
    .unwrap();
    assert!(content.contains("selected_relay = \"r1\""));
    assert!(content.contains("selected_steam_id64 = \"76561198000000001\""));
    assert!(content.contains("# keep this comment"));
    assert!(content.contains("room = \"legacy-room-value\""));
    assert!(content.contains("[[relays]]"));
    assert!(content.contains("host = \"relay.example.test\""));
}

#[test]
fn transport_and_mode_names_ignore_ascii_case_only() {
    assert_eq!(parse_transport(Some(" TcP ")), Ok(Some(TransportChoice::Tcp)));
    assert_eq!(parse_transport(Some("UDP")), Ok(Some(TransportChoice::Udp)));
    assert_eq!(parse_mode(Some("Fallback")), Ok(Some(SessionMode::Fallback)));
    assert_eq!(parse_transport(None), Ok(None));
    assert_eq!(parse_transport(Some("QUIC-Ä")), Err(ClientConfigError::InvalidTransport("quic-Ä".to_owned())));
}
