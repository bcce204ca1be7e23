//! Session configuration: modes, transports, relay endpoints and the checks
//! a configuration passes before a session starts.

use vstd::prelude::*;
use crate::join_code::SessionCredential;
use crate::text::{
    is_blank, all_ascii_digits, push_str, push_decimal, spec_is_blank, spec_all_ascii_digits,
    spec_decimal,
};

verus! {

#[derive(Clone, Copy, Debug, PartialEq, Eq, Structural)]
pub enum SessionMode {
    Official,
    Fallback,
    Pure,
}

impl SessionMode {
    /// The display name of the mode.
    pub fn name(self) -> (s: &'static str)
        ensures
            s@ == match self {
                SessionMode::Official => "Official"@,
                SessionMode::Fallback => "Fallback"@,
                SessionMode::Pure => "Pure"@,
            },
    {
        match self {
            SessionMode::Official => "Official",
            SessionMode::Fallback => "Fallback",
            SessionMode::Pure => "Pure",
        }
    }
}

#[derive(Clone, Copy, Debug, PartialEq, Eq, Structural)]
pub enum TransportChoice {
    Udp,
    Tcp,
}

/// The display name of a transport: `UDP` or `TCP`.
pub open spec fn spec_transport_name(t: TransportChoice) -> Seq<char> {
    match t {
        TransportChoice::Udp => "UDP"@,
        TransportChoice::Tcp => "TCP"@,
    }
}

impl TransportChoice {
    /// TCP is the default transport.
    pub fn default_choice() -> (t: TransportChoice)
        ensures
            t == TransportChoice::Tcp,
    {
        TransportChoice::Tcp
    }

    /// The display name of the transport.
    pub fn name(self) -> (s: &'static str)
        ensures
            s@ == spec_transport_name(self),
    {
        proof {
            reveal_strlit("UDP");
            reveal_strlit("TCP");
        }
        match self {
            TransportChoice::Udp => "UDP",
            TransportChoice::Tcp => "TCP",
        }
    }
}

#[derive(Clone, Copy, Debug, PartialEq, Eq, Structural)]
pub enum ConnectionProfile {
    Udp,
    Tcp,
}

/// The transport a connection profile runs over.
pub open spec fn spec_profile_transport(p: ConnectionProfile) -> TransportChoice {
    match p {
        ConnectionProfile::Tcp => TransportChoice::Tcp,
        ConnectionProfile::Udp => TransportChoice::Udp,
    }
}

impl ConnectionProfile {
    /// Every profile, in the order the readiness matrix probes them.
    pub fn all() -> (profiles: [ConnectionProfile; 2])
        ensures
            profiles@ == seq![ConnectionProfile::Tcp, ConnectionProfile::Udp],
    {
        [ConnectionProfile::Tcp, ConnectionProfile::Udp]
    }

    /// The transport this profile uses.
    pub fn transport(self) -> (t: TransportChoice)
        ensures
            t == spec_profile_transport(self),
    {
        match self {
            ConnectionProfile::Tcp => TransportChoice::Tcp,
            ConnectionProfile::Udp => TransportChoice::Udp,
        }
    }

    /// The display name of the profile: `UDP` or `TCP`.
    pub fn name(self) -> (s: &'static str)
        ensures
            s@ == spec_transport_name(spec_profile_transport(self)),
    {
        self.transport().name()
    }
}

#[derive(Clone, Copy, Debug, PartialEq, Eq, Structural)]
pub struct SessionHealthConfig {
    pub enabled: bool,
    pub runtime_rtt_enabled: bool,
    pub snapshot_interval_seconds: u64,
    pub runtime_rtt_interval_seconds: u64,
    pub runtime_rtt_timeout_seconds: u64,
}

/// A health configuration is valid when all three intervals are positive.
pub open spec fn spec_health_config_valid(c: SessionHealthConfig) -> bool {
    c.snapshot_interval_seconds > 0 && c.runtime_rtt_interval_seconds > 0
        && c.runtime_rtt_timeout_seconds > 0
}

/// The message naming the first zero interval, if any.
pub open spec fn spec_health_error(c: SessionHealthConfig) -> Option<Seq<char>> {
    if c.snapshot_interval_seconds == 0 {
        Some("snapshot_interval_seconds must be greater than 0"@)
    } else if c.runtime_rtt_interval_seconds == 0 {
        Some("runtime_rtt_interval_seconds must be greater than 0"@)
    } else if c.runtime_rtt_timeout_seconds == 0 {
        Some("runtime_rtt_timeout_seconds must be greater than 0"@)
    } else {
        None
    }
}

impl SessionHealthConfig {
    /// The defaults: enabled, RTT enabled, 5 s snapshots, 1 s RTT pings, 3 s timeout.
    pub fn default_config() -> (c: SessionHealthConfig)
        ensures
            c == (SessionHealthConfig {
                enabled: true,
                runtime_rtt_enabled: true,
                snapshot_interval_seconds: 5,
                runtime_rtt_interval_seconds: 1,
                runtime_rtt_timeout_seconds: 3,
            }),
    {
        SessionHealthConfig {
            enabled: true,
            runtime_rtt_enabled: true,
            snapshot_interval_seconds: 5,
            runtime_rtt_interval_seconds: 1,
            runtime_rtt_timeout_seconds: 3,
        }
    }

    /// Rejects a zero interval, naming the first zero field in declaration order.
    pub fn validate(&self) -> (r: Result<(), &'static str>)
        ensures
            r is Ok <==> spec_health_config_valid(*self),
            match spec_health_error(*self) {
                None => r is Ok,
                Some(m) => r matches Err(t) && t@ == m,
            },
            self.snapshot_interval_seconds == 0 ==> r == Err::<(), &'static str>(
                "snapshot_interval_seconds must be greater than 0",
            ),
            self.snapshot_interval_seconds > 0 && self.runtime_rtt_interval_seconds == 0 ==> r
                == Err::<(), &'static str>("runtime_rtt_interval_seconds must be greater than 0"),
            self.snapshot_interval_seconds > 0 && self.runtime_rtt_interval_seconds > 0
                && self.runtime_rtt_timeout_seconds == 0 ==> r == Err::<(), &'static str>(
                "runtime_rtt_timeout_seconds must be greater than 0",
            ),
    {
        if self.snapshot_interval_seconds == 0 {
            return Err("snapshot_interval_seconds must be greater than 0");
        }
        if self.runtime_rtt_interval_seconds == 0 {
            return Err("runtime_rtt_interval_seconds must be greater than 0");
        }
        if self.runtime_rtt_timeout_seconds == 0 {
            return Err("runtime_rtt_timeout_seconds must be greater than 0");
        }
        Ok(())
    }
}

#[derive(Clone, Copy, Debug, PartialEq, Eq, Structural)]
pub enum ConfigError {
    MissingRelayHost,
    InvalidRelayPort,
    MissingRoom,
    MissingSteamId,
    InvalidSteamId,
    InvalidSessionHealth,
}

impl ConfigError {
    pub open spec fn spec_message(self) -> Seq<char> {
        match self {
            ConfigError::MissingRelayHost => "relay host is required"@,
            ConfigError::InvalidRelayPort => "relay port is invalid"@,
            ConfigError::MissingRoom => "room is required"@,
            ConfigError::MissingSteamId => "SteamID64 is required"@,
            ConfigError::InvalidSteamId => "SteamID64 must contain digits only"@,
            ConfigError::InvalidSessionHealth => "session health config is invalid"@,
        }
    }

    /// The user-facing message of the error.
    pub fn message(self) -> (s: &'static str)
        ensures
            s@ == self.spec_message(),
    {
        match self {
            ConfigError::MissingRelayHost => "relay host is required",
            ConfigError::InvalidRelayPort => "relay port is invalid",
            ConfigError::MissingRoom => "room is required",
            ConfigError::MissingSteamId => "SteamID64 is required",
            ConfigError::InvalidSteamId => "SteamID64 must contain digits only",
            ConfigError::InvalidSessionHealth => "session health config is invalid",
        }
    }
}

#[derive(Clone, Debug, PartialEq, Eq)]
pub struct RelayEndpoint {
    pub host: String,
    pub port: u16,
}

/// The outcome of checking a relay endpoint.
pub open spec fn spec_relay_validate(host: Seq<char>, port: u16) -> Result<(), ConfigError> {
    if spec_is_blank(host) {
        Err(ConfigError::MissingRelayHost)
    } else if port == 0 {
        Err(ConfigError::InvalidRelayPort)
    } else {
        Ok(())
    }
}

/// `host:port`, as the endpoint is displayed.
pub open spec fn spec_endpoint_text(host: Seq<char>, port: u16) -> Seq<char> {
    host + seq![':'] + spec_decimal(port as nat)
}

impl RelayEndpoint {
    pub fn new(host: &str, port: u16) -> (e: RelayEndpoint)
        ensures
            e.host@ == host@,
            e.port == port,
    {
        RelayEndpoint { host: String::from_str(host), port }
    }

    /// A relay endpoint needs a host that is not blank and a non-zero port.
    pub fn validate(&self) -> (r: Result<(), ConfigError>)
        ensures
            r == spec_relay_validate(self.host@, self.port),
    {
        if is_blank(self.host.as_str()) {
            return Err(ConfigError::MissingRelayHost);
        }
        if self.port == 0 {
            return Err(ConfigError::InvalidRelayPort);
        }
        Ok(())
    }

    /// The endpoint as `host:port`.
    pub fn display_text(&self) -> (s: String)
        ensures
            s@ == spec_endpoint_text(self.host@, self.port),
    {
        let mut s = String::from_str(self.host.as_str());
        proof { reveal_strlit(":"); }
        push_str(&mut s, ":");
        push_decimal(&mut s, self.port as u128);
        s
    }
}

#[derive(Clone, Debug, PartialEq, Eq)]
pub struct SteamIdentity {
    pub steam_id64: String,
    pub display_name: String,
    pub most_recent: bool,
}

/// A session through an external relay.
#[derive(Clone, PartialEq, Eq)]
pub struct ExternalRelayConfig {
    pub relay: RelayEndpoint,
    pub relay_name: Option<String>,
    pub transport: TransportChoice,
    pub session_credential: SessionCredential,
}

/// A session over direct LAN paths.
#[derive(Clone, PartialEq, Eq)]
pub struct LanDirectConfig {
    pub session_credential: SessionCredential,
    pub room: Option<String>,
}

/// How a session reaches its peers.
#[derive(Clone, PartialEq, Eq)]
pub enum SessionRouteConfig {
    ExternalRelay(ExternalRelayConfig),
    LanDirect(LanDirectConfig),
}

#[derive(Clone, PartialEq, Eq)]
pub struct SessionConfig {
    pub route: SessionRouteConfig,
    pub mode: SessionMode,
    pub steam_id64: String,
    pub display_name: String,
    pub session_health: SessionHealthConfig,
}

/// The outcome of checking a session configuration; checks run in order and
/// the first failing one is reported. Only a relay route outside Official
/// mode has a relay to check.
pub open spec fn spec_session_validate(c: SessionConfig) -> Result<(), ConfigError> {
    let relay_error = match c.route {
        SessionRouteConfig::ExternalRelay(r) => c.mode != SessionMode::Official && spec_relay_validate(r.relay.host@, r.relay.port) is Err,
        SessionRouteConfig::LanDirect(_) => false,
    };
    if relay_error {
        spec_relay_validate(c.route->ExternalRelay_0.relay.host@, c.route->ExternalRelay_0.relay.port)
    } else if spec_is_blank(c.steam_id64@) {
        Err(ConfigError::MissingSteamId)
    } else if !spec_all_ascii_digits(c.steam_id64@) {
        Err(ConfigError::InvalidSteamId)
    } else if !spec_health_config_valid(c.session_health) {
        Err(ConfigError::InvalidSessionHealth)
    } else {
        Ok(())
    }
}

impl SessionConfig {
    /// Checks the relay (of a relay route outside Official mode), the
    /// SteamID64 and the health settings.
    pub fn validate(&self) -> (r: Result<(), ConfigError>)
        ensures
            r == spec_session_validate(*self),
    {
        if self.mode != SessionMode::Official {
            match &self.route {
                SessionRouteConfig::ExternalRelay(route) => {
                    let relay = route.relay.validate();
                    if relay.is_err() {
                        return relay;
                    }
                },
                SessionRouteConfig::LanDirect(_) => {},
            }
        }
        if is_blank(self.steam_id64.as_str()) {
            return Err(ConfigError::MissingSteamId);
        }
        if !all_ascii_digits(self.steam_id64.as_str()) {
            return Err(ConfigError::InvalidSteamId);
        }
        if self.session_health.validate().is_err() {
            return Err(ConfigError::InvalidSessionHealth);
        }
        Ok(())
    }
}

impl Default for SessionHealthConfig {
    fn default() -> (c: SessionHealthConfig)
        ensures
            c == (SessionHealthConfig {
                enabled: true,
                runtime_rtt_enabled: true,
                snapshot_interval_seconds: 5,
                runtime_rtt_interval_seconds: 1,
                runtime_rtt_timeout_seconds: 3,
            }),
    {
        SessionHealthConfig::default_config()
    }
}

} // verus!
