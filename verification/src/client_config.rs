//! The client's configuration file: relay presets, defaults and the checks
//! that a loaded configuration must pass. The file is read and parsed by the
//! caller into `RawClientConfig`.

use vstd::prelude::*;
use crate::session_config::{
    RelayEndpoint, SessionHealthConfig, SessionMode, TransportChoice, spec_endpoint_text,
    spec_relay_validate,
};
use crate::text::{push_str, spec_trim, trim};

verus! {

pub const CLIENT_CONFIG_FILE: &'static str = "config.toml";

/// `c` with ASCII capitals made small.
pub open spec fn ascii_lower(c: char) -> char {
    if 'A' <= c && c <= 'Z' { ((c as u32) + 32) as char } else { c }
}

pub open spec fn spec_ascii_lowercase(s: Seq<char>) -> Seq<char> {
    Seq::new(s.len(), |i: int| ascii_lower(s[i]))
}

/// The small letter of the ASCII capital `c`.
fn small_letter(c: char) -> (s: &'static str)
    requires
        'A' <= c <= 'Z',
    ensures
        s@ == seq![ascii_lower(c)],
{
    let letters = "abcdefghijklmnopqrstuvwxyz";
    proof {
        reveal_strlit("abcdefghijklmnopqrstuvwxyz");
    }
    let k = (c as u32 - 65) as usize;
    let piece = letters.substring_char(k, k + 1);
    proof {
        assert(letters@[k as int] == ascii_lower(c));
        assert(piece@ =~= seq![letters@[k as int]]);
    }
    piece
}

/// `s` with each ASCII capital made small and every other character kept,
/// as `str::to_ascii_lowercase` does.
fn to_ascii_lowercase(s: &str) -> (r: String)
    ensures
        r@ == spec_ascii_lowercase(s@),
{
    let n = s.unicode_len();
    let mut out = String::new();
    let mut i: usize = 0;
    while i < n
        invariant
            i <= n == s@.len(),
            out@ == spec_ascii_lowercase(s@.take(i as int)),
        decreases n - i,
    {
        let c = s.get_char(i);
        if 'A' <= c && c <= 'Z' {
            push_str(&mut out, small_letter(c));
        } else {
            let piece = s.substring_char(i, i + 1);
            proof {
                assert(piece@ =~= seq![c]);
            }
            push_str(&mut out, piece);
        }
        i = i + 1;
        proof {
            assert(out@ =~= spec_ascii_lowercase(s@.take(i as int)));
        }
    }
    proof {
        assert(s@.take(n as int) =~= s@);
    }
    out
}

/// Why a configuration was refused.
#[derive(Clone, Debug, PartialEq, Eq)]
pub enum ClientConfigError {
    InvalidToml(String),
    InvalidTransport(String),
    InvalidMode(String),
    InvalidRelay(String),
    DuplicateRelayId(String),
    UnknownSelectedRelay(String),
    InvalidSessionHealth(String),
    ConfigPathUnavailable,
    InvalidDocument(String),
    Io { operation: String, path: String, source: String },
}

impl ClientConfigError {
    pub open spec fn spec_message(&self) -> Seq<char> {
        match self {
            ClientConfigError::InvalidToml(t) => "invalid TOML: "@ + t@,
            ClientConfigError::InvalidTransport(t) => "invalid default transport: "@ + t@,
            ClientConfigError::InvalidMode(t) => "invalid default mode: "@ + t@,
            ClientConfigError::InvalidRelay(t) => "invalid relay preset: "@ + t@,
            ClientConfigError::DuplicateRelayId(t) => "duplicate relay id: "@ + t@,
            ClientConfigError::UnknownSelectedRelay(t) => "selected relay does not exist: "@ + t@,
            ClientConfigError::InvalidSessionHealth(t) => "invalid session health config: "@ + t@,
            ClientConfigError::ConfigPathUnavailable => "Bundle config path is unavailable"@,
            ClientConfigError::InvalidDocument(t) => "invalid editable config document: "@ + t@,
            ClientConfigError::Io { operation, path, source } => "could not "@ + operation@ + " config at "@
                + path@ + ": "@ + source@,
        }
    }

    /// The error's text.
    pub fn message(&self) -> (s: String)
        ensures
            s@ == self.spec_message(),
    {
        let mut s = String::new();
        match self {
            ClientConfigError::InvalidToml(t) => {
                push_str(&mut s, "invalid TOML: ");
                push_str(&mut s, t.as_str());
            },
            ClientConfigError::InvalidTransport(t) => {
                push_str(&mut s, "invalid default transport: ");
                push_str(&mut s, t.as_str());
            },
            ClientConfigError::InvalidMode(t) => {
                push_str(&mut s, "invalid default mode: ");
                push_str(&mut s, t.as_str());
            },
            ClientConfigError::InvalidRelay(t) => {
                push_str(&mut s, "invalid relay preset: ");
                push_str(&mut s, t.as_str());
            },
            ClientConfigError::DuplicateRelayId(t) => {
                push_str(&mut s, "duplicate relay id: ");
                push_str(&mut s, t.as_str());
            },
            ClientConfigError::UnknownSelectedRelay(t) => {
                push_str(&mut s, "selected relay does not exist: ");
                push_str(&mut s, t.as_str());
            },
            ClientConfigError::InvalidSessionHealth(t) => {
                push_str(&mut s, "invalid session health config: ");
                push_str(&mut s, t.as_str());
            },
            ClientConfigError::ConfigPathUnavailable => {
                push_str(&mut s, "Bundle config path is unavailable");
            },
            ClientConfigError::InvalidDocument(t) => {
                push_str(&mut s, "invalid editable config document: ");
                push_str(&mut s, t.as_str());
            },
            ClientConfigError::Io { operation, path, source } => {
                push_str(&mut s, "could not ");
                push_str(&mut s, operation.as_str());
                push_str(&mut s, " config at ");
                push_str(&mut s, path.as_str());
                push_str(&mut s, ": ");
                push_str(&mut s, source.as_str());
            },
        }
        s
    }
}

/// A relay the player can pick.
#[derive(Clone, Debug, PartialEq, Eq)]
pub struct RelayPreset {
    pub id: String,
    pub name: String,
    pub endpoint: RelayEndpoint,
    pub supports_udp: bool,
    pub supports_tcp: bool,
    pub default_transport: Option<TransportChoice>,
}

/// A preset as values: id, name, host, port, UDP, TCP, default transport.
pub type PresetView = (Seq<char>, Seq<char>, Seq<char>, u16, bool, bool, Option<TransportChoice>);

impl View for RelayPreset {
    type V = PresetView;

    open spec fn view(&self) -> PresetView {
        (self.id@, self.name@, self.endpoint.host@, self.endpoint.port, self.supports_udp, self.supports_tcp, self.default_transport)
    }
}

pub open spec fn spec_supports(p: PresetView, t: TransportChoice) -> bool {
    match t {
        TransportChoice::Udp => p.4,
        TransportChoice::Tcp => p.5,
    }
}

/// The first rule a preset breaks, as its message.
pub open spec fn spec_preset_error(p: PresetView) -> Option<Seq<char>> {
    if spec_trim(p.0).len() == 0 {
        Some("relay id is required"@)
    } else if spec_trim(p.1).len() == 0 {
        Some("relay "@ + p.0 + " name is required"@)
    } else if spec_relay_validate(p.2, p.3) is Err {
        Some(p.0 + ": "@ + spec_relay_validate(p.2, p.3)->Err_0.spec_message())
    } else if !p.4 && !p.5 {
        Some(p.0 + " must support UDP or TCP"@)
    } else if p.6 matches Some(t) && !spec_supports(p, t) {
        Some(p.0 + " default transport is not supported"@)
    } else {
        None
    }
}

impl RelayPreset {
    /// Whether the relay accepts `transport`.
    pub fn supports(&self, transport: TransportChoice) -> (r: bool)
        ensures
            r == spec_supports(self@, transport),
    {
        match transport {
            TransportChoice::Udp => self.supports_udp,
            TransportChoice::Tcp => self.supports_tcp,
        }
    }

    /// The preset's own default when it is supported, else `fallback` when it
    /// is, else TCP when supported, else UDP.
    pub fn preferred_transport(&self, fallback: TransportChoice) -> (t: TransportChoice)
        ensures
            t == (if self.default_transport matches Some(d) && spec_supports(self@, d) {
                self.default_transport->Some_0
            } else if spec_supports(self@, fallback) {
                fallback
            } else if self.supports_tcp {
                TransportChoice::Tcp
            } else {
                TransportChoice::Udp
            }),
    {
        if let Some(transport) = self.default_transport {
            if self.supports(transport) {
                return transport;
            }
        }
        if self.supports(fallback) {
            return fallback;
        }
        if self.supports_tcp {
            TransportChoice::Tcp
        } else {
            TransportChoice::Udp
        }
    }

    /// `name (host:port)`.
    pub fn label(&self) -> (s: String)
        ensures
            s@ == self.name@ + " ("@ + spec_endpoint_text(self.endpoint.host@, self.endpoint.port) + ")"@,
    {
        let mut s = String::new();
        push_str(&mut s, self.name.as_str());
        push_str(&mut s, " (");
        let endpoint = self.endpoint.display_text();
        push_str(&mut s, endpoint.as_str());
        push_str(&mut s, ")");
        s
    }

    /// A preset needs an id, a name, a valid endpoint, some transport, and a
    /// supported default transport.
    pub fn validate(&self) -> (r: Result<(), ClientConfigError>)
        ensures
            match spec_preset_error(self@) {
                None => r is Ok,
                Some(m) => r matches Err(ClientConfigError::InvalidRelay(t)) && t@ == m,
            },
    {
        let id = trim(self.id.as_str());
        if id.as_str().is_empty() {
            proof {
                reveal_strlit("relay id is required");
            }
            return Err(ClientConfigError::InvalidRelay(String::from_str("relay id is required")));
        }
        let name = trim(self.name.as_str());
        if name.as_str().is_empty() {
            let mut t = String::new();
            push_str(&mut t, "relay ");
            push_str(&mut t, self.id.as_str());
            push_str(&mut t, " name is required");
            return Err(ClientConfigError::InvalidRelay(t));
        }
        match self.endpoint.validate() {
            Err(e) => {
                let mut t = String::new();
                push_str(&mut t, self.id.as_str());
                push_str(&mut t, ": ");
                push_str(&mut t, e.message());
                return Err(ClientConfigError::InvalidRelay(t));
            },
            Ok(()) => {},
        }
        if !self.supports_udp && !self.supports_tcp {
            let mut t = String::new();
            push_str(&mut t, self.id.as_str());
            push_str(&mut t, " must support UDP or TCP");
            return Err(ClientConfigError::InvalidRelay(t));
        }
        if let Some(transport) = self.default_transport {
            if !self.supports(transport) {
                let mut t = String::new();
                push_str(&mut t, self.id.as_str());
                push_str(&mut t, " default transport is not supported");
                return Err(ClientConfigError::InvalidRelay(t));
            }
        }
        Ok(())
    }
}

/// The client's configuration.
#[derive(Clone, Debug, PartialEq, Eq)]
pub struct ClientConfig {
    pub default_transport: TransportChoice,
    pub default_mode: SessionMode,
    pub selected_relay: Option<String>,
    pub selected_steam_id64: Option<String>,
    pub relays: Vec<RelayPreset>,
    pub session_health: SessionHealthConfig,
}

/// The presets as values.
pub open spec fn preset_views(relays: Seq<RelayPreset>) -> Seq<PresetView> {
    Seq::new(relays.len(), |i: int| relays[i]@)
}

/// Whether some preset has `id`.
pub open spec fn spec_has_relay(relays: Seq<PresetView>, id: Seq<char>) -> bool {
    exists|i: int| 0 <= i < relays.len() && (#[trigger] relays[i]).0 == id
}

/// The kinds of configuration error, for contracts.
#[derive(Clone, Copy, Debug, PartialEq, Eq, Structural)]
pub enum ConfigErrorKind {
    InvalidTransport,
    InvalidMode,
    InvalidRelay,
    DuplicateRelayId,
    UnknownSelectedRelay,
    InvalidSessionHealth,
}

/// `e` is the error of `kind` with text `text`.
pub open spec fn spec_error_is(e: ClientConfigError, kind: ConfigErrorKind, text: Seq<char>) -> bool {
    match e {
        ClientConfigError::InvalidTransport(t) => kind == ConfigErrorKind::InvalidTransport && t@ == text,
        ClientConfigError::InvalidMode(t) => kind == ConfigErrorKind::InvalidMode && t@ == text,
        ClientConfigError::InvalidRelay(t) => kind == ConfigErrorKind::InvalidRelay && t@ == text,
        ClientConfigError::DuplicateRelayId(t) => kind == ConfigErrorKind::DuplicateRelayId && t@ == text,
        ClientConfigError::UnknownSelectedRelay(t) => kind == ConfigErrorKind::UnknownSelectedRelay && t@ == text,
        ClientConfigError::InvalidSessionHealth(t) => kind == ConfigErrorKind::InvalidSessionHealth && t@ == text,
        _ => false,
    }
}

/// The first rule broken by the first `n` presets: each preset's own rules,
/// then an id that an earlier preset already has.
pub open spec fn spec_relays_error(relays: Seq<PresetView>, n: int) -> Option<(ConfigErrorKind, Seq<char>)>
    decreases n,
{
    if n <= 0 {
        None
    } else {
        match spec_relays_error(relays, n - 1) {
            Some(e) => Some(e),
            None => {
                let p = relays[n - 1];
                match spec_preset_error(p) {
                    Some(m) => Some((ConfigErrorKind::InvalidRelay, m)),
                    None => if spec_has_relay(relays.take(n - 1), p.0) {
                        Some((ConfigErrorKind::DuplicateRelayId, p.0))
                    } else {
                        None
                    },
                }
            },
        }
    }
}

/// Once the presets break a rule, later presets do not change which.
proof fn lemma_relays_error_stays(relays: Seq<PresetView>, k: int, n: int)
    requires
        0 <= k <= n,
        spec_relays_error(relays, k) is Some,
    ensures
        spec_relays_error(relays, n) == spec_relays_error(relays, k),
    decreases n - k,
{
    if n > k {
        lemma_relays_error_stays(relays, k, n - 1);
    }
}

/// The first rule a configuration breaks: the presets, then the selected
/// relay, then the session-health settings.
pub open spec fn spec_config_error(
    relays: Seq<PresetView>,
    selected_relay: Option<Seq<char>>,
    health: SessionHealthConfig,
) -> Option<(ConfigErrorKind, Seq<char>)> {
    match spec_relays_error(relays, relays.len() as int) {
        Some(e) => Some(e),
        None => match selected_relay {
            Some(s) if !spec_has_relay(relays, s) => Some((ConfigErrorKind::UnknownSelectedRelay, s)),
            _ => match crate::session_config::spec_health_error(health) {
                Some(m) => Some((ConfigErrorKind::InvalidSessionHealth, m)),
                None => None,
            },
        },
    }
}

/// The selected relay's text, if any.
pub open spec fn opt_chars(s: Option<String>) -> Option<Seq<char>> {
    match s {
        Some(t) => Some(t@),
        None => None,
    }
}

/// Whether the first `n` presets have an id equal to `id`.
fn relay_position(relays: &Vec<RelayPreset>, n: usize, id: &str) -> (r: Option<usize>)
    requires
        n <= relays@.len(),
    ensures
        r is Some <==> spec_has_relay(preset_views(relays@).take(n as int), id@),
        r matches Some(i) ==> i < n && relays@[i as int].id@ == id@ && forall|j: int| 0 <= j < i ==> relays@[j].id@ != id@,
{
    let mut i: usize = 0;
    while i < n
        invariant
            n <= relays@.len(),
            i <= n,
            forall|j: int| 0 <= j < i ==> relays@[j].id@ != id@,
        decreases n - i,
    {
        if crate::text::same_text(relays[i].id.as_str(), id) {
            proof {
                let v = preset_views(relays@).take(n as int);
                assert(v[i as int].0 == id@);
            }
            return Some(i);
        }
        i = i + 1;
    }
    proof {
        let v = preset_views(relays@).take(n as int);
        assert forall|k: int| 0 <= k < v.len() implies (#[trigger] v[k]).0 != id@ by {
            assert(v[k] == relays@[k]@);
        }
    }
    None
}

impl ClientConfig {
    /// The position of the selected relay among the presets.
    pub fn selected_relay_index(&self) -> (r: Option<usize>)
        ensures
            match self.selected_relay {
                None => r is None,
                Some(s) => {
                    &&& (r is Some <==> spec_has_relay(preset_views(self.relays@), s@))
                    &&& r matches Some(i) ==> i < self.relays@.len() && self.relays@[i as int].id@ == s@
                        && forall|j: int| 0 <= j < i ==> self.relays@[j].id@ != s@
                },
            },
    {
        match &self.selected_relay {
            None => None,
            Some(selected) => {
                proof {
                    assert(preset_views(self.relays@).take(self.relays@.len() as int) == preset_views(self.relays@));
                }
                relay_position(&self.relays, self.relays.len(), selected.as_str())
            },
        }
    }

    /// Checks every preset, that preset ids are distinct, that the selected
    /// relay exists, and the session-health settings.
    pub fn validate(&self) -> (r: Result<(), ClientConfigError>)
        ensures
            match spec_config_error(preset_views(self.relays@), opt_chars(self.selected_relay), self.session_health) {
                None => r is Ok,
                Some((kind, text)) => r matches Err(e) && spec_error_is(e, kind, text),
            },
    {
        let ghost views = preset_views(self.relays@);
        let mut i: usize = 0;
        while i < self.relays.len()
            invariant
                i <= self.relays@.len(),
                views == preset_views(self.relays@),
                spec_relays_error(views, i as int) is None,
            decreases self.relays@.len() - i,
        {
            match self.relays[i].validate() {
                Err(e) => {
                    proof {
                        assert(views[i as int] == self.relays@[i as int]@);
                        lemma_relays_error_stays(views, i + 1, views.len() as int);
                    }
                    return Err(e);
                },
                Ok(()) => {},
            }
            match relay_position(&self.relays, i, self.relays[i].id.as_str()) {
                Some(_) => {
                    proof {
                        assert(views[i as int] == self.relays@[i as int]@);
                        assert(preset_views(self.relays@).take(i as int) =~= views.take(i as int));
                        lemma_relays_error_stays(views, i + 1, views.len() as int);
                    }
                    return Err(ClientConfigError::DuplicateRelayId(String::from_str(self.relays[i].id.as_str())));
                },
                None => {
                    proof {
                        assert(views[i as int] == self.relays@[i as int]@);
                        assert(preset_views(self.relays@).take(i as int) =~= views.take(i as int));
                    }
                },
            }
            i = i + 1;
        }
        match &self.selected_relay {
            Some(selected) => {
                proof {
                    assert(views.take(self.relays@.len() as int) == views);
                }
                if relay_position(&self.relays, self.relays.len(), selected.as_str()).is_none() {
                    return Err(ClientConfigError::UnknownSelectedRelay(String::from_str(selected.as_str())));
                }
            },
            None => {},
        }
        match self.session_health.validate() {
            Err(m) => Err(ClientConfigError::InvalidSessionHealth(String::from_str(m))),
            Ok(()) => Ok(()),
        }
    }
}

/// A configuration as read from the file, before any check.
#[derive(Clone, Debug, PartialEq, Eq)]
pub struct RawClientConfig {
    pub default_transport: Option<String>,
    pub default_mode: Option<String>,
    pub selected_relay: Option<String>,
    pub selected_steam_id64: Option<String>,
    pub session_health: Option<RawSessionHealthConfig>,
    pub relays: Vec<RawRelayPreset>,
}

#[derive(Clone, Copy, Debug, PartialEq, Eq, Structural)]
pub struct RawSessionHealthConfig {
    pub enabled: Option<bool>,
    pub runtime_rtt_enabled: Option<bool>,
    pub snapshot_interval_seconds: Option<u64>,
    pub runtime_rtt_interval_seconds: Option<u64>,
    pub runtime_rtt_timeout_seconds: Option<u64>,
}

#[derive(Clone, Debug, PartialEq, Eq)]
pub struct RawRelayPreset {
    pub id: String,
    pub name: String,
    pub host: String,
    pub port: u16,
    pub udp: bool,
    pub tcp: bool,
    pub default_transport: Option<String>,
}

/// Presets accept both transports unless the file says otherwise.
pub fn default_true() -> (b: bool)
    ensures
        b,
{
    true
}

/// A transport name, trimmed and read without regard to ASCII case.
pub open spec fn spec_parse_transport(value: Option<Seq<char>>) -> Result<Option<TransportChoice>, Seq<char>> {
    match value {
        None => Ok(None),
        Some(v) => {
            let t = spec_ascii_lowercase(spec_trim(v));
            if t == "udp"@ {
                Ok(Some(TransportChoice::Udp))
            } else if t == "tcp"@ {
                Ok(Some(TransportChoice::Tcp))
            } else {
                Err(t)
            }
        },
    }
}

/// A session mode name, trimmed and read without regard to ASCII case.
pub open spec fn spec_parse_mode(value: Option<Seq<char>>) -> Result<Option<SessionMode>, Seq<char>> {
    match value {
        None => Ok(None),
        Some(v) => {
            let t = spec_ascii_lowercase(spec_trim(v));
            if t == "official"@ {
                Ok(Some(SessionMode::Official))
            } else if t == "fallback"@ {
                Ok(Some(SessionMode::Fallback))
            } else if t == "pure"@ {
                Ok(Some(SessionMode::Pure))
            } else {
                Err(t)
            }
        },
    }
}

pub fn parse_transport(value: Option<&str>) -> (r: Result<Option<TransportChoice>, ClientConfigError>)
    ensures
        match spec_parse_transport(match value { Some(v) => Some(v@), None => None }) {
            Ok(t) => r == Ok::<Option<TransportChoice>, ClientConfigError>(t),
            Err(text) => r matches Err(e) && spec_error_is(e, ConfigErrorKind::InvalidTransport, text),
        },
{
    match value {
        None => Ok(None),
        Some(v) => {
            let trimmed = trim(v);
            let t = to_ascii_lowercase(trimmed.as_str());
            proof {
                reveal_strlit("udp");
                reveal_strlit("tcp");
            }
            if crate::text::same_text(t.as_str(), "udp") {
                Ok(Some(TransportChoice::Udp))
            } else if crate::text::same_text(t.as_str(), "tcp") {
                Ok(Some(TransportChoice::Tcp))
            } else {
                Err(ClientConfigError::InvalidTransport(t))
            }
        },
    }
}

pub fn parse_mode(value: Option<&str>) -> (r: Result<Option<SessionMode>, ClientConfigError>)
    ensures
        match spec_parse_mode(match value { Some(v) => Some(v@), None => None }) {
            Ok(m) => r == Ok::<Option<SessionMode>, ClientConfigError>(m),
            Err(text) => r matches Err(e) && spec_error_is(e, ConfigErrorKind::InvalidMode, text),
        },
{
    match value {
        None => Ok(None),
        Some(v) => {
            let trimmed = trim(v);
            let t = to_ascii_lowercase(trimmed.as_str());
            proof {
                reveal_strlit("official");
                reveal_strlit("fallback");
                reveal_strlit("pure");
            }
            if crate::text::same_text(t.as_str(), "official") {
                Ok(Some(SessionMode::Official))
            } else if crate::text::same_text(t.as_str(), "fallback") {
                Ok(Some(SessionMode::Fallback))
            } else if crate::text::same_text(t.as_str(), "pure") {
                Ok(Some(SessionMode::Pure))
            } else {
                Err(ClientConfigError::InvalidMode(t))
            }
        },
    }
}

/// The trimmed text, or nothing when it is blank.
pub open spec fn spec_trimmed_non_empty(value: Option<Seq<char>>) -> Option<Seq<char>> {
    match value {
        Some(v) => if spec_trim(v).len() == 0 { None } else { Some(spec_trim(v)) },
        None => None,
    }
}

pub fn trimmed_non_empty(value: &Option<String>) -> (r: Option<String>)
    ensures
        opt_chars(r) == spec_trimmed_non_empty(opt_chars(*value)),
{
    match value {
        Some(v) => {
            let t = trim(v.as_str());
            if t.as_str().is_empty() {
                None
            } else {
                Some(t)
            }
        },
        None => None,
    }
}

/// The settings of the file, each absent one taking its default.
pub open spec fn spec_health_from_raw(raw: RawSessionHealthConfig) -> SessionHealthConfig {
    SessionHealthConfig {
        enabled: match raw.enabled { Some(v) => v, None => true },
        runtime_rtt_enabled: match raw.runtime_rtt_enabled { Some(v) => v, None => true },
        snapshot_interval_seconds: match raw.snapshot_interval_seconds { Some(v) => v, None => 5 },
        runtime_rtt_interval_seconds: match raw.runtime_rtt_interval_seconds { Some(v) => v, None => 1 },
        runtime_rtt_timeout_seconds: match raw.runtime_rtt_timeout_seconds { Some(v) => v, None => 3 },
    }
}

pub fn health_from_raw(raw: Option<RawSessionHealthConfig>) -> (c: SessionHealthConfig)
    ensures
        c == match raw {
            Some(r) => spec_health_from_raw(r),
            None => SessionHealthConfig {
                enabled: true,
                runtime_rtt_enabled: true,
                snapshot_interval_seconds: 5,
                runtime_rtt_interval_seconds: 1,
                runtime_rtt_timeout_seconds: 3,
            },
        },
{
    let defaults = SessionHealthConfig::default_config();
    match raw {
        None => defaults,
        Some(r) => SessionHealthConfig {
            enabled: match r.enabled { Some(v) => v, None => defaults.enabled },
            runtime_rtt_enabled: match r.runtime_rtt_enabled { Some(v) => v, None => defaults.runtime_rtt_enabled },
            snapshot_interval_seconds: match r.snapshot_interval_seconds { Some(v) => v, None => defaults.snapshot_interval_seconds },
            runtime_rtt_interval_seconds: match r.runtime_rtt_interval_seconds { Some(v) => v, None => defaults.runtime_rtt_interval_seconds },
            runtime_rtt_timeout_seconds: match r.runtime_rtt_timeout_seconds { Some(v) => v, None => defaults.runtime_rtt_timeout_seconds },
        },
    }
}

/// A host without the brackets that may enclose an IPv6 address.
pub open spec fn spec_unbracket(host: Seq<char>) -> Seq<char> {
    if host.len() >= 2 && host[0] == '[' && host[host.len() - 1] == ']' {
        host.subrange(1, host.len() - 1)
    } else {
        host
    }
}

fn unbracket(host: &str) -> (r: String)
    ensures
        r@ == spec_unbracket(host@),
{
    let n = host.unicode_len();
    if n >= 2 && host.get_char(0) == '[' && host.get_char(n - 1) == ']' {
        String::from_str(host.substring_char(1, n - 1))
    } else {
        String::from_str(host)
    }
}

/// A preset read from the file: its texts trimmed (an IPv6 host without its
/// brackets) and its default transport parsed.
pub fn preset_from_raw(raw: &RawRelayPreset) -> (r: Result<RelayPreset, ClientConfigError>)
    ensures
        match spec_parse_transport(opt_chars(raw.default_transport)) {
            Err(text) => r matches Err(e) && spec_error_is(e, ConfigErrorKind::InvalidTransport, text),
            Ok(t) => r matches Ok(p) && p@ == (spec_trim(raw.id@), spec_trim(raw.name@), spec_unbracket(spec_trim(raw.host@)), raw.port, raw.udp, raw.tcp, t),
        },
{
    let default_transport = match &raw.default_transport {
        Some(t) => parse_transport(Some(t.as_str())),
        None => parse_transport(None),
    };
    let default_transport = match default_transport {
        Ok(t) => t,
        Err(e) => return Err(e),
    };
    let trimmed_host = trim(raw.host.as_str());
    let host = unbracket(trimmed_host.as_str());
    Ok(RelayPreset {
        id: trim(raw.id.as_str()),
        name: trim(raw.name.as_str()),
        endpoint: RelayEndpoint::new(host.as_str(), raw.port),
        supports_udp: raw.udp,
        supports_tcp: raw.tcp,
        default_transport,
    })
}


/// The presets read from the file, or the first unreadable default transport.
pub open spec fn spec_presets_from_raw(raws: Seq<RawRelayPreset>, n: int) -> Result<Seq<PresetView>, Seq<char>>
    decreases n,
{
    if n <= 0 {
        Ok(Seq::empty())
    } else {
        match spec_presets_from_raw(raws, n - 1) {
            Err(t) => Err(t),
            Ok(done) => {
                let raw = raws[n - 1];
                match spec_parse_transport(opt_chars(raw.default_transport)) {
                    Err(t) => Err(t),
                    Ok(t) => Ok(done.push((spec_trim(raw.id@), spec_trim(raw.name@), spec_unbracket(spec_trim(raw.host@)), raw.port, raw.udp, raw.tcp, t))),
                }
            },
        }
    }
}

proof fn lemma_presets_error_stays(raws: Seq<RawRelayPreset>, k: int, n: int)
    requires
        0 <= k <= n,
        spec_presets_from_raw(raws, k) is Err,
    ensures
        spec_presets_from_raw(raws, n) == spec_presets_from_raw(raws, k),
    decreases n - k,
{
    if n > k {
        lemma_presets_error_stays(raws, k, n - 1);
    }
}

/// A configuration as values: transport, mode, selected relay and Steam
/// id, presets, session health.
pub open spec fn spec_config_view(c: ClientConfig) -> (TransportChoice, SessionMode, Option<Seq<char>>, Option<Seq<char>>, Seq<PresetView>, SessionHealthConfig) {
    (c.default_transport, c.default_mode, opt_chars(c.selected_relay), opt_chars(c.selected_steam_id64), preset_views(c.relays@), c.session_health)
}

/// What a raw configuration becomes: the first unreadable value or broken
/// rule, or the checked configuration.
pub open spec fn spec_from_raw(raw: RawClientConfig) -> Result<(TransportChoice, SessionMode, Option<Seq<char>>, Option<Seq<char>>, Seq<PresetView>, SessionHealthConfig), (ConfigErrorKind, Seq<char>)> {
    match spec_parse_transport(opt_chars(raw.default_transport)) {
        Err(t) => Err((ConfigErrorKind::InvalidTransport, t)),
        Ok(transport) => match spec_parse_mode(opt_chars(raw.default_mode)) {
            Err(t) => Err((ConfigErrorKind::InvalidMode, t)),
            Ok(mode) => match spec_presets_from_raw(raw.relays@, raw.relays@.len() as int) {
                Err(t) => Err((ConfigErrorKind::InvalidTransport, t)),
                Ok(presets) => {
                    let selected = spec_trimmed_non_empty(opt_chars(raw.selected_relay));
                    let health = match raw.session_health {
                        Some(h) => spec_health_from_raw(h),
                        None => spec_health_from_raw(RawSessionHealthConfig {
                            enabled: None,
                            runtime_rtt_enabled: None,
                            snapshot_interval_seconds: None,
                            runtime_rtt_interval_seconds: None,
                            runtime_rtt_timeout_seconds: None,
                        }),
                    };
                    match spec_config_error(presets, selected, health) {
                        Some(e) => Err(e),
                        None => Ok((
                            match transport { Some(t) => t, None => TransportChoice::Tcp },
                            match mode { Some(m) => m, None => SessionMode::Pure },
                            selected,
                            spec_trimmed_non_empty(opt_chars(raw.selected_steam_id64)),
                            presets,
                            health,
                        )),
                    }
                },
            },
        },
    }
}

/// TCP, Pure mode, nothing selected, no presets, default health settings.
pub open spec fn spec_is_default_config(c: ClientConfig) -> bool {
    &&& c.default_transport == TransportChoice::Tcp
    &&& c.default_mode == SessionMode::Pure
    &&& c.selected_relay is None
    &&& c.selected_steam_id64 is None
    &&& c.relays@.len() == 0
    &&& c.session_health == spec_health_from_raw(RawSessionHealthConfig {
        enabled: None,
        runtime_rtt_enabled: None,
        snapshot_interval_seconds: None,
        runtime_rtt_interval_seconds: None,
        runtime_rtt_timeout_seconds: None,
    })
}

impl ClientConfig {
    /// TCP, Pure mode, nothing selected, no presets, default health settings.
    pub fn default_config() -> (c: ClientConfig)
        ensures
            spec_is_default_config(c),
    {
        ClientConfig {
            default_transport: TransportChoice::default_choice(),
            default_mode: SessionMode::Pure,
            selected_relay: None,
            selected_steam_id64: None,
            relays: Vec::new(),
            session_health: SessionHealthConfig::default_config(),
        }
    }

    /// Reads a raw configuration: values are trimmed and parsed, absent ones
    /// take their defaults, and the result is checked.
    pub fn from_raw(raw: &RawClientConfig) -> (r: Result<ClientConfig, ClientConfigError>)
        ensures
            match spec_from_raw(*raw) {
                Ok(v) => r matches Ok(c) && spec_config_view(c) == v,
                Err((kind, text)) => r matches Err(e) && spec_error_is(e, kind, text),
            },
    {
        let transport = match &raw.default_transport {
            Some(t) => parse_transport(Some(t.as_str())),
            None => parse_transport(None),
        };
        let transport = match transport {
            Ok(t) => t,
            Err(e) => return Err(e),
        };
        let mode = match &raw.default_mode {
            Some(m) => parse_mode(Some(m.as_str())),
            None => parse_mode(None),
        };
        let mode = match mode {
            Ok(m) => m,
            Err(e) => return Err(e),
        };
        let mut relays: Vec<RelayPreset> = Vec::new();
        let mut i: usize = 0;
        proof {
            assert(preset_views(relays@) =~= Seq::<PresetView>::empty());
        }
        while i < raw.relays.len()
            invariant
                i <= raw.relays@.len(),
                spec_parse_transport(opt_chars(raw.default_transport)) == Ok::<Option<TransportChoice>, Seq<char>>(transport),
                spec_parse_mode(opt_chars(raw.default_mode)) == Ok::<Option<SessionMode>, Seq<char>>(mode),
                spec_presets_from_raw(raw.relays@, i as int) == Ok::<Seq<PresetView>, Seq<char>>(preset_views(relays@)),
            decreases raw.relays@.len() - i,
        {
            match preset_from_raw(&raw.relays[i]) {
                Ok(p) => {
                    let ghost before = relays@;
                    relays.push(p);
                    proof {
                        assert(preset_views(relays@) =~= preset_views(before).push(p@));
                    }
                },
                Err(e) => {
                    proof {
                        lemma_presets_error_stays(raw.relays@, i + 1, raw.relays@.len() as int);
                    }
                    return Err(e);
                },
            }
            i = i + 1;
        }
        let config = ClientConfig {
            default_transport: match transport {
                Some(t) => t,
                None => TransportChoice::Tcp,
            },
            default_mode: match mode {
                Some(m) => m,
                None => SessionMode::Pure,
            },
            selected_relay: trimmed_non_empty(&raw.selected_relay),
            selected_steam_id64: trimmed_non_empty(&raw.selected_steam_id64),
            relays,
            session_health: health_from_raw(raw.session_health),
        };
        match config.validate() {
            Err(e) => Err(e),
            Ok(()) => Ok(config),
        }
    }
}

/// A loaded configuration, where it came from, and what went wrong.
#[derive(Debug)]
pub struct LoadedClientConfig {
    pub config: ClientConfig,
    pub source: Option<String>,
    pub warnings: Vec<String>,
}

/// The configuration to run with: the defaults when the config path is
/// unknown (with a warning) or the file is absent; the file's configuration
/// when it is valid; the defaults with a warning naming the file otherwise.
/// `parsed` is `None` when the file does not exist.
pub fn loaded_client_config(path: Option<&str>, parsed: Option<Result<ClientConfig, ClientConfigError>>) -> (l: LoadedClientConfig)
    ensures
        !(path is Some && parsed matches Some(Ok(_))) ==> spec_is_default_config(l.config),
        match path {
            None => {
                &&& l.source is None
                &&& l.warnings@.len() == 1 && l.warnings@[0]@ == "Bundle config path is unavailable"@
                &&& l.config.relays@.len() == 0 && l.config.selected_relay is None
            },
            Some(p) => match parsed {
                None => l.source is None && l.warnings@.len() == 0 && l.config.relays@.len() == 0,
                Some(Ok(c)) => l.source matches Some(s) && s@ == p@ && l.warnings@.len() == 0 && l.config == c,
                Some(Err(e)) => {
                    &&& l.source matches Some(s) && s@ == p@
                    &&& l.warnings@.len() == 1
                    &&& l.warnings@[0]@ == "Invalid config at "@ + p@ + ": "@ + e.spec_message()
                    &&& l.config.relays@.len() == 0 && l.config.selected_relay is None
                },
            },
        },
{
    let mut warnings: Vec<String> = Vec::new();
    match path {
        None => {
            proof {
                reveal_strlit("Bundle config path is unavailable");
            }
            warnings.push(String::from_str("Bundle config path is unavailable"));
            LoadedClientConfig { config: ClientConfig::default_config(), source: None, warnings }
        },
        Some(p) => match parsed {
            None => LoadedClientConfig { config: ClientConfig::default_config(), source: None, warnings },
            Some(Ok(c)) => LoadedClientConfig { config: c, source: Some(String::from_str(p)), warnings },
            Some(Err(e)) => {
                let mut w = String::new();
                push_str(&mut w, "Invalid config at ");
                push_str(&mut w, p);
                push_str(&mut w, ": ");
                let m = e.message();
                push_str(&mut w, m.as_str());
                warnings.push(w);
                LoadedClientConfig { config: ClientConfig::default_config(), source: Some(String::from_str(p)), warnings }
            },
        },
    }
}

/// What the player picked, to be written back to the file.
#[derive(Clone, Debug, PartialEq, Eq)]
pub struct ClientConfigSelection {
    pub selected_relay: Option<String>,
    pub selected_steam_id64: Option<String>,
}


#[verifier::external_type_specification]
#[verifier::external_body]
pub struct ExTomlDocument(toml_edit::DocumentMut);

/// What a TOML document holds: every item, key and value with the
/// formatting kept with them (comments, spacing, order), written out as
/// characters. Documents that hold the same things give the same sequence;
/// only the hash-table state that does not change what a document holds is
/// left out.
pub uninterp spec fn spec_toml_contents(doc: toml_edit::DocumentMut) -> Seq<char>;

/// What parsing `text` as a TOML document gives: what the document holds,
/// or the text of the parse error.
pub uninterp spec fn spec_toml_parse(text: Seq<char>) -> Result<Seq<char>, Seq<char>>;

/// What a document holding `contents` holds once its top-level `key` is set
/// to the string `value`.
pub uninterp spec fn spec_toml_set(contents: Seq<char>, key: Seq<char>, value: Seq<char>) -> Seq<char>;

/// What a document holding `contents` holds once its top-level `key` is
/// removed.
pub uninterp spec fn spec_toml_remove(contents: Seq<char>, key: Seq<char>) -> Seq<char>;

/// The text `toml_edit` renders a document holding `contents` as.
pub uninterp spec fn spec_toml_render(contents: Seq<char>) -> Seq<char>;

/// The string values at the top level of a document holding `contents`, by
/// key.
pub uninterp spec fn spec_toml_strings(contents: Seq<char>) -> Map<Seq<char>, Seq<char>>;

/// Calls `text.parse::<toml_edit::DocumentMut>()`: the document, or the
/// text of its parse error. What the document holds depends on `text` alone.
#[verifier::external_body]
fn toml_parse(text: &str) -> (r: Result<toml_edit::DocumentMut, String>)
    ensures
        match r {
            Ok(doc) => spec_toml_parse(text@) == Ok::<Seq<char>, Seq<char>>(spec_toml_contents(doc)),
            Err(e) => spec_toml_parse(text@) == Err::<Seq<char>, Seq<char>>(e@),
        },
{
    text.parse::<toml_edit::DocumentMut>().map_err(|error| error.to_string())
}

/// Calls `doc[key] = toml_edit::value(value)`: the top-level `key` now holds
/// the string `value`; the other top-level string values stay. What the
/// document then holds depends on what it held, `key` and `value` alone.
#[verifier::external_body]
fn toml_set_string(doc: &mut toml_edit::DocumentMut, key: &str, value: &str)
    ensures
        spec_toml_contents(*final(doc)) == spec_toml_set(spec_toml_contents(*old(doc)), key@, value@),
        spec_toml_strings(spec_toml_contents(*final(doc))) == spec_toml_strings(spec_toml_contents(*old(doc))).insert(key@, value@),
{
    doc[key] = toml_edit::value(value);
}

/// Calls `Table::remove` on the document's top level: `key` is gone; the
/// other top-level string values stay. What the document then holds depends
/// on what it held and `key` alone.
#[verifier::external_body]
fn toml_remove(doc: &mut toml_edit::DocumentMut, key: &str)
    ensures
        spec_toml_contents(*final(doc)) == spec_toml_remove(spec_toml_contents(*old(doc)), key@),
        spec_toml_strings(spec_toml_contents(*final(doc))) == spec_toml_strings(spec_toml_contents(*old(doc))).remove(key@),
{
    doc.remove(key);
}

/// Calls `doc.to_string()`: the document's text, which depends on what the
/// document holds alone.
#[verifier::external_body]
fn toml_render(doc: &toml_edit::DocumentMut) -> (text: String)
    ensures
        text@ == spec_toml_render(spec_toml_contents(*doc)),
{
    doc.to_string()
}

/// `strings` with `key` set to `value`, or removed when `value` is none.
pub open spec fn spec_set_or_remove(strings: Map<Seq<char>, Seq<char>>, key: Seq<char>, value: Option<Seq<char>>) -> Map<Seq<char>, Seq<char>> {
    match value {
        Some(v) => strings.insert(key, v),
        None => strings.remove(key),
    }
}

/// What a document holding `contents` holds once `key` is set to `value`,
/// or removed when `value` is none.
pub open spec fn spec_contents_set_or_remove(contents: Seq<char>, key: Seq<char>, value: Option<Seq<char>>) -> Seq<char> {
    match value {
        Some(v) => spec_toml_set(contents, key, v),
        None => spec_toml_remove(contents, key),
    }
}

/// What a document holding `contents` holds once the selection is written:
/// `selected_relay`, then `selected_steam_id64`, each set to its trimmed
/// value or removed when the value is absent or blank.
pub open spec fn spec_selection_contents(contents: Seq<char>, selection: ClientConfigSelection) -> Seq<char> {
    spec_contents_set_or_remove(
        spec_contents_set_or_remove(contents, "selected_relay"@, spec_trimmed_non_empty(opt_chars(selection.selected_relay))),
        "selected_steam_id64"@,
        spec_trimmed_non_empty(opt_chars(selection.selected_steam_id64)),
    )
}

/// The top-level strings after a selection is written.
pub open spec fn spec_selection_strings(strings: Map<Seq<char>, Seq<char>>, selection: ClientConfigSelection) -> Map<Seq<char>, Seq<char>> {
    spec_set_or_remove(
        spec_set_or_remove(strings, "selected_relay"@, spec_trimmed_non_empty(opt_chars(selection.selected_relay))),
        "selected_steam_id64"@,
        spec_trimmed_non_empty(opt_chars(selection.selected_steam_id64)),
    )
}

/// Writes one optional value: set when it is present and not blank
/// (trimmed), removed otherwise.
fn set_optional_key(doc: &mut toml_edit::DocumentMut, key: &str, value: &Option<String>)
    ensures
        spec_toml_contents(*final(doc)) == spec_contents_set_or_remove(
            spec_toml_contents(*old(doc)), key@, spec_trimmed_non_empty(opt_chars(*value))),
        spec_toml_strings(spec_toml_contents(*final(doc))) == spec_set_or_remove(
            spec_toml_strings(spec_toml_contents(*old(doc))), key@, spec_trimmed_non_empty(opt_chars(*value))),
{
    match trimmed_non_empty(value) {
        Some(v) => toml_set_string(doc, key, v.as_str()),
        None => toml_remove(doc, key),
    }
}

/// The configuration text `existing` with the selection written into it:
/// the document parsed from `existing`, with `selected_relay` and
/// `selected_steam_id64` set to the trimmed values (or removed when absent or
/// blank), rendered again; everything else the document holds (comments,
/// tables, other keys) goes through unchanged, and its top-level strings are
/// those of `existing` with the selection applied. Text that is not a TOML
/// document is refused with its parse error.
pub fn config_text_with_selection(existing: &str, selection: &ClientConfigSelection) -> (r: Result<String, ClientConfigError>)
    ensures
        match spec_toml_parse(existing@) {
            Err(e) => r matches Err(ClientConfigError::InvalidDocument(m)) && m@ == e,
            Ok(contents) => r matches Ok(s)
                && s@ == spec_toml_render(spec_selection_contents(contents, *selection))
                && spec_toml_strings(spec_selection_contents(contents, *selection))
                    == spec_selection_strings(spec_toml_strings(contents), *selection),
        },
{
    let mut doc = match toml_parse(existing) {
        Ok(doc) => doc,
        Err(e) => return Err(ClientConfigError::InvalidDocument(e)),
    };
    proof {
        reveal_strlit("selected_relay");
        reveal_strlit("selected_steam_id64");
    }
    set_optional_key(&mut doc, "selected_relay", &selection.selected_relay);
    set_optional_key(&mut doc, "selected_steam_id64", &selection.selected_steam_id64);
    Ok(toml_render(&doc))
}

} // verus!
