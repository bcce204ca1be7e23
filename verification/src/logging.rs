//! The structured fields that accompany every client log event.

use vstd::prelude::*;
use crate::session_config::{RelayEndpoint, SessionMode, TransportChoice, spec_endpoint_text, spec_transport_name};

verus! {

#[derive(Clone, Copy, Debug, PartialEq, Eq, Structural)]
pub enum LogLevel {
    Trace,
    Debug,
    Info,
    Warn,
    Error,
}

/// The session a log event belongs to.
#[derive(Clone, Debug, PartialEq, Eq)]
pub struct ClientSessionLogContext {
    pub route: ClientSessionLogRoute,
    pub mode: SessionMode,
}

#[derive(Clone, Debug, PartialEq, Eq)]
pub enum ClientSessionLogRoute {
    ExternalRelay { relay_name: Option<String>, relay: RelayEndpoint, transport: TransportChoice },
    LanDirect,
}

/// The fields of a log event; each is absent without a session, and the
/// relay ones are absent on the LAN Direct route.
#[derive(Debug)]
pub struct ClientLogFields {
    pub route: Option<&'static str>,
    pub relay_name: Option<String>,
    pub relay: Option<String>,
    pub transport: Option<&'static str>,
    pub mode: Option<&'static str>,
}

pub open spec fn spec_mode_name(mode: SessionMode) -> Seq<char> {
    match mode {
        SessionMode::Official => "Official"@,
        SessionMode::Fallback => "Fallback"@,
        SessionMode::Pure => "Pure"@,
    }
}

/// The text of an optional value, as characters.
pub open spec fn opt_text(v: Option<String>) -> Option<Seq<char>> {
    match v {
        Some(s) => Some(s@),
        None => None,
    }
}

pub open spec fn opt_str(v: Option<&'static str>) -> Option<Seq<char>> {
    match v {
        Some(s) => Some(s@),
        None => None,
    }
}

/// The fields of a log event in `context`.
pub fn client_log_fields(context: Option<&ClientSessionLogContext>) -> (f: ClientLogFields)
    ensures
        match context {
            None => f.route is None && f.relay_name is None && f.relay is None && f.transport is None && f.mode is None,
            Some(c) => {
                &&& opt_str(f.mode) == Some(spec_mode_name(c.mode))
                &&& match c.route {
                    ClientSessionLogRoute::ExternalRelay { relay_name, relay, transport } => {
                        &&& opt_str(f.route) == Some("external_relay"@)
                        &&& opt_text(f.relay_name) == opt_text(relay_name)
                        &&& opt_text(f.relay) == Some(spec_endpoint_text(relay.host@, relay.port))
                        &&& opt_str(f.transport) == Some(spec_transport_name(transport))
                    },
                    ClientSessionLogRoute::LanDirect => {
                        &&& opt_str(f.route) == Some("lan_direct"@)
                        &&& f.relay_name is None && f.relay is None && f.transport is None
                    },
                }
            },
        },
{
    proof {
        reveal_strlit("external_relay");
        reveal_strlit("lan_direct");
    }
    match context {
        None => ClientLogFields { route: None, relay_name: None, relay: None, transport: None, mode: None },
        Some(c) => {
            let mode = Some(c.mode.name());
            match &c.route {
                ClientSessionLogRoute::ExternalRelay { relay_name, relay, transport } => {
                    let name = match relay_name {
                        Some(n) => Some(String::from_str(n.as_str())),
                        None => None,
                    };
                    ClientLogFields {
                        route: Some("external_relay"),
                        relay_name: name,
                        relay: Some(relay.display_text()),
                        transport: Some(transport.name()),
                        mode,
                    }
                },
                ClientSessionLogRoute::LanDirect => ClientLogFields {
                    route: Some("lan_direct"),
                    relay_name: None,
                    relay: None,
                    transport: None,
                    mode,
                },
            }
        },
    }
}

} // verus!
