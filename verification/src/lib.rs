//! Verified core of the Tractor Beam bridge client: configuration checks,
//! session-health accounting, path-quality and smoothness assessment,
//! join-code payloads, proof-of-work and report formatting.

pub mod text;
pub mod build_info;
pub mod bridge_client;
pub mod runtime;
pub mod session_config;
pub mod latency;
pub mod delivery;
pub mod tally;
pub mod lan_data;
pub mod direct_health;
pub mod health_stats;
pub mod session_health;
pub mod room_path_quality;
pub mod smoothness;
pub mod digest;
pub mod pow;
pub mod base58;
pub mod utf8;
pub mod join_code;
pub mod record_reader;
pub mod hook_ipc;
pub mod hook_lifecycle;
pub mod upload;
pub mod probe;
pub mod input_delay;
pub mod logging;
pub mod client_config;
pub mod packet_flow;
pub mod lan_ledger;
pub mod direct_receive;
pub mod process_choice;
pub mod laws;
pub mod package;
pub mod observability;
pub mod direct_log;
pub mod lan_join_code;
pub mod light_ping;
pub mod hook_link;
pub mod relay_recovery;
pub mod lan_membership;
pub mod lan_adapter;
pub mod diagnostics;
pub mod lan_path;
pub mod lan_control;
pub mod process_wait;
pub mod process_lifecycle;
pub mod client_session;
pub mod relay_join;
