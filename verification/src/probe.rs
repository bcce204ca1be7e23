//! Reports of the relay, readiness, light-ping and hook probes: payload
//! rules, latency statistics and the texts they are logged as.

use vstd::prelude::*;
use crate::latency::{sorted_copy, sorted_u64};
use crate::session_config::{
    ConnectionProfile, RelayEndpoint, TransportChoice, spec_profile_transport, spec_transport_name,
};
use crate::text::{push_decimal, push_str, spec_decimal};

verus! {

/// The largest payload a relay probe may send.
pub const MAX_RELAY_PROBE_PAYLOAD_BYTES: usize = 60_000;
/// Samples sent per readiness case.
pub const READINESS_PROBE_SAMPLES_PER_CASE: u64 = 50;
/// Milliseconds a readiness sample may take.
pub const READINESS_SAMPLE_TIMEOUT_MILLIS: u64 = 750;
/// Pings sent by a light ping.
pub const LIGHT_PING_COUNT: u8 = 5;
/// Seconds a light ping may wait for a connection or an answer.
pub const LIGHT_PING_TIMEOUT_SECONDS: u64 = 2;
/// Milliseconds between light pings.
pub const LIGHT_PING_INTERVAL_MILLIS: u64 = 200;
pub const PROBE_A_STEAM: &'static str = "76561198000000101";
pub const PROBE_B_STEAM: &'static str = "76561198000000102";

/// The payload sizes of the readiness matrix.
pub fn readiness_probe_payload_bytes() -> (sizes: [usize; 3])
    ensures
        sizes@ == seq![512usize, 1024, 2048],
{
    [512, 1024, 2048]
}

/// The connection profiles of the readiness matrix, in probe order.
pub fn readiness_probe_connection_profiles() -> (profiles: [ConnectionProfile; 2])
    ensures
        profiles@ == seq![ConnectionProfile::Tcp, ConnectionProfile::Udp],
{
    ConnectionProfile::all()
}

/// Why a probe request was refused before any traffic.
#[derive(Clone, Debug, PartialEq, Eq)]
pub enum ProbeRequestError {
    /// The payload size is outside `1..=MAX_RELAY_PROBE_PAYLOAD_BYTES`.
    InvalidInput(String),
}

pub open spec fn spec_payload_message() -> Seq<char> {
    "relay probe payload must be 1..=60000 bytes"@
}

/// A probe payload must hold between 1 and `MAX_RELAY_PROBE_PAYLOAD_BYTES` bytes.
pub fn validate_probe_payload(payload_bytes: usize) -> (r: Result<(), ProbeRequestError>)
    ensures
        r is Ok <==> 1 <= payload_bytes <= MAX_RELAY_PROBE_PAYLOAD_BYTES,
        r matches Err(ProbeRequestError::InvalidInput(m)) ==> m@ == spec_payload_message(),
{
    if 1 <= payload_bytes && payload_bytes <= MAX_RELAY_PROBE_PAYLOAD_BYTES {
        Ok(())
    } else {
        proof {
            reveal_strlit("relay probe payload must be 1..=60000 bytes");
        }
        Err(ProbeRequestError::InvalidInput(String::from_str("relay probe payload must be 1..=60000 bytes")))
    }
}

/// The byte at `index` of a probe payload.
pub open spec fn spec_probe_byte(index: int) -> u8 {
    ((index * 31 + 17) % 256) as u8
}

/// A recognisable payload of `payload_bytes` bytes: byte `i` is `31 i + 17` modulo 256.
pub fn probe_payload(payload_bytes: usize) -> (p: Vec<u8>)
    ensures
        p@.len() == payload_bytes,
        forall|i: int| 0 <= i < payload_bytes ==> #[trigger] p@[i] == spec_probe_byte(i),
{
    let mut p: Vec<u8> = Vec::new();
    let mut i: usize = 0;
    let mut value: u8 = 17;
    while i < payload_bytes
        invariant
            i <= payload_bytes,
            p@.len() == i,
            value == spec_probe_byte(i as int),
            forall|k: int| 0 <= k < i ==> #[trigger] p@[k] == spec_probe_byte(k),
        decreases payload_bytes - i,
    {
        p.push(value);
        proof {
            assert(((i as int + 1) * 31 + 17) % 256 == ((i as int * 31 + 17) % 256 + 31) % 256) by (nonlinear_arith);
        }
        value = value.wrapping_add(31);
        i = i + 1;
    }
    p
}

/// The result of a two-way relay probe.
#[derive(Clone, Debug, PartialEq, Eq)]
pub struct RelayProbeReport {
    pub relay: String,
    pub transport: TransportChoice,
    pub room: String,
    pub a_to_b_bytes: usize,
    pub b_to_a_bytes: usize,
    pub payload_bytes: usize,
}

impl RelayProbeReport {
    pub open spec fn spec_short_summary(&self) -> Seq<char> {
        "Relay probe passed: "@ + spec_decimal(self.payload_bytes as nat) + " byte payload, "@
            + spec_decimal(self.a_to_b_bytes as nat) + " bytes A->B, "@
            + spec_decimal(self.b_to_a_bytes as nat) + " bytes B->A via "@ + self.relay@ + " ("@
            + spec_transport_name(self.transport) + ")"@
    }

    /// One line on what passed.
    pub fn short_summary(&self) -> (s: String)
        ensures
            s@ == self.spec_short_summary(),
    {
        let mut s = String::new();
        push_str(&mut s, "Relay probe passed: ");
        push_decimal(&mut s, self.payload_bytes as u128);
        push_str(&mut s, " byte payload, ");
        push_decimal(&mut s, self.a_to_b_bytes as u128);
        push_str(&mut s, " bytes A->B, ");
        push_decimal(&mut s, self.b_to_a_bytes as u128);
        push_str(&mut s, " bytes B->A via ");
        push_str(&mut s, self.relay.as_str());
        push_str(&mut s, " (");
        push_str(&mut s, self.transport.name());
        push_str(&mut s, ")");
        s
    }

    /// The summary with the room.
    pub fn display_text(&self) -> (s: String)
        ensures
            s@ == self.spec_short_summary() + "; room="@ + self.room@,
    {
        let mut s = self.short_summary();
        push_str(&mut s, "; room=");
        push_str(&mut s, self.room.as_str());
        s
    }
}

/// The report of a relay probe that moved `payload_bytes` bytes each way.
pub fn relay_probe_report(relay: &RelayEndpoint, transport: TransportChoice, payload_bytes: usize) -> (r: RelayProbeReport)
    ensures
        r.relay@ == crate::session_config::spec_endpoint_text(relay.host@, relay.port),
        r.transport == transport,
        r.room@ == "ephemeral probe room"@,
        r.a_to_b_bytes == payload_bytes,
        r.b_to_a_bytes == payload_bytes,
        r.payload_bytes == payload_bytes,
{
    proof {
        reveal_strlit("ephemeral probe room");
    }
    RelayProbeReport {
        relay: relay.display_text(),
        transport,
        room: String::from_str("ephemeral probe room"),
        a_to_b_bytes: payload_bytes,
        b_to_a_bytes: payload_bytes,
        payload_bytes,
    }
}

/// The health of the local link to the Native Hook.
#[derive(Clone, Debug, PartialEq, Eq)]
pub struct HookReceiveProbeReport {
    pub connection: String,
    pub protocol_major: Option<u16>,
    pub protocol_minor: Option<u16>,
    pub reconnects: u32,
    pub hook_data_dropped: u64,
    pub client_data_dropped: u64,
    pub malformed_frames: u64,
    pub last_error: Option<String>,
}

/// A number, or `-` when there is none.
pub open spec fn spec_optional_number(v: Option<u16>) -> Seq<char> {
    match v {
        Some(x) => spec_decimal(x as nat),
        None => "-"@,
    }
}

fn push_optional_number(out: &mut String, v: Option<u16>)
    ensures
        final(out)@ == old(out)@ + spec_optional_number(v),
{
    match v {
        Some(x) => push_decimal(out, x as u128),
        None => push_str(out, "-"),
    }
}

impl HookReceiveProbeReport {
    pub open spec fn spec_short_summary(&self) -> Seq<char> {
        "Hook IPC health: connection="@ + self.connection@ + " version="@
            + spec_optional_number(self.protocol_major) + "."@ + spec_optional_number(self.protocol_minor)
            + " reconnects="@ + spec_decimal(self.reconnects as nat) + " drops="@
            + spec_decimal(self.hook_data_dropped as nat) + "/"@ + spec_decimal(self.client_data_dropped as nat)
            + " malformed="@ + spec_decimal(self.malformed_frames as nat)
    }

    /// One line on the link's health.
    pub fn short_summary(&self) -> (s: String)
        ensures
            s@ == self.spec_short_summary(),
    {
        let mut s = String::new();
        push_str(&mut s, "Hook IPC health: connection=");
        push_str(&mut s, self.connection.as_str());
        push_str(&mut s, " version=");
        push_optional_number(&mut s, self.protocol_major);
        push_str(&mut s, ".");
        push_optional_number(&mut s, self.protocol_minor);
        push_str(&mut s, " reconnects=");
        push_decimal(&mut s, self.reconnects as u128);
        push_str(&mut s, " drops=");
        push_decimal(&mut s, self.hook_data_dropped as u128);
        push_str(&mut s, "/");
        push_decimal(&mut s, self.client_data_dropped as u128);
        push_str(&mut s, " malformed=");
        push_decimal(&mut s, self.malformed_frames as u128);
        s
    }

    /// The summary, with the last error when there is one.
    pub fn display_text(&self) -> (s: String)
        ensures
            s@ == self.spec_short_summary() + match self.last_error {
                Some(e) => "; last_error="@ + e@,
                None => Seq::<char>::empty(),
            },
    {
        let mut s = self.short_summary();
        match &self.last_error {
            Some(e) => {
                push_str(&mut s, "; last_error=");
                push_str(&mut s, e.as_str());
            },
            None => {
                proof {
                    assert(s@ == s@ + Seq::<char>::empty());
                }
            },
        }
        s
    }
}

/// One case of the readiness matrix.
#[derive(Clone, Debug, PartialEq, Eq)]
pub struct ReadinessProbeCaseReport {
    pub connection_profile: ConnectionProfile,
    pub transport: TransportChoice,
    pub payload_bytes: usize,
    pub duration_ms: u128,
    pub packets_sent: u64,
    pub packets_received: u64,
    pub missing_packets: u64,
    pub min_latency_ms: Option<u128>,
    pub median_latency_ms: Option<u128>,
    pub p95_latency_ms: Option<u128>,
    pub max_latency_ms: Option<u128>,
    pub jitter_ms: Option<u128>,
    pub failure_reason: Option<String>,
}

/// A latency in milliseconds: `-` for none, `<1` for zero.
pub open spec fn spec_display_latency(v: Option<u128>) -> Seq<char> {
    match v {
        None => "-"@,
        Some(x) => if x == 0 { "<1"@ } else { spec_decimal(x as nat) },
    }
}

/// A latency in milliseconds: `-` for none, `<1` for zero.
pub fn display_latency(v: Option<u128>) -> (s: String)
    ensures
        s@ == spec_display_latency(v),
{
    proof {
        reveal_strlit("-");
        reveal_strlit("<1");
    }
    match v {
        None => String::from_str("-"),
        Some(x) => if x == 0 {
            String::from_str("<1")
        } else {
            crate::text::decimal(x)
        },
    }
}

impl ReadinessProbeCaseReport {
    /// A case failed or lost packets.
    pub fn has_issue(&self) -> (r: bool)
        ensures
            r == (self.failure_reason is Some || self.missing_packets > 0),
    {
        self.failure_reason.is_some() || self.missing_packets > 0
    }

    pub open spec fn spec_detailed_log(&self) -> Seq<char> {
        "connection_profile="@ + spec_transport_name(spec_profile_transport(self.connection_profile))
            + "; transport="@ + spec_transport_name(self.transport) + "; payload_bytes="@
            + spec_decimal(self.payload_bytes as nat) + "; duration_ms="@ + spec_decimal(self.duration_ms as nat)
            + "; sent="@ + spec_decimal(self.packets_sent as nat) + "; received="@
            + spec_decimal(self.packets_received as nat) + "; missing="@ + spec_decimal(self.missing_packets as nat)
            + "; min_ms="@ + spec_display_latency(self.min_latency_ms) + "; median_ms="@
            + spec_display_latency(self.median_latency_ms) + "; p95_ms="@
            + spec_display_latency(self.p95_latency_ms) + "; max_ms="@
            + spec_display_latency(self.max_latency_ms) + "; jitter_ms="@
            + spec_display_latency(self.jitter_ms) + match self.failure_reason {
                Some(reason) => "; error="@ + reason@,
                None => Seq::<char>::empty(),
            }
    }

    /// Every figure of the case on one line, with its error if it failed.
    pub fn detailed_log(&self) -> (s: String)
        ensures
            s@ == self.spec_detailed_log(),
    {
        let mut s = String::new();
        push_str(&mut s, "connection_profile=");
        push_str(&mut s, self.connection_profile.name());
        push_str(&mut s, "; transport=");
        push_str(&mut s, self.transport.name());
        push_str(&mut s, "; payload_bytes=");
        push_decimal(&mut s, self.payload_bytes as u128);
        push_str(&mut s, "; duration_ms=");
        push_decimal(&mut s, self.duration_ms);
        push_str(&mut s, "; sent=");
        push_decimal(&mut s, self.packets_sent as u128);
        push_str(&mut s, "; received=");
        push_decimal(&mut s, self.packets_received as u128);
        push_str(&mut s, "; missing=");
        push_decimal(&mut s, self.missing_packets as u128);
        push_str(&mut s, "; min_ms=");
        push_str(&mut s, display_latency(self.min_latency_ms).as_str());
        push_str(&mut s, "; median_ms=");
        push_str(&mut s, display_latency(self.median_latency_ms).as_str());
        push_str(&mut s, "; p95_ms=");
        push_str(&mut s, display_latency(self.p95_latency_ms).as_str());
        push_str(&mut s, "; max_ms=");
        push_str(&mut s, display_latency(self.max_latency_ms).as_str());
        push_str(&mut s, "; jitter_ms=");
        push_str(&mut s, display_latency(self.jitter_ms).as_str());
        match &self.failure_reason {
            Some(reason) => {
                push_str(&mut s, "; error=");
                push_str(&mut s, reason.as_str());
            },
            None => {
                proof {
                    assert(s@ == s@ + Seq::<char>::empty());
                }
            },
        }
        s
    }
}

/// The readiness matrix over one relay.
#[derive(Clone, Debug, PartialEq, Eq)]
pub struct ReadinessProbeReport {
    pub relay: String,
    pub room: String,
    pub duration_ms: u128,
    pub samples_per_case: u64,
    pub cases: Vec<ReadinessProbeCaseReport>,
}

/// The case logs joined by ` | `.
pub open spec fn spec_joined_cases(cases: Seq<ReadinessProbeCaseReport>) -> Seq<char>
    decreases cases.len(),
{
    if cases.len() == 0 {
        Seq::empty()
    } else if cases.len() == 1 {
        cases[0].spec_detailed_log()
    } else {
        spec_joined_cases(cases.drop_last()) + " | "@ + cases.last().spec_detailed_log()
    }
}

impl ReadinessProbeReport {
    /// Some case has an issue.
    pub fn has_issue(&self) -> (r: bool)
        ensures
            r == exists|i: int| 0 <= i < self.cases@.len() && ((#[trigger] self.cases@[i]).failure_reason is Some
                || self.cases@[i].missing_packets > 0),
    {
        let mut i: usize = 0;
        while i < self.cases.len()
            invariant
                i <= self.cases@.len(),
                forall|k: int| 0 <= k < i ==> !((#[trigger] self.cases@[k]).failure_reason is Some
                    || self.cases@[k].missing_packets > 0),
            decreases self.cases@.len() - i,
        {
            if self.cases[i].has_issue() {
                return true;
            }
            i = i + 1;
        }
        false
    }

    pub open spec fn spec_detailed_log(&self) -> Seq<char> {
        "Readiness matrix via "@ + self.relay@ + "; room="@ + self.room@ + "; duration_ms="@
            + spec_decimal(self.duration_ms as nat) + "; samples_per_case="@
            + spec_decimal(self.samples_per_case as nat) + "; cases=["@ + spec_joined_cases(self.cases@)
            + "]"@
    }

    /// The matrix on one line, cases separated by ` | `.
    pub fn detailed_log(&self) -> (s: String)
        ensures
            s@ == self.spec_detailed_log(),
    {
        let mut s = String::new();
        push_str(&mut s, "Readiness matrix via ");
        push_str(&mut s, self.relay.as_str());
        push_str(&mut s, "; room=");
        push_str(&mut s, self.room.as_str());
        push_str(&mut s, "; duration_ms=");
        push_decimal(&mut s, self.duration_ms);
        push_str(&mut s, "; samples_per_case=");
        push_decimal(&mut s, self.samples_per_case as u128);
        push_str(&mut s, "; cases=[");
        let ghost start = s@;
        let mut i: usize = 0;
        while i < self.cases.len()
            invariant
                i <= self.cases@.len(),
                s@ == start + spec_joined_cases(self.cases@.take(i as int)),
            decreases self.cases@.len() - i,
        {
            proof {
                assert(self.cases@.take(i + 1).drop_last() == self.cases@.take(i as int));
                assert(self.cases@.take(i + 1).last() == self.cases@[i as int]);
            }
            if i > 0 {
                push_str(&mut s, " | ");
            }
            let line = self.cases[i].detailed_log();
            push_str(&mut s, line.as_str());
            i = i + 1;
        }
        proof {
            assert(self.cases@.take(self.cases@.len() as int) == self.cases@);
        }
        push_str(&mut s, "]");
        s
    }
}

/// Nearest-rank percentile rounding the rank up: the element at
/// `ceil((len - 1) * p / 100)`.
pub open spec fn spec_ceil_percentile(sorted: Seq<u64>, p: nat) -> Option<u128> {
    if sorted.len() == 0 {
        None
    } else {
        let index = (((sorted.len() - 1) * p + 99) / 100) as int;
        if index < sorted.len() { Some(sorted[index] as u128) } else { None }
    }
}

fn ceil_percentile(sorted: &Vec<u64>, p: usize) -> (r: Option<u128>)
    ensures
        r == spec_ceil_percentile(sorted@, p as nat),
{
    if sorted.len() == 0 {
        return None;
    }
    let n: u128 = (sorted.len() - 1) as u128;
    let q: u128 = p as u128;
    assert(n * q <= 0xffff_ffff_ffff_ffffu128 * 0xffff_ffff_ffff_ffffu128) by (nonlinear_arith)
        requires n <= 0xffff_ffff_ffff_ffffu128, q <= 0xffff_ffff_ffff_ffffu128;
    let index: u128 = (n * q + 99) / 100;
    if index < sorted.len() as u128 {
        Some(sorted[index as usize] as u128)
    } else {
        None
    }
}

/// The report of one readiness case from its counts and sample latencies:
/// extremes and percentiles of the sorted latencies, jitter as p95 minus
/// median, and missing packets as sent minus received.
pub open spec fn spec_case_report(
    r: ReadinessProbeCaseReport,
    connection_profile: ConnectionProfile,
    transport: TransportChoice,
    payload_bytes: usize,
    duration_ms: u128,
    packets_sent: u64,
    packets_received: u64,
    latencies: Seq<u64>,
    failure_reason: Option<Seq<char>>,
) -> bool {
    let sorted = sorted_u64(latencies);
    let median = spec_ceil_percentile(sorted, 50);
    let p95 = spec_ceil_percentile(sorted, 95);
    &&& r.connection_profile == connection_profile
    &&& r.transport == transport
    &&& r.payload_bytes == payload_bytes
    &&& r.duration_ms == duration_ms
    &&& r.packets_sent == packets_sent
    &&& r.packets_received == packets_received
    &&& r.missing_packets == (if packets_sent >= packets_received { (packets_sent - packets_received) as u64 } else { 0 })
    &&& r.min_latency_ms == (if sorted.len() == 0 { None } else { Some(sorted[0] as u128) })
    &&& r.max_latency_ms == (if sorted.len() == 0 { None } else { Some(sorted.last() as u128) })
    &&& r.median_latency_ms == median
    &&& r.p95_latency_ms == p95
    &&& r.jitter_ms == match (median, p95) {
        (Some(m), Some(p)) => Some(if p >= m { (p - m) as u128 } else { 0 }),
        _ => None,
    }
    &&& match (r.failure_reason, failure_reason) {
        (Some(a), Some(b)) => a@ == b,
        (None, None) => true,
        _ => false,
    }
}

/// Builds the report of one readiness case.
pub fn readiness_case_report(
    connection_profile: ConnectionProfile,
    transport: TransportChoice,
    payload_bytes: usize,
    duration_ms: u128,
    packets_sent: u64,
    packets_received: u64,
    latencies: &Vec<u64>,
    failure_reason: Option<String>,
) -> (r: ReadinessProbeCaseReport)
    ensures
        spec_case_report(
            r,
            connection_profile,
            transport,
            payload_bytes,
            duration_ms,
            packets_sent,
            packets_received,
            latencies@,
            match failure_reason {
                Some(s) => Some(s@),
                None => None,
            },
        ),
{
    let sorted = sorted_copy(latencies);
    proof {
        latencies@.lemma_sort_by_ensures(crate::latency::u64_leq());
        vstd::seq_lib::to_multiset_len(latencies@);
        vstd::seq_lib::to_multiset_len(sorted@);
    }
    let n = sorted.len();
    let min_latency_ms = if n == 0 { None } else { Some(sorted[0] as u128) };
    let max_latency_ms = if n == 0 { None } else { Some(sorted[n - 1] as u128) };
    let median_latency_ms = ceil_percentile(&sorted, 50);
    let p95_latency_ms = ceil_percentile(&sorted, 95);
    let jitter_ms = match (median_latency_ms, p95_latency_ms) {
        (Some(m), Some(p)) => Some(if p >= m { p - m } else { 0 }),
        _ => None,
    };
    ReadinessProbeCaseReport {
        connection_profile,
        transport,
        payload_bytes,
        duration_ms,
        packets_sent,
        packets_received,
        missing_packets: packets_sent.saturating_sub(packets_received),
        min_latency_ms,
        median_latency_ms,
        p95_latency_ms,
        max_latency_ms,
        jitter_ms,
        failure_reason,
    }
}

/// The report of a readiness case that failed before any sample.
pub fn failed_readiness_case_report(
    connection_profile: ConnectionProfile,
    payload_bytes: usize,
    duration_ms: u128,
    failure_reason: String,
) -> (r: ReadinessProbeCaseReport)
    ensures
        spec_case_report(
            r,
            connection_profile,
            spec_profile_transport(connection_profile),
            payload_bytes,
            duration_ms,
            0,
            0,
            Seq::empty(),
            Some(failure_reason@),
        ),
{
    let latencies: Vec<u64> = Vec::new();
    readiness_case_report(
        connection_profile,
        connection_profile.transport(),
        payload_bytes,
        duration_ms,
        0,
        0,
        &latencies,
        Some(failure_reason),
    )
}

/// A relay to ping, as listed to the player.
#[derive(Clone, Debug, PartialEq, Eq)]
pub struct LightPingTarget {
    pub relay_id: Option<String>,
    pub relay_name: Option<String>,
    pub endpoint: RelayEndpoint,
    pub transport: TransportChoice,
}

/// The outcome of pinging one relay.
#[derive(Clone, Debug, PartialEq, Eq)]
pub struct LightPingReport {
    pub target: LightPingTarget,
    pub sent: u8,
    pub received: u8,
    pub median_rtt_ms: Option<u128>,
    pub failure_reason: Option<String>,
}

impl LightPingReport {
    /// `unreachable` when the ping failed, else `ok`.
    pub fn latency_label(&self) -> (s: &'static str)
        ensures
            s@ == (if self.failure_reason is Some { "unreachable"@ } else { "ok"@ }),
    {
        proof {
            reveal_strlit("unreachable");
            reveal_strlit("ok");
        }
        if self.failure_reason.is_some() {
            "unreachable"
        } else {
            "ok"
        }
    }
}

/// The report of a ping run that was cancelled before it started.
pub fn cancelled_report(target: LightPingTarget) -> (r: LightPingReport)
    ensures
        r.target == target,
        r.sent == 0 && r.received == 0,
        r.median_rtt_ms is None,
        r.failure_reason matches Some(m) && m@ == "cancelled"@,
{
    proof {
        reveal_strlit("cancelled");
    }
    LightPingReport {
        target,
        sent: 0,
        received: 0,
        median_rtt_ms: None,
        failure_reason: Some(String::from_str("cancelled")),
    }
}

/// The report of a finished ping run: the median of the answered round
/// trips (the upper middle for an even count), and a failure reason only
/// when no answer came: the first failure seen, or `no pongs received`.
pub fn light_ping_report(
    target: LightPingTarget,
    sent: u8,
    received: u8,
    rtts: &Vec<u64>,
    failure_reason: Option<String>,
) -> (r: LightPingReport)
    ensures
        r.target == target,
        r.sent == sent,
        r.received == received,
        r.median_rtt_ms == (if rtts@.len() == 0 { None } else { Some(sorted_u64(rtts@)[(rtts@.len() / 2) as int] as u128) }),
        received != 0 ==> r.failure_reason is None,
        received == 0 ==> match failure_reason {
            Some(f) => r.failure_reason matches Some(m) && m@ == f@,
            None => r.failure_reason matches Some(m) && m@ == "no pongs received"@,
        },
{
    let sorted = sorted_copy(rtts);
    proof {
        rtts@.lemma_sort_by_ensures(crate::latency::u64_leq());
        vstd::seq_lib::to_multiset_len(rtts@);
        vstd::seq_lib::to_multiset_len(sorted@);
        reveal_strlit("no pongs received");
    }
    let median = if sorted.len() == 0 { None } else { Some(sorted[sorted.len() / 2] as u128) };
    let reason = if received == 0 {
        match failure_reason {
            Some(f) => Some(f),
            None => Some(String::from_str("no pongs received")),
        }
    } else {
        None
    };
    LightPingReport { target, sent, received, median_rtt_ms: median, failure_reason: reason }
}

} // verus!
