//! One-line evidence summaries attached to an internal test report.

use vstd::prelude::*;
use crate::probe::{HookReceiveProbeReport, ReadinessProbeCaseReport, ReadinessProbeReport};
use crate::session_health::SessionHealthSnapshot;
use crate::session_config::{SessionMode, TransportChoice};
use crate::latency::sat_add;
use crate::text::{push_decimal, push_str, spec_decimal};

verus! {

/// A number, or `n/a` when there is none.
pub open spec fn spec_optional(v: Option<u128>) -> Seq<char> {
    match v {
        Some(x) => spec_decimal(x as nat),
        None => "n/a"@,
    }
}

fn push_optional(out: &mut String, v: Option<u128>)
    ensures
        final(out)@ == old(out)@ + spec_optional(v),
{
    match v {
        Some(x) => push_decimal(out, x),
        None => push_str(out, "n/a"),
    }
}

/// The larger of two optional values.
pub open spec fn max_opt(a: Option<u128>, b: Option<u128>) -> Option<u128> {
    match (a, b) {
        (Some(x), Some(y)) => Some(if x >= y { x } else { y }),
        (Some(x), None) => Some(x),
        (None, y) => y,
    }
}

/// The missing packets summed over the first `n` cases (wrapping past `u64::MAX`).
pub open spec fn spec_lost(cases: Seq<ReadinessProbeCaseReport>, n: int) -> u64
    decreases n,
{
    if n <= 0 { 0 } else { ((spec_lost(cases, n - 1) + cases[n - 1].missing_packets) % 0x1_0000_0000_0000_0000) as u64 }
}

pub open spec fn spec_worst_p95(cases: Seq<ReadinessProbeCaseReport>, n: int) -> Option<u128>
    decreases n,
{
    if n <= 0 { None } else { max_opt(spec_worst_p95(cases, n - 1), cases[n - 1].p95_latency_ms) }
}

pub open spec fn spec_worst_jitter(cases: Seq<ReadinessProbeCaseReport>, n: int) -> Option<u128>
    decreases n,
{
    if n <= 0 { None } else { max_opt(spec_worst_jitter(cases, n - 1), cases[n - 1].jitter_ms) }
}

pub open spec fn spec_readiness_summary(r: ReadinessProbeReport) -> Seq<char> {
    let n = r.cases@.len() as int;
    "cases="@ + spec_decimal(n as nat) + "; missing_packets="@ + spec_decimal(spec_lost(r.cases@, n) as nat)
        + "; worst_p95_ms="@ + spec_optional(spec_worst_p95(r.cases@, n)) + "; worst_jitter_ms="@
        + spec_optional(spec_worst_jitter(r.cases@, n))
}

fn max_option(a: Option<u128>, b: Option<u128>) -> (r: Option<u128>)
    ensures
        r == max_opt(a, b),
{
    match (a, b) {
        (Some(x), Some(y)) => Some(if x >= y { x } else { y }),
        (Some(x), None) => Some(x),
        (None, y) => y,
    }
}

/// Cases, packets lost over all cases, and the worst p95 and jitter.
pub fn readiness_summary(report: &ReadinessProbeReport) -> (s: String)
    ensures
        s@ == spec_readiness_summary(*report),
{
    let mut lost: u64 = 0;
    let mut worst_p95: Option<u128> = None;
    let mut worst_jitter: Option<u128> = None;
    let mut i: usize = 0;
    while i < report.cases.len()
        invariant
            i <= report.cases@.len(),
            lost == spec_lost(report.cases@, i as int),
            worst_p95 == spec_worst_p95(report.cases@, i as int),
            worst_jitter == spec_worst_jitter(report.cases@, i as int),
        decreases report.cases@.len() - i,
    {
        lost = lost.wrapping_add(report.cases[i].missing_packets);
        worst_p95 = max_option(worst_p95, report.cases[i].p95_latency_ms);
        worst_jitter = max_option(worst_jitter, report.cases[i].jitter_ms);
        i = i + 1;
    }
    let mut s = String::new();
    push_str(&mut s, "cases=");
    push_decimal(&mut s, report.cases.len() as u128);
    push_str(&mut s, "; missing_packets=");
    push_decimal(&mut s, lost as u128);
    push_str(&mut s, "; worst_p95_ms=");
    push_optional(&mut s, worst_p95);
    push_str(&mut s, "; worst_jitter_ms=");
    push_optional(&mut s, worst_jitter);
    s
}

fn opt_wide(v: Option<u64>) -> (r: Option<u128>)
    ensures
        r == match v { Some(x) => Some(x as u128), None => None::<u128> },
{
    match v {
        Some(x) => Some(x as u128),
        None => None,
    }
}

pub open spec fn wide(v: Option<u64>) -> Option<u128> {
    match v {
        Some(x) => Some(x as u128),
        None => None,
    }
}

pub open spec fn spec_rtt_summary(snapshot: SessionHealthSnapshot) -> Seq<char> {
    "sent="@ + spec_decimal(snapshot.runtime_rtt.sent as nat) + "; received="@
        + spec_decimal(snapshot.runtime_rtt.received as nat) + "; timed_out="@
        + spec_decimal(snapshot.runtime_rtt.timed_out as nat) + "; pending="@
        + spec_decimal(snapshot.runtime_rtt.pending as nat) + "; p95_ms="@
        + spec_optional(wide(snapshot.runtime_rtt.latency.p95_ms))
}

pub open spec fn spec_queue_summary(snapshot: SessionHealthSnapshot) -> Seq<char> {
    "outbound_dropped="@ + spec_decimal(snapshot.queues.outbound_dropped as nat) + "; inbound_dropped="@
        + spec_decimal(snapshot.queues.inbound_dropped as nat) + "; total_dropped="@
        + spec_decimal(sat_add(snapshot.queues.outbound_dropped, snapshot.queues.inbound_dropped) as nat)
}

pub open spec fn spec_continuity_summary(snapshot: SessionHealthSnapshot) -> Seq<char> {
    "network_gap_p95_ms="@ + spec_optional(wide(snapshot.network_recv.gap.p95_ms)) + "; delivery_gaps="@
        + spec_decimal(snapshot.delivery.confirmed_gaps as nat) + "; reordered="@
        + spec_decimal(snapshot.delivery.reordered as nat)
}

pub open spec fn spec_hook_output_summary(snapshot: SessionHealthSnapshot) -> Seq<char> {
    "hook_out_p95_ms="@ + spec_optional(wide(snapshot.hook_out_send_duration.p95_ms)) + "; over_500ms="@
        + spec_decimal(snapshot.hook_out_send_duration.over_500_ms as nat) + "; over_1000ms="@
        + spec_decimal(snapshot.hook_out_send_duration.over_1000_ms as nat)
}

/// Runtime round trips of a session.
pub fn runtime_rtt_summary(snapshot: &SessionHealthSnapshot) -> (s: String)
    ensures
        s@ == spec_rtt_summary(*snapshot),
{
    let rtt = snapshot.runtime_rtt;
    let mut s = String::new();
    push_str(&mut s, "sent=");
    push_decimal(&mut s, rtt.sent as u128);
    push_str(&mut s, "; received=");
    push_decimal(&mut s, rtt.received as u128);
    push_str(&mut s, "; timed_out=");
    push_decimal(&mut s, rtt.timed_out as u128);
    push_str(&mut s, "; pending=");
    push_decimal(&mut s, rtt.pending as u128);
    push_str(&mut s, "; p95_ms=");
    push_optional(&mut s, opt_wide(rtt.latency.p95_ms));
    s
}

/// Local queue drops of a session.
pub fn queue_summary(snapshot: &SessionHealthSnapshot) -> (s: String)
    ensures
        s@ == spec_queue_summary(*snapshot),
{
    let mut s = String::new();
    push_str(&mut s, "outbound_dropped=");
    push_decimal(&mut s, snapshot.queues.outbound_dropped as u128);
    push_str(&mut s, "; inbound_dropped=");
    push_decimal(&mut s, snapshot.queues.inbound_dropped as u128);
    push_str(&mut s, "; total_dropped=");
    push_decimal(&mut s, snapshot.queues.total_dropped() as u128);
    s
}

/// Arrival gaps and delivery continuity of a session.
pub fn packet_continuity_summary(snapshot: &SessionHealthSnapshot) -> (s: String)
    ensures
        s@ == spec_continuity_summary(*snapshot),
{
    let mut s = String::new();
    push_str(&mut s, "network_gap_p95_ms=");
    push_optional(&mut s, opt_wide(snapshot.network_recv.gap.p95_ms));
    push_str(&mut s, "; delivery_gaps=");
    push_decimal(&mut s, snapshot.delivery.confirmed_gaps as u128);
    push_str(&mut s, "; reordered=");
    push_decimal(&mut s, snapshot.delivery.reordered as u128);
    s
}

/// Hook write stalls of a session.
pub fn hook_output_summary(snapshot: &SessionHealthSnapshot) -> (s: String)
    ensures
        s@ == spec_hook_output_summary(*snapshot),
{
    let mut s = String::new();
    push_str(&mut s, "hook_out_p95_ms=");
    push_optional(&mut s, opt_wide(snapshot.hook_out_send_duration.p95_ms));
    push_str(&mut s, "; over_500ms=");
    push_decimal(&mut s, snapshot.hook_out_send_duration.over_500_ms as u128);
    push_str(&mut s, "; over_1000ms=");
    push_decimal(&mut s, snapshot.hook_out_send_duration.over_1000_ms as u128);
    s
}

/// The evidence lines of a report.
#[derive(Debug)]
pub struct ObservabilitySummary {
    pub readiness: String,
    pub runtime_rtt: String,
    pub local_queue_pressure: String,
    pub relay_packet_continuity: String,
    pub hook_output: String,
    pub attribution_note: &'static str,
}

impl ObservabilitySummary {
    /// The summaries of whatever evidence exists; the hook line comes from
    /// the hook probe, else its error, else the session's hook writes.
    pub fn from_state(
        readiness: Option<&ReadinessProbeReport>,
        hook_receive: Option<&HookReceiveProbeReport>,
        hook_receive_error: Option<&str>,
        session_health: Option<&SessionHealthSnapshot>,
    ) -> (o: ObservabilitySummary)
        ensures
            o.readiness@ == match readiness { Some(r) => spec_readiness_summary(*r), None => "not run"@ },
            o.runtime_rtt@ == match session_health { Some(h) => spec_rtt_summary(*h), None => "no session health"@ },
            o.local_queue_pressure@ == match session_health { Some(h) => spec_queue_summary(*h), None => "no session health"@ },
            o.relay_packet_continuity@ == match session_health { Some(h) => spec_continuity_summary(*h), None => "no session health"@ },
            o.hook_output@ == match (hook_receive, hook_receive_error, session_health) {
                (Some(h), _, _) => h.spec_short_summary(),
                (None, Some(e), _) => e@,
                (None, None, Some(h)) => spec_hook_output_summary(*h),
                (None, None, None) => "not checked"@,
            },
            o.attribution_note@ == "Evidence localizes observed symptoms; compare both players and relay logs before assigning root cause."@,
    {
        proof {
            reveal_strlit("not run");
            reveal_strlit("no session health");
            reveal_strlit("not checked");
            reveal_strlit("Evidence localizes observed symptoms; compare both players and relay logs before assigning root cause.");
        }
        let readiness_text = match readiness {
            Some(r) => readiness_summary(r),
            None => String::from_str("not run"),
        };
        let (rtt, queues, continuity) = match session_health {
            Some(h) => (runtime_rtt_summary(h), queue_summary(h), packet_continuity_summary(h)),
            None => (String::from_str("no session health"), String::from_str("no session health"), String::from_str("no session health")),
        };
        let hook_output = match hook_receive {
            Some(h) => h.short_summary(),
            None => match hook_receive_error {
                Some(e) => String::from_str(e),
                None => match session_health {
                    Some(h) => hook_output_summary(h),
                    None => String::from_str("not checked"),
                },
            },
        };
        ObservabilitySummary {
            readiness: readiness_text,
            runtime_rtt: rtt,
            local_queue_pressure: queues,
            relay_packet_continuity: continuity,
            hook_output,
            attribution_note: "Evidence localizes observed symptoms; compare both players and relay logs before assigning root cause.",
        }
    }
}

/// The lower-case name of a transport in a share code.
pub fn serialize_transport(value: TransportChoice) -> (s: &'static str)
    ensures
        s@ == match value { TransportChoice::Udp => "udp"@, TransportChoice::Tcp => "tcp"@ },
{
    match value {
        TransportChoice::Udp => "udp",
        TransportChoice::Tcp => "tcp",
    }
}

/// The lower-case name of a mode in a share code.
pub fn serialize_mode(value: SessionMode) -> (s: &'static str)
    ensures
        s@ == match value {
            SessionMode::Official => "official"@,
            SessionMode::Fallback => "fallback"@,
            SessionMode::Pure => "pure"@,
        },
{
    match value {
        SessionMode::Official => "official",
        SessionMode::Fallback => "fallback",
        SessionMode::Pure => "pure",
    }
}

} // verus!
