//! Watching the hand-off of direct-path packets to the hook: one warning
//! when drops start, one notice when they recover, and a summary of an
//! outage still open when the path closes. Instants are microseconds.

use vstd::prelude::*;
use crate::logging::LogLevel;
use crate::text::{push_decimal, push_str, spec_decimal};

verus! {

/// An outage of the hand-off: when it started and how many packets it lost.
#[derive(Clone, Copy, Debug, PartialEq, Eq, Structural)]
pub struct DirectReceiveIncident {
    pub started_at: u64,
    pub dropped_packets: u64,
}

/// The summary of an outage that was still open when the path closed.
#[derive(Clone, Copy, Debug, PartialEq, Eq, Structural)]
pub struct HandoffIncidentSummary {
    pub duration: u64,
    pub dropped_packets: u64,
}

/// A log line to emit.
#[derive(Debug)]
pub struct LogLine {
    pub level: LogLevel,
    pub message: String,
}

#[derive(Clone, Copy, Debug, PartialEq, Eq, Structural)]
pub struct DirectReceiveObserver {
    pub closed: bool,
    pub incident: Option<DirectReceiveIncident>,
}

/// `a - b`, floored at zero.
pub open spec fn sat_sub(a: u64, b: u64) -> u64 {
    if a >= b { (a - b) as u64 } else { 0 }
}

pub open spec fn spec_recovery_message(incident: DirectReceiveIncident, now: u64) -> Seq<char> {
    "Direct receive handoff recovered outage_ms="@ + spec_decimal((sat_sub(now, incident.started_at) / 1000) as nat)
        + " packets_dropped="@ + spec_decimal(incident.dropped_packets as nat)
}

pub open spec fn spec_onset_message() -> Seq<char> {
    "Direct receive queue is full; dropping gameplay packets"@
}

impl DirectReceiveObserver {
    pub fn new() -> (o: DirectReceiveObserver)
        ensures
            !o.closed && o.incident is None,
    {
        DirectReceiveObserver { closed: false, incident: None }
    }

    /// One hand-off at `now`, accepted or dropped. After `finish` nothing is
    /// observed. A drop outside an outage starts one and warns; a drop in an
    /// outage is counted silently; an acceptance ends an outage with a notice.
    pub fn observe(&mut self, accepted: bool, now: u64) -> (line: Option<LogLine>)
        ensures
            old(self).closed ==> *final(self) == *old(self) && line is None,
            !old(self).closed ==> final(self).closed == false && (if accepted {
                &&& final(self).incident is None
                &&& match old(self).incident {
                    Some(i) => line matches Some(l) && l.level == LogLevel::Info && l.message@ == spec_recovery_message(i, now),
                    None => line is None,
                }
            } else {
                match old(self).incident {
                    Some(i) => {
                        &&& final(self).incident == Some(DirectReceiveIncident {
                            started_at: i.started_at,
                            dropped_packets: if i.dropped_packets == u64::MAX { u64::MAX } else { (i.dropped_packets + 1) as u64 },
                        })
                        &&& line is None
                    },
                    None => {
                        &&& final(self).incident == Some(DirectReceiveIncident { started_at: now, dropped_packets: 1 })
                        &&& line matches Some(l) && l.level == LogLevel::Warn && l.message@ == spec_onset_message()
                    },
                }
            }),
    {
        if self.closed {
            return None;
        }
        if accepted {
            match self.incident {
                Some(incident) => {
                    self.incident = None;
                    let mut message = String::new();
                    push_str(&mut message, "Direct receive handoff recovered outage_ms=");
                    push_decimal(&mut message, (now.saturating_sub(incident.started_at) / 1000) as u128);
                    push_str(&mut message, " packets_dropped=");
                    push_decimal(&mut message, incident.dropped_packets as u128);
                    return Some(LogLine { level: LogLevel::Info, message });
                },
                None => {
                    return None;
                },
            }
        }
        match self.incident {
            Some(incident) => {
                self.incident = Some(DirectReceiveIncident {
                    started_at: incident.started_at,
                    dropped_packets: incident.dropped_packets.saturating_add(1),
                });
                None
            },
            None => {
                self.incident = Some(DirectReceiveIncident { started_at: now, dropped_packets: 1 });
                proof {
                    reveal_strlit("Direct receive queue is full; dropping gameplay packets");
                }
                Some(LogLine {
                    level: LogLevel::Warn,
                    message: String::from_str("Direct receive queue is full; dropping gameplay packets"),
                })
            },
        }
    }

    /// Stops observing at `now`, summarising an outage that is still open.
    pub fn finish(&mut self, now: u64) -> (summary: Option<HandoffIncidentSummary>)
        ensures
            final(self).closed,
            final(self).incident is None,
            summary == match old(self).incident {
                Some(i) => Some(HandoffIncidentSummary { duration: sat_sub(now, i.started_at), dropped_packets: i.dropped_packets }),
                None => None,
            },
    {
        self.closed = true;
        let incident = self.incident;
        self.incident = None;
        match incident {
            Some(i) => Some(HandoffIncidentSummary { duration: now.saturating_sub(i.started_at), dropped_packets: i.dropped_packets }),
            None => None,
        }
    }
}

} // verus!
