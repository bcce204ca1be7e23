//! The steps of joining a relay session after `JoinBegin` was sent: answer
//! the admission challenge with a proof of work, wait for the relay to admit
//! the client and, on the UDP data profile, validate the UDP path. The caller
//! sends each message, solves the challenge and reads the relay's replies.

use vstd::prelude::*;
use crate::text::push_str;

verus! {

/// Where a join stands.
#[derive(Clone, Copy, Debug, PartialEq, Eq, Structural)]
pub enum RelayJoinPhase {
    AwaitChallenge,
    AwaitReady,
    AwaitUdpToken,
    AwaitUdpReady,
    Joined,
}

/// A reply of the relay, as far as the join is concerned; codes are given
/// by name.
pub enum JoinReply {
    AdmissionChallenge { sha256: bool },
    JoinReady { connection_id: u64 },
    UdpPathToken { connection_id: u64 },
    UdpPathReady { connection_id: u64 },
    Error { code: String, message: String },
    Other,
}

/// What the caller does next.
#[derive(Clone, Debug, PartialEq, Eq)]
pub enum JoinAction {
    /// Solve the challenge and send `JoinProof`.
    SendProof,
    /// Send `UdpPathRequest`.
    RequestUdpPath,
    /// Send `UdpPathHello` for the connection over UDP.
    SendUdpHello { connection_id: u64 },
    /// The client is admitted; the join is complete.
    Done { connection_id: u64 },
    /// The join fails with this message.
    Fail { message: String },
    /// Read the next reply.
    Wait,
}

/// A join under way: its phase, whether the data profile is UDP, and the
/// connection id once admitted.
#[derive(Clone, Copy, Debug, PartialEq, Eq, Structural)]
pub struct RelayJoin {
    pub phase: RelayJoinPhase,
    pub udp: bool,
    pub connection_id: Option<u64>,
}

/// The join after `reply`, and what the caller does: an error reply ends
/// the join in every phase but the last; a reply the phase does not wait
/// for is passed over.
pub open spec fn spec_join_step(j: RelayJoin, reply: JoinReply, a: JoinAction) -> (RelayJoin, bool) {
    match reply {
        JoinReply::Error { code, message } => if j.phase != RelayJoinPhase::Joined {
            (j, a matches JoinAction::Fail { message: m } && m@ == code@ + ": "@ + message@)
        } else {
            (j, a == JoinAction::Wait)
        },
        JoinReply::AdmissionChallenge { sha256 } => if j.phase == RelayJoinPhase::AwaitChallenge && sha256 {
            (RelayJoin { phase: RelayJoinPhase::AwaitReady, ..j }, a == JoinAction::SendProof)
        } else {
            (j, a == JoinAction::Wait)
        },
        JoinReply::JoinReady { connection_id } => if j.phase == RelayJoinPhase::AwaitReady {
            if j.udp {
                (RelayJoin { phase: RelayJoinPhase::AwaitUdpToken, connection_id: Some(connection_id), ..j },
                    a == JoinAction::RequestUdpPath)
            } else {
                (RelayJoin { phase: RelayJoinPhase::Joined, connection_id: Some(connection_id), ..j },
                    a == (JoinAction::Done { connection_id }))
            }
        } else {
            (j, a == JoinAction::Wait)
        },
        JoinReply::UdpPathToken { connection_id } =>
            if j.phase == RelayJoinPhase::AwaitUdpToken && j.connection_id == Some(connection_id) {
                (RelayJoin { phase: RelayJoinPhase::AwaitUdpReady, ..j }, a == (JoinAction::SendUdpHello { connection_id }))
            } else {
                (j, a == JoinAction::Wait)
            },
        JoinReply::UdpPathReady { connection_id } =>
            if j.phase == RelayJoinPhase::AwaitUdpReady && j.connection_id == Some(connection_id) {
                (RelayJoin { phase: RelayJoinPhase::Joined, ..j }, a == (JoinAction::Done { connection_id }))
            } else {
                (j, a == JoinAction::Wait)
            },
        JoinReply::Other => (j, a == JoinAction::Wait),
    }
}

impl RelayJoin {
    /// A join whose `JoinBegin` was sent, on the UDP data profile or not.
    pub fn new(udp: bool) -> (j: RelayJoin)
        ensures
            j == (RelayJoin { phase: RelayJoinPhase::AwaitChallenge, udp, connection_id: None }),
    {
        RelayJoin { phase: RelayJoinPhase::AwaitChallenge, udp, connection_id: None }
    }

    /// Takes in one reply of the relay.
    pub fn step(&mut self, reply: JoinReply) -> (a: JoinAction)
        ensures
            ({
                let (next, ok) = spec_join_step(*old(self), reply, a);
                *final(self) == next && ok
            }),
    {
        match reply {
            JoinReply::Error { code, message } => {
                if self.phase != RelayJoinPhase::Joined {
                    let mut m = String::new();
                    push_str(&mut m, code.as_str());
                    push_str(&mut m, ": ");
                    push_str(&mut m, message.as_str());
                    JoinAction::Fail { message: m }
                } else {
                    JoinAction::Wait
                }
            },
            JoinReply::AdmissionChallenge { sha256 } => {
                if self.phase == RelayJoinPhase::AwaitChallenge && sha256 {
                    self.phase = RelayJoinPhase::AwaitReady;
                    JoinAction::SendProof
                } else {
                    JoinAction::Wait
                }
            },
            JoinReply::JoinReady { connection_id } => {
                if self.phase == RelayJoinPhase::AwaitReady {
                    self.connection_id = Some(connection_id);
                    if self.udp {
                        self.phase = RelayJoinPhase::AwaitUdpToken;
                        JoinAction::RequestUdpPath
                    } else {
                        self.phase = RelayJoinPhase::Joined;
                        JoinAction::Done { connection_id }
                    }
                } else {
                    JoinAction::Wait
                }
            },
            JoinReply::UdpPathToken { connection_id } => {
                if self.phase == RelayJoinPhase::AwaitUdpToken && self.connection_id == Some(connection_id) {
                    self.phase = RelayJoinPhase::AwaitUdpReady;
                    JoinAction::SendUdpHello { connection_id }
                } else {
                    JoinAction::Wait
                }
            },
            JoinReply::UdpPathReady { connection_id } => {
                if self.phase == RelayJoinPhase::AwaitUdpReady && self.connection_id == Some(connection_id) {
                    self.phase = RelayJoinPhase::Joined;
                    JoinAction::Done { connection_id }
                } else {
                    JoinAction::Wait
                }
            },
            JoinReply::Other => JoinAction::Wait,
        }
    }
}

/// Once admitted, a join completes only for the connection id the relay
/// admitted, and the completed join stays complete.
pub proof fn law_done_names_admitted_id(j: RelayJoin, reply: JoinReply, a: JoinAction)
    requires
        spec_join_step(j, reply, a).1,
        a matches JoinAction::Done { .. },
        j.phase != RelayJoinPhase::AwaitReady,
    ensures
        j.connection_id == Some(a->Done_connection_id),
        spec_join_step(j, reply, a).0.phase == RelayJoinPhase::Joined,
{
}

} // verus!
