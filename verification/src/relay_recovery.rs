//! Decisions of a relay reconnect: whether the session can be resumed at
//! all, and what each reply of the relay to the resume request means. The
//! caller opens the replacement connection and reads the replies.

use vstd::prelude::*;
use crate::text::push_str;

verus! {

/// The kind of error a failed reconnect reports.
#[derive(Clone, Copy, Debug, PartialEq, Eq, Structural)]
pub enum RecoveryErrorKind {
    InvalidInput,
    NotConnected,
    PermissionDenied,
    Other,
}

/// The pieces a resume needs, or the first one missing with its message:
/// a session to rejoin, the relay's connection id and the resume credential.
pub fn resume_prerequisites(
    has_session: bool,
    connection_id: Option<u64>,
    has_resume_credential: bool,
) -> (r: Result<u64, (RecoveryErrorKind, &'static str)>)
    ensures
        !has_session ==> (r matches Err((k, m)) && k == RecoveryErrorKind::InvalidInput
            && m@ == "Relay session is not reconnectable"@),
        has_session && connection_id is None ==> (r matches Err((k, m)) && k == RecoveryErrorKind::NotConnected
            && m@ == "Relay connection id is unavailable"@),
        has_session && connection_id is Some && !has_resume_credential ==> (r matches Err((k, m))
            && k == RecoveryErrorKind::NotConnected && m@ == "Relay resume credential is unavailable"@),
        has_session && connection_id is Some && has_resume_credential ==> r == Ok::<u64, (RecoveryErrorKind, &'static str)>(connection_id->0),
{
    if !has_session {
        return Err((RecoveryErrorKind::InvalidInput, "Relay session is not reconnectable"));
    }
    let id = match connection_id {
        Some(id) => id,
        None => return Err((RecoveryErrorKind::NotConnected, "Relay connection id is unavailable")),
    };
    if !has_resume_credential {
        return Err((RecoveryErrorKind::NotConnected, "Relay resume credential is unavailable"));
    }
    Ok(id)
}

/// A reply of the relay while a resume is pending; codes are given by name.
pub enum ResumeReply {
    ResumeReady { connection_id: u64 },
    ResumeRejected { allow_full_join: bool, code: String },
    Error { code: String, retryable: bool, message: String },
    Other,
}

/// What the reconnect does with a reply.
pub enum ResumeDecision {
    /// The session resumed on the same connection id: the frame and probe
    /// counters carry over, and a UDP path is validated again.
    Resume,
    /// The relay refused the resume but allows a full join.
    FullJoin,
    /// The reconnect fails with this error.
    Fail { kind: RecoveryErrorKind, message: String },
    /// Not an answer to the resume: read the next reply.
    Wait,
}

/// What the reconnect does with `reply` while resuming `connection_id`.
pub open spec fn spec_resume_decided(d: ResumeDecision, connection_id: u64, reply: ResumeReply) -> bool {
    match reply {
        ResumeReply::ResumeReady { connection_id: returned } =>
            if returned == connection_id { d is Resume } else { d is Wait },
        ResumeReply::ResumeRejected { allow_full_join, code } => if allow_full_join {
            d is FullJoin
        } else {
            d matches ResumeDecision::Fail { kind, message }
                && kind == RecoveryErrorKind::PermissionDenied
                && message@ == "Relay resume rejected: "@ + code@
        },
        ResumeReply::Error { code, retryable, message } => d matches ResumeDecision::Fail { kind, message: m }
            && kind == RecoveryErrorKind::Other
            && m@ == "Relay recovery error "@ + code@ + " retryable="@
                + (if retryable { "true"@ } else { "false"@ }) + ": "@ + message@,
        ResumeReply::Other => d is Wait,
    }
}

/// Decides on one reply to a resume request: a ready reply for another
/// connection id, like any other message, is passed over.
pub fn resume_decision(connection_id: u64, reply: ResumeReply) -> (d: ResumeDecision)
    ensures
        spec_resume_decided(d, connection_id, reply),
{
    let ghost r = reply;
    match reply {
        ResumeReply::ResumeReady { connection_id: returned } => {
            if returned == connection_id { ResumeDecision::Resume } else { ResumeDecision::Wait }
        },
        ResumeReply::ResumeRejected { allow_full_join, code } => {
            if allow_full_join {
                ResumeDecision::FullJoin
            } else {
                let mut m = String::from_str("Relay resume rejected: ");
                push_str(&mut m, code.as_str());
                ResumeDecision::Fail { kind: RecoveryErrorKind::PermissionDenied, message: m }
            }
        },
        ResumeReply::Error { code, retryable, message } => {
            let mut m = String::from_str("Relay recovery error ");
            push_str(&mut m, code.as_str());
            push_str(&mut m, " retryable=");
            if retryable {
                push_str(&mut m, "true");
            } else {
                push_str(&mut m, "false");
            }
            push_str(&mut m, ": ");
            push_str(&mut m, message.as_str());
            ResumeDecision::Fail { kind: RecoveryErrorKind::Other, message: m }
        },
        ResumeReply::Other => ResumeDecision::Wait,
    }
}

} // verus!
