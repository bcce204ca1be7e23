//! Reading and writing the game's input delay through the Native Hook: when
//! it is available, what evidence a recommendation needs, and how results
//! are recorded.

use vstd::prelude::*;
use crate::session_config::SessionMode;
use crate::session_health::SessionQuality;
use crate::smoothness::SmoothnessSnapshot;
use crate::text::{push_str, push_decimal};

verus! {

#[derive(Clone, Copy, Debug, PartialEq, Eq, Structural)]
pub struct InputDelayReport {
    pub value: i32,
}

#[derive(Clone, Copy, Debug, PartialEq, Eq, Structural)]
pub enum InputDelayOperation {
    Read,
    Write,
}

impl InputDelayOperation {
    pub open spec fn spec_name(self) -> Seq<char> {
        match self {
            InputDelayOperation::Read => "read"@,
            InputDelayOperation::Write => "write"@,
        }
    }

    /// `read` or `write`.
    pub fn name(self) -> (s: &'static str)
        ensures
            s@ == self.spec_name(),
    {
        proof {
            reveal_strlit("read");
            reveal_strlit("write");
        }
        match self {
            InputDelayOperation::Read => "read",
            InputDelayOperation::Write => "write",
        }
    }
}

/// The last input-delay request: what was asked, what came back, and when.
#[derive(Debug, PartialEq, Eq)]
pub struct InputDelayStatus {
    pub operation: InputDelayOperation,
    pub result: Result<i32, String>,
    pub updated_at: u64,
}

#[derive(Clone, Copy, Debug, PartialEq, Eq, Structural)]
pub enum InputDelayEvidenceBlocker {
    SessionNotRunning,
    UnsupportedMode,
    HookNotReady,
    CurrentDelayUnknown,
    SmoothnessUnavailable,
}

/// Whether a delay recommendation can be made, and on what evidence.
#[derive(Debug)]
pub struct InputDelayEvidence {
    pub recommendation_possible: bool,
    pub blocker: Option<InputDelayEvidenceBlocker>,
    pub current_delay: Option<i32>,
    pub current_delay_observed_at: Option<u64>,
    pub smoothness: SmoothnessSnapshot,
}

/// Why an input-delay request was refused or failed.
#[derive(Clone, Debug, PartialEq, Eq)]
pub enum InputDelayError {
    SessionNotRunning,
    UnsupportedMode,
    HookNotReady,
    /// The hook answered with an error, named here.
    Hook(String),
    /// The request could not be carried; the text says why.
    Io(String),
}

impl InputDelayError {
    pub open spec fn spec_message(&self) -> Seq<char> {
        match self {
            InputDelayError::SessionNotRunning => "session is not running"@,
            InputDelayError::UnsupportedMode => "input delay is only available in Fallback or Pure mode"@,
            InputDelayError::HookNotReady => "Native Hook is not ready"@,
            InputDelayError::Hook(code) => "Native Hook returned "@ + code@,
            InputDelayError::Io(text) => text@,
        }
    }

    /// The error's text.
    pub fn message(&self) -> (s: String)
        ensures
            s@ == self.spec_message(),
    {
        proof {
            reveal_strlit("session is not running");
            reveal_strlit("input delay is only available in Fallback or Pure mode");
            reveal_strlit("Native Hook is not ready");
        }
        match self {
            InputDelayError::SessionNotRunning => String::from_str("session is not running"),
            InputDelayError::UnsupportedMode => String::from_str("input delay is only available in Fallback or Pure mode"),
            InputDelayError::HookNotReady => String::from_str("Native Hook is not ready"),
            InputDelayError::Hook(code) => {
                let mut s = String::new();
                push_str(&mut s, "Native Hook returned ");
                push_str(&mut s, code.as_str());
                s
            },
            InputDelayError::Io(text) => String::from_str(text.as_str()),
        }
    }
}

/// Fallback and Pure sessions can change the input delay.
pub open spec fn spec_mode_supported(mode: Option<SessionMode>) -> bool {
    mode == Some(SessionMode::Fallback) || mode == Some(SessionMode::Pure)
}

/// The delay can be read or written only in a running Fallback or Pure
/// session whose hook is connected.
pub fn ensure_input_delay_available(
    session_running: bool,
    active_session_mode: Option<SessionMode>,
    hook_connected: bool,
) -> (r: Result<(), InputDelayError>)
    ensures
        !session_running ==> r == Err::<(), InputDelayError>(InputDelayError::SessionNotRunning),
        session_running && !spec_mode_supported(active_session_mode) ==> r == Err::<(), InputDelayError>(InputDelayError::UnsupportedMode),
        session_running && spec_mode_supported(active_session_mode) && !hook_connected ==> r == Err::<(), InputDelayError>(InputDelayError::HookNotReady),
        session_running && spec_mode_supported(active_session_mode) && hook_connected ==> r is Ok,
{
    if !session_running {
        return Err(InputDelayError::SessionNotRunning);
    }
    match active_session_mode {
        Some(SessionMode::Fallback) | Some(SessionMode::Pure) => {},
        _ => return Err(InputDelayError::UnsupportedMode),
    }
    if !hook_connected {
        return Err(InputDelayError::HookNotReady);
    }
    Ok(())
}

/// The client state that input-delay evidence is read from.
#[derive(Debug)]
pub struct InputDelayContext {
    pub session_running: bool,
    pub active_session_mode: Option<SessionMode>,
    pub hook_connected: bool,
    pub latest_input_delay_status: Option<InputDelayStatus>,
    pub smoothness: SmoothnessSnapshot,
}

/// The delay last read or written successfully.
pub open spec fn spec_current_delay(status: Option<InputDelayStatus>) -> Option<i32> {
    match status {
        Some(s) => match s.result {
            Ok(v) => Some(v),
            Err(_) => None,
        },
        None => None,
    }
}

/// What first stands in the way of a recommendation, if anything.
pub open spec fn spec_blocker(c: InputDelayContext) -> Option<InputDelayEvidenceBlocker> {
    if !c.session_running {
        Some(InputDelayEvidenceBlocker::SessionNotRunning)
    } else if !spec_mode_supported(c.active_session_mode) {
        Some(InputDelayEvidenceBlocker::UnsupportedMode)
    } else if !c.hook_connected {
        Some(InputDelayEvidenceBlocker::HookNotReady)
    } else if spec_current_delay(c.latest_input_delay_status) is None {
        Some(InputDelayEvidenceBlocker::CurrentDelayUnknown)
    } else if c.smoothness.level == SessionQuality::Unavailable {
        Some(InputDelayEvidenceBlocker::SmoothnessUnavailable)
    } else {
        None
    }
}

/// The evidence for an input-delay recommendation; reading it changes nothing.
pub fn input_delay_evidence(context: &InputDelayContext) -> (e: InputDelayEvidence)
    ensures
        e.blocker == spec_blocker(*context),
        e.recommendation_possible == (spec_blocker(*context) is None),
        e.current_delay == spec_current_delay(context.latest_input_delay_status),
        e.current_delay_observed_at == (match spec_current_delay(context.latest_input_delay_status) {
            Some(_) => Some(context.latest_input_delay_status->Some_0.updated_at),
            None => None,
        }),
        crate::smoothness::same_smoothness(e.smoothness, context.smoothness),
{
    let current_delay = match &context.latest_input_delay_status {
        Some(status) => match &status.result {
            Ok(v) => Some(*v),
            Err(_) => None,
        },
        None => None,
    };
    let current_delay_observed_at = match current_delay {
        Some(_) => match &context.latest_input_delay_status {
            Some(status) => Some(status.updated_at),
            None => None,
        },
        None => None,
    };
    let mode_supported = match context.active_session_mode {
        Some(SessionMode::Fallback) | Some(SessionMode::Pure) => true,
        _ => false,
    };
    let blocker = if !context.session_running {
        Some(InputDelayEvidenceBlocker::SessionNotRunning)
    } else if !mode_supported {
        Some(InputDelayEvidenceBlocker::UnsupportedMode)
    } else if !context.hook_connected {
        Some(InputDelayEvidenceBlocker::HookNotReady)
    } else if current_delay.is_none() {
        Some(InputDelayEvidenceBlocker::CurrentDelayUnknown)
    } else if context.smoothness.level == SessionQuality::Unavailable {
        Some(InputDelayEvidenceBlocker::SmoothnessUnavailable)
    } else {
        None
    };
    InputDelayEvidence {
        recommendation_possible: blocker.is_none(),
        blocker,
        current_delay,
        current_delay_observed_at,
        smoothness: context.smoothness.duplicate(),
    }
}

/// The status recorded for a finished request: the value, or the error's text.
pub fn input_delay_status(
    operation: InputDelayOperation,
    result: &Result<InputDelayReport, InputDelayError>,
    updated_at: u64,
) -> (s: InputDelayStatus)
    ensures
        s.operation == operation,
        s.updated_at == updated_at,
        match (s.result, *result) {
            (Ok(v), Ok(report)) => v == report.value,
            (Err(text), Err(error)) => text@ == error.spec_message(),
            _ => false,
        },
{
    let status_result = match result {
        Ok(report) => Ok(report.value),
        Err(error) => Err(error.message()),
    };
    InputDelayStatus { operation, result: status_result, updated_at }
}

/// `value` in decimal, with a sign when negative.
pub open spec fn spec_signed_decimal(value: i32) -> Seq<char> {
    if value < 0 {
        "-"@ + crate::text::spec_decimal((-(value as int)) as nat)
    } else {
        crate::text::spec_decimal(value as nat)
    }
}

/// The log line of a finished request.
pub fn input_delay_log_text(
    operation: InputDelayOperation,
    result: &Result<InputDelayReport, InputDelayError>,
) -> (s: String)
    ensures
        s@ == match *result {
            Ok(report) => "Input delay "@ + operation.spec_name() + " succeeded value="@
                + spec_signed_decimal(report.value),
            Err(error) => "Input delay "@ + operation.spec_name() + " failed error="@ + error.spec_message(),
        },
{
    let mut s = String::new();
    push_str(&mut s, "Input delay ");
    push_str(&mut s, operation.name());
    match result {
        Ok(report) => {
            push_str(&mut s, " succeeded value=");
            if report.value < 0 {
                push_str(&mut s, "-");
                push_decimal(&mut s, (-(report.value as i64)) as u128);
            } else {
                push_decimal(&mut s, report.value as u128);
            }
        },
        Err(error) => {
            push_str(&mut s, " failed error=");
            let text = error.message();
            push_str(&mut s, text.as_str());
        },
    }
    s
}

/// Request ids come from a counter that starts at 1 and wraps.
pub fn next_request_id(counter: &mut u32) -> (id: u32)
    ensures
        id == *old(counter),
        *final(counter) == (if *old(counter) == u32::MAX { 0 } else { (*old(counter) + 1) as u32 }),
{
    let id = *counter;
    *counter = counter.wrapping_add(1);
    id
}

} // verus!
