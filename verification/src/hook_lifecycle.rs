//! Texts, limits and outcomes of Native Hook injection.

use vstd::prelude::*;
use crate::logging::LogLevel;
use crate::text::{push_decimal, push_str, spec_decimal};

verus! {

/// Seconds the injector helper may take before the startup fails.
pub const INJECTOR_HELPER_TIMEOUT_SECONDS: u64 = 60;
pub const ADMIN_PERMISSION_REQUEST_MESSAGE: &'static str = "Requesting admin permission...";
pub const ADMIN_PERMISSION_CANCELLED_MESSAGE: &'static str = "Admin permission was cancelled";
pub const ELEVATED_INJECTOR_RETRY_SUCCEEDED_MESSAGE: &'static str = "Elevated Injector retry succeeded";
pub const STALE_NATIVE_HOOK_MESSAGE: &'static str = "Native Hook is already loaded from an earlier session. Fully exit Isaac, then start it again.";
/// Advice added to an access-denied injection failure.
pub const ACCESS_DENIED_ADVICE: &'static str = "; access denied usually means Bridge GUI, Steam, and Isaac need matching privilege levels or security software allowed the helper";

/// The message shown for an injection failure: a fixed text for a hook left
/// loaded by an earlier session or a cancelled permission prompt, the
/// failure's own text with advice for access denied, else its own text.
pub fn injection_support_message(
    native_hook_already_loaded: bool,
    admin_permission_cancelled: bool,
    access_denied: bool,
    error_text: &str,
) -> (m: String)
    ensures
        m@ == (if native_hook_already_loaded {
            STALE_NATIVE_HOOK_MESSAGE@
        } else if admin_permission_cancelled {
            ADMIN_PERMISSION_CANCELLED_MESSAGE@
        } else if access_denied {
            error_text@ + ACCESS_DENIED_ADVICE@
        } else {
            error_text@
        }),
{
    if native_hook_already_loaded {
        return String::from_str(STALE_NATIVE_HOOK_MESSAGE);
    }
    if admin_permission_cancelled {
        return String::from_str(ADMIN_PERMISSION_CANCELLED_MESSAGE);
    }
    let mut message = String::from_str(error_text);
    if access_denied {
        message.append(ACCESS_DENIED_ADVICE);
    }
    message
}


/// Where the hook's startup stands, as injection reports it.
#[derive(Clone, Copy, Debug, PartialEq, Eq, Structural)]
pub enum HookStartupPhase {
    Injecting,
    Cancelled,
    Failed,
    WaitingForHookEndpoint,
}

/// What the injector helper came to.
pub enum InjectionResult {
    /// The session was cancelled while the helper ran.
    Cancelled,
    Injected,
    /// The helper reported a failure; its kind and text.
    Failed { native_hook_already_loaded: bool, admin_permission_cancelled: bool, access_denied: bool, error_text: String },
    /// The task running the helper failed; its text.
    TaskFailed { error_text: String },
    /// The helper ran past its time limit.
    TimedOut,
}

/// What the session does with an injection's result: the startup state to
/// publish (phase and message), the log line, whether an error is counted,
/// and the failure that ends the session (the hook probe fails with it too).
pub struct InjectionOutcome {
    pub phase: Option<HookStartupPhase>,
    pub startup_message: Option<String>,
    pub access_denied: bool,
    pub injected: bool,
    pub log_level: LogLevel,
    pub log_text: String,
    pub count_error: bool,
    pub session_end: Option<String>,
}

/// `<name> (<pid>)`.
pub open spec fn spec_process_label(name: Seq<char>, pid: u32) -> Seq<char> {
    name + " ("@ + spec_decimal(pid as nat) + ")"@
}

/// The text an injection failure is reported with.
pub open spec fn spec_failure_text(already_loaded: bool, permission_cancelled: bool, access_denied: bool, error_text: Seq<char>) -> Seq<char> {
    if already_loaded {
        STALE_NATIVE_HOOK_MESSAGE@
    } else if permission_cancelled {
        ADMIN_PERMISSION_CANCELLED_MESSAGE@
    } else if access_denied {
        error_text + ACCESS_DENIED_ADVICE@
    } else {
        error_text
    }
}

fn process_label(out: &mut String, name: &str, pid: u32)
    ensures
        final(out)@ == old(out)@ + spec_process_label(name@, pid),
{
    push_str(out, name);
    push_str(out, " (");
    push_decimal(out, pid as u128);
    push_str(out, ")");
    proof {
        assert(final(out)@ =~= old(out)@ + spec_process_label(name@, pid));
    }
}

/// The log line that starts the injector helper.
pub fn injection_start_log(process_name: &str, pid: u32, injector_path: &str, hook_path: &str) -> (t: String)
    ensures
        t@ == "Starting Native Hook injector helper for "@ + spec_process_label(process_name@, pid)
            + ": injector="@ + injector_path@ + " hook="@ + hook_path@,
{
    let mut t = String::from_str("Starting Native Hook injector helper for ");
    process_label(&mut t, process_name, pid);
    push_str(&mut t, ": injector=");
    push_str(&mut t, injector_path);
    push_str(&mut t, " hook=");
    push_str(&mut t, hook_path);
    t
}

/// Decides what an injection's result means for the session: success
/// waits for the hook's endpoint; cancellation is logged; a failure, a
/// failed helper task or a timeout is logged as an error, counted, and ends
/// the session (only the task failure publishes no startup state).
pub fn injection_outcome(result: InjectionResult, process_name: &str, pid: u32, hook_path: &str) -> (o: InjectionOutcome)
    ensures
        match result {
            InjectionResult::Cancelled => {
                &&& o.phase == Some(HookStartupPhase::Cancelled)
                &&& o.startup_message matches Some(m) && m@ == "Native Hook injection cancelled while injector helper was running"@
                &&& !o.injected && !o.access_denied && !o.count_error && o.session_end is None
                &&& o.log_level == LogLevel::Info && o.log_text@ == "Native Hook injection cancelled"@
            },
            InjectionResult::Injected => {
                &&& o.phase == Some(HookStartupPhase::WaitingForHookEndpoint)
                &&& o.startup_message matches Some(m) && m@ == "Injection succeeded; waiting for local IPC handshake"@
                &&& o.injected && !o.access_denied && !o.count_error && o.session_end is None
                &&& o.log_level == LogLevel::Info
                &&& o.log_text@ == "Native Hook injected into "@ + spec_process_label(process_name@, pid) + " from "@ + hook_path@
            },
            InjectionResult::Failed { native_hook_already_loaded, admin_permission_cancelled, access_denied, error_text } => {
                let m = "Native Hook injection failed: "@
                    + spec_failure_text(native_hook_already_loaded, admin_permission_cancelled, access_denied, error_text@);
                &&& o.phase == Some(HookStartupPhase::Failed)
                &&& o.startup_message matches Some(s) && s@ == m
                &&& o.access_denied == access_denied && !o.injected && o.count_error
                &&& o.log_level == LogLevel::Error && o.log_text@ == m
                &&& o.session_end matches Some(e) && e@ == m
            },
            InjectionResult::TaskFailed { error_text } => {
                let m = "Native Hook injection task failed: "@ + error_text@;
                &&& o.phase is None && o.startup_message is None
                &&& !o.access_denied && !o.injected && o.count_error
                &&& o.log_level == LogLevel::Error && o.log_text@ == m
                &&& o.session_end matches Some(e) && e@ == m
            },
            InjectionResult::TimedOut => {
                let m = "Native Hook injector helper timed out after "@ + spec_decimal(INJECTOR_HELPER_TIMEOUT_SECONDS as nat) + " seconds"@;
                &&& o.phase == Some(HookStartupPhase::Failed)
                &&& o.startup_message matches Some(s) && s@ == m
                &&& !o.access_denied && !o.injected && o.count_error
                &&& o.log_level == LogLevel::Error && o.log_text@ == m
                &&& o.session_end matches Some(e) && e@ == m
            },
        },
{
    let ghost r = result;
    match result {
        InjectionResult::Cancelled => InjectionOutcome {
            phase: Some(HookStartupPhase::Cancelled),
            startup_message: Some(String::from_str("Native Hook injection cancelled while injector helper was running")),
            access_denied: false,
            injected: false,
            log_level: LogLevel::Info,
            log_text: String::from_str("Native Hook injection cancelled"),
            count_error: false,
            session_end: None,
        },
        InjectionResult::Injected => {
            let mut t = String::from_str("Native Hook injected into ");
            process_label(&mut t, process_name, pid);
            push_str(&mut t, " from ");
            push_str(&mut t, hook_path);
            InjectionOutcome {
                phase: Some(HookStartupPhase::WaitingForHookEndpoint),
                startup_message: Some(String::from_str("Injection succeeded; waiting for local IPC handshake")),
                access_denied: false,
                injected: true,
                log_level: LogLevel::Info,
                log_text: t,
                count_error: false,
                session_end: None,
            }
        },
        InjectionResult::Failed { native_hook_already_loaded, admin_permission_cancelled, access_denied, error_text } => {
            let support = injection_support_message(native_hook_already_loaded, admin_permission_cancelled, access_denied, error_text.as_str());
            let mut m = String::from_str("Native Hook injection failed: ");
            push_str(&mut m, support.as_str());
            let mut startup = String::from_str("Native Hook injection failed: ");
            push_str(&mut startup, support.as_str());
            let mut end = String::from_str("Native Hook injection failed: ");
            push_str(&mut end, support.as_str());
            InjectionOutcome {
                phase: Some(HookStartupPhase::Failed),
                startup_message: Some(startup),
                access_denied,
                injected: false,
                log_level: LogLevel::Error,
                log_text: m,
                count_error: true,
                session_end: Some(end),
            }
        },
        InjectionResult::TaskFailed { error_text } => {
            let mut m = String::from_str("Native Hook injection task failed: ");
            push_str(&mut m, error_text.as_str());
            let mut end = String::from_str("Native Hook injection task failed: ");
            push_str(&mut end, error_text.as_str());
            InjectionOutcome {
                phase: None,
                startup_message: None,
                access_denied: false,
                injected: false,
                log_level: LogLevel::Error,
                log_text: m,
                count_error: true,
                session_end: Some(end),
            }
        },
        InjectionResult::TimedOut => {
            let mut m = String::from_str("Native Hook injector helper timed out after ");
            push_decimal(&mut m, INJECTOR_HELPER_TIMEOUT_SECONDS as u128);
            push_str(&mut m, " seconds");
            let mut startup = String::from_str("Native Hook injector helper timed out after ");
            push_decimal(&mut startup, INJECTOR_HELPER_TIMEOUT_SECONDS as u128);
            push_str(&mut startup, " seconds");
            let mut end = String::from_str("Native Hook injector helper timed out after ");
            push_decimal(&mut end, INJECTOR_HELPER_TIMEOUT_SECONDS as u128);
            push_str(&mut end, " seconds");
            InjectionOutcome {
                phase: Some(HookStartupPhase::Failed),
                startup_message: Some(startup),
                access_denied: false,
                injected: false,
                log_level: LogLevel::Error,
                log_text: m,
                count_error: true,
                session_end: Some(end),
            }
        },
    }
}

} // verus!
