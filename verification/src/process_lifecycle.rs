//! The course of a session's game process: wait for it, inject the Native
//! Hook when the session uses one, then watch the process until it exits or
//! the session is cancelled. The caller waits, injects and polls; each step
//! here says what comes next.

use vstd::prelude::*;
use crate::process_choice::ProcessCandidate;
use crate::process_wait::WaitDecision;
use crate::text::{push_decimal, push_str, spec_decimal};

verus! {

/// Where the process lifecycle stands.
#[derive(Clone, Copy, Debug, PartialEq, Eq, Structural)]
pub enum LifecyclePhase {
    Waiting,
    Injecting,
    Watching,
    Done,
}

/// A lifecycle: its phase, whether the session injects the hook, and the
/// process bound.
#[derive(Clone, Copy, Debug, PartialEq, Eq, Structural)]
pub struct ProcessLifecycle {
    pub phase: LifecyclePhase,
    pub has_hook: bool,
    pub process: Option<ProcessCandidate>,
}

/// What the caller reports.
#[derive(Clone, Copy, Debug, PartialEq, Eq, Structural)]
pub enum LifecycleEvent {
    /// A poll of the wait decided this.
    Waited(WaitDecision),
    /// The injection finished; `session_cancelled` tells whether the session
    /// was cancelled meanwhile.
    InjectionFinished { session_cancelled: bool },
    /// A watch tick found the process running or not.
    Watched { running: bool },
    /// The session was cancelled.
    Cancelled,
}

/// What the caller does next.
#[derive(Clone, Copy, Debug, PartialEq, Eq, Structural)]
pub enum LifecycleAction {
    /// Sleep and poll the wait again (noting progress when asked).
    KeepWaiting,
    /// Inject the hook into the bound process.
    Inject { process: ProcessCandidate },
    /// Watch the bound process.
    Watch { process: ProcessCandidate },
    /// The wait was cancelled: report it, and end without a failure.
    ReportWaitCancelled,
    /// No process came in time: report the failure, count it, end the
    /// session with it and cancel.
    FailWaitTimedOut,
    /// The bound process exited: end the session as the game exiting, and
    /// cancel.
    EndGameExited { process: ProcessCandidate },
    /// Nothing more to do.
    Stop,
}

/// The lifecycle after event `e`, and its action.
pub open spec fn spec_lifecycle_step(s: ProcessLifecycle, e: LifecycleEvent) -> (ProcessLifecycle, LifecycleAction) {
    let done = ProcessLifecycle { phase: LifecyclePhase::Done, ..s };
    match s.phase {
        LifecyclePhase::Waiting => match e {
            LifecycleEvent::Cancelled => (done, LifecycleAction::ReportWaitCancelled),
            LifecycleEvent::Waited(WaitDecision::TimedOut) => (done, LifecycleAction::FailWaitTimedOut),
            LifecycleEvent::Waited(WaitDecision::Bound { process, .. }) => if s.has_hook {
                (ProcessLifecycle { phase: LifecyclePhase::Injecting, process: Some(process), ..s }, LifecycleAction::Inject { process })
            } else {
                (ProcessLifecycle { phase: LifecyclePhase::Watching, process: Some(process), ..s }, LifecycleAction::Watch { process })
            },
            _ => (s, LifecycleAction::KeepWaiting),
        },
        LifecyclePhase::Injecting => match e {
            LifecycleEvent::Cancelled => (done, LifecycleAction::Stop),
            LifecycleEvent::InjectionFinished { session_cancelled } => if session_cancelled || s.process is None {
                (done, LifecycleAction::Stop)
            } else {
                (ProcessLifecycle { phase: LifecyclePhase::Watching, ..s }, LifecycleAction::Watch { process: s.process->0 })
            },
            _ => (s, match s.process { Some(p) => LifecycleAction::Inject { process: p }, None => LifecycleAction::Stop }),
        },
        LifecyclePhase::Watching => match e {
            LifecycleEvent::Cancelled => (done, LifecycleAction::Stop),
            LifecycleEvent::Watched { running } => match s.process {
                Some(p) => if running {
                    (s, LifecycleAction::Watch { process: p })
                } else {
                    (done, LifecycleAction::EndGameExited { process: p })
                },
                None => (done, LifecycleAction::Stop),
            },
            _ => (s, match s.process { Some(p) => LifecycleAction::Watch { process: p }, None => LifecycleAction::Stop }),
        },
        LifecyclePhase::Done => (s, LifecycleAction::Stop),
    }
}

impl ProcessLifecycle {
    /// A lifecycle waiting for the process.
    pub fn new(has_hook: bool) -> (s: ProcessLifecycle)
        ensures
            s == (ProcessLifecycle { phase: LifecyclePhase::Waiting, has_hook, process: None }),
    {
        ProcessLifecycle { phase: LifecyclePhase::Waiting, has_hook, process: None }
    }

    /// Takes in one event.
    pub fn step(&mut self, e: LifecycleEvent) -> (a: LifecycleAction)
        ensures
            (*final(self), a) == spec_lifecycle_step(*old(self), e),
    {
        match self.phase {
            LifecyclePhase::Waiting => match e {
                LifecycleEvent::Cancelled => {
                    self.phase = LifecyclePhase::Done;
                    LifecycleAction::ReportWaitCancelled
                },
                LifecycleEvent::Waited(WaitDecision::TimedOut) => {
                    self.phase = LifecyclePhase::Done;
                    LifecycleAction::FailWaitTimedOut
                },
                LifecycleEvent::Waited(WaitDecision::Bound { process, .. }) => {
                    self.process = Some(process);
                    if self.has_hook {
                        self.phase = LifecyclePhase::Injecting;
                        LifecycleAction::Inject { process }
                    } else {
                        self.phase = LifecyclePhase::Watching;
                        LifecycleAction::Watch { process }
                    }
                },
                _ => LifecycleAction::KeepWaiting,
            },
            LifecyclePhase::Injecting => match e {
                LifecycleEvent::Cancelled => {
                    self.phase = LifecyclePhase::Done;
                    LifecycleAction::Stop
                },
                LifecycleEvent::InjectionFinished { session_cancelled } => match self.process {
                    Some(p) => {
                        if session_cancelled {
                            self.phase = LifecyclePhase::Done;
                            LifecycleAction::Stop
                        } else {
                            self.phase = LifecyclePhase::Watching;
                            LifecycleAction::Watch { process: p }
                        }
                    },
                    None => {
                        self.phase = LifecyclePhase::Done;
                        LifecycleAction::Stop
                    },
                },
                _ => match self.process {
                    Some(p) => LifecycleAction::Inject { process: p },
                    None => LifecycleAction::Stop,
                },
            },
            LifecyclePhase::Watching => match e {
                LifecycleEvent::Cancelled => {
                    self.phase = LifecyclePhase::Done;
                    LifecycleAction::Stop
                },
                LifecycleEvent::Watched { running } => match self.process {
                    Some(p) => {
                        if running {
                            LifecycleAction::Watch { process: p }
                        } else {
                            self.phase = LifecyclePhase::Done;
                            LifecycleAction::EndGameExited { process: p }
                        }
                    },
                    None => {
                        self.phase = LifecyclePhase::Done;
                        LifecycleAction::Stop
                    },
                },
                _ => match self.process {
                    Some(p) => LifecycleAction::Watch { process: p },
                    None => LifecycleAction::Stop,
                },
            },
            LifecyclePhase::Done => LifecycleAction::Stop,
        }
    }
}

/// The failure a wait that found no process ends the session with.
pub fn wait_timeout_message(wait_timeout_seconds: u64) -> (m: String)
    ensures
        m@ == "Isaac process was not found within "@ + spec_decimal(wait_timeout_seconds as nat) + " seconds"@,
{
    let mut m = String::from_str("Isaac process was not found within ");
    push_decimal(&mut m, wait_timeout_seconds as u128);
    push_str(&mut m, " seconds");
    m
}

/// The note logged while the wait goes on.
pub fn still_waiting_message(elapsed_seconds: u64) -> (m: String)
    ensures
        m@ == "Still waiting for Isaac process after "@ + spec_decimal(elapsed_seconds as nat) + " seconds"@,
{
    let mut m = String::from_str("Still waiting for Isaac process after ");
    push_decimal(&mut m, elapsed_seconds as u128);
    push_str(&mut m, " seconds");
    m
}

/// A session ends at most once: once done, the lifecycle stays done and
/// asks for nothing more, and a game exit is reported only for the process
/// that was bound.
pub proof fn law_ends_once(s: ProcessLifecycle, e: LifecycleEvent)
    ensures
        s.phase == LifecyclePhase::Done ==> spec_lifecycle_step(s, e) == (s, LifecycleAction::Stop),
        spec_lifecycle_step(s, e).1 matches LifecycleAction::EndGameExited { process } ==> s.process == Some(process),
{
}

} // verus!
