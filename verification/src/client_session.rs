//! The session state the bridge client keeps across starts, stops and the
//! events its workers report: whether a session runs and in which mode, why
//! the last one ended, and which probes are under way. The first reason a
//! session reports for ending is the one kept; a stop by the player is
//! recorded only when no other reason came first.

use vstd::prelude::*;
use crate::logging::LogLevel;
use crate::probe::LightPingReport;
use crate::session_config::{RelayEndpoint, SessionMode};
use crate::text::same_text;

verus! {

/// Whether a session runs.
#[derive(Clone, Copy, Debug, PartialEq, Eq, Structural)]
pub enum SessionStatus {
    Idle,
    Running,
}

/// Why a session ended.
#[derive(Clone, Debug, PartialEq, Eq)]
pub enum SessionStopReason {
    UserStopped,
    GameExited { process_name: String, pid: u32 },
    RuntimeEnded { message: String },
}

/// What a worker reports, as far as the session state is concerned.
pub enum RuntimeEvent {
    SessionEnded(SessionStopReason),
    Stopped,
    ReadinessProbeFinished,
    /// The hook receive probe finished; `error` is its failure, if it failed.
    HookReceiveProbeFinished { error: Option<String> },
    /// Any other report: logs, counters, health and path snapshots.
    Other,
}

/// The client's session state. `session_active` says whether a session
/// worker is attached.
pub struct ClientSession {
    pub status: SessionStatus,
    pub active_session_mode: Option<SessionMode>,
    pub last_stop_reason: Option<SessionStopReason>,
    pub session_active: bool,
    pub readiness_probe_running: bool,
    pub hook_probe_running: bool,
    pub latest_hook_receive_probe_error: Option<String>,
}

/// A line for the client's log.
#[derive(Clone, Debug, PartialEq, Eq)]
pub struct LogLine {
    pub level: LogLevel,
    pub text: String,
}

/// A probe that is asked to start while it runs.
#[derive(Clone, Copy, Debug, PartialEq, Eq, Structural)]
pub enum ProbeStartError {
    ReadinessProbeRunning,
    HookReceiveProbeRunning,
}

impl ProbeStartError {
    /// The message of the refusal.
    pub fn message(&self) -> (m: &'static str)
        ensures
            m@ == (match *self {
                ProbeStartError::ReadinessProbeRunning => "readiness probe is already running"@,
                ProbeStartError::HookReceiveProbeRunning => "hook receive probe is already running"@,
            }),
    {
        match self {
            ProbeStartError::ReadinessProbeRunning => "readiness probe is already running",
            ProbeStartError::HookReceiveProbeRunning => "hook receive probe is already running",
        }
    }
}

/// The stop reason after `events`: the one already recorded, else the
/// first the events report.
pub open spec fn spec_first_reason(r: Option<SessionStopReason>, events: Seq<RuntimeEvent>) -> Option<SessionStopReason>
    decreases events.len(),
{
    if events.len() == 0 {
        r
    } else {
        let before = spec_first_reason(r, events.drop_last());
        if before is None && events.last() is SessionEnded {
            Some(events.last()->SessionEnded_0)
        } else {
            before
        }
    }
}

/// Some event is `Stopped`.
pub open spec fn spec_any_stopped(events: Seq<RuntimeEvent>) -> bool {
    exists|i: int| 0 <= i < events.len() && #[trigger] events[i] is Stopped
}

pub open spec fn spec_any_readiness_finished(events: Seq<RuntimeEvent>) -> bool {
    exists|i: int| 0 <= i < events.len() && #[trigger] events[i] is ReadinessProbeFinished
}

pub open spec fn spec_any_hook_probe_finished(events: Seq<RuntimeEvent>) -> bool {
    exists|i: int| 0 <= i < events.len() && #[trigger] events[i] is HookReceiveProbeFinished
}

/// The last hook probe failure after `events`: that of the last finished
/// hook probe among them (none when it succeeded), else `e`.
pub open spec fn spec_hook_error(e: Option<String>, events: Seq<RuntimeEvent>) -> Option<String>
    decreases events.len(),
{
    if events.len() == 0 {
        e
    } else if events.last() is HookReceiveProbeFinished {
        events.last()->error
    } else {
        spec_hook_error(e, events.drop_last())
    }
}

proof fn lemma_skip_step<A>(s: Seq<A>, k: int)
    requires
        0 <= k < s.len(),
    ensures
        s.skip(k)[0] == s[k],
        s.skip(k).remove(0) == s.skip(k + 1),
        s.take(k + 1).drop_last() == s.take(k),
        s.take(k + 1).last() == s[k],
{
    assert(s.skip(k).remove(0) =~= s.skip(k + 1));
    assert(s.take(k + 1).drop_last() =~= s.take(k));
}

impl ClientSession {
    /// A client with no session, no stop reason and no probe running.
    pub fn new() -> (c: ClientSession)
        ensures
            c.status == SessionStatus::Idle,
            c.active_session_mode is None,
            c.last_stop_reason is None,
            !c.session_active && !c.readiness_probe_running && !c.hook_probe_running,
            c.latest_hook_receive_probe_error is None,
    {
        ClientSession {
            status: SessionStatus::Idle,
            active_session_mode: None,
            last_stop_reason: None,
            session_active: false,
            readiness_probe_running: false,
            hook_probe_running: false,
            latest_hook_receive_probe_error: None,
        }
    }

    /// Takes in the reports the workers queued, in order. A `Stopped`
    /// report returns the client to idle and detaches the session; a probe
    /// that finished no longer runs, and a finished hook probe leaves its
    /// failure (or none) as the latest. Returns whether there was any report.
    pub fn poll_events(&mut self, events: Vec<RuntimeEvent>) -> (processed: bool)
        ensures
            processed == (events@.len() > 0),
            final(self).last_stop_reason == spec_first_reason(old(self).last_stop_reason, events@),
            final(self).status == (if spec_any_stopped(events@) { SessionStatus::Idle } else { old(self).status }),
            final(self).active_session_mode == (if spec_any_stopped(events@) { None } else { old(self).active_session_mode }),
            final(self).session_active == (!spec_any_stopped(events@) && old(self).session_active),
            final(self).readiness_probe_running == (!spec_any_readiness_finished(events@) && old(self).readiness_probe_running),
            final(self).hook_probe_running == (!spec_any_hook_probe_finished(events@) && old(self).hook_probe_running),
            final(self).latest_hook_receive_probe_error == spec_hook_error(old(self).latest_hook_receive_probe_error, events@),
    {
        let ghost all = events@;
        let processed = events.len() > 0;
        let mut rest = events;
        let mut stopped = false;
        let mut readiness_done = false;
        let mut hook_done = false;
        let ghost mut k: int = 0;
        while rest.len() > 0
            invariant
                0 <= k <= all.len(),
                rest@ == all.skip(k),
                self.last_stop_reason == spec_first_reason(old(self).last_stop_reason, all.take(k)),
                stopped == spec_any_stopped(all.take(k)),
                readiness_done == spec_any_readiness_finished(all.take(k)),
                hook_done == spec_any_hook_probe_finished(all.take(k)),
                self.latest_hook_receive_probe_error == spec_hook_error(old(self).latest_hook_receive_probe_error, all.take(k)),
                self.status == old(self).status,
                self.active_session_mode == old(self).active_session_mode,
                self.session_active == old(self).session_active,
                self.readiness_probe_running == old(self).readiness_probe_running,
                self.hook_probe_running == old(self).hook_probe_running,
            decreases rest@.len(),
        {
            proof {
                lemma_skip_step(all, k);
            }
            let e = rest.remove(0);
            proof {
                assert(e == all[k]);
                assert(all.take(k + 1)[k] == all[k]);
                assert forall|i: int| 0 <= i < k implies all.take(k + 1)[i] == #[trigger] all.take(k)[i] by {}
            }
            match e {
                RuntimeEvent::SessionEnded(reason) => {
                    if self.last_stop_reason.is_none() {
                        self.last_stop_reason = Some(reason);
                    }
                },
                RuntimeEvent::Stopped => {
                    stopped = true;
                },
                RuntimeEvent::ReadinessProbeFinished => {
                    readiness_done = true;
                },
                RuntimeEvent::HookReceiveProbeFinished { error } => {
                    hook_done = true;
                    self.latest_hook_receive_probe_error = error;
                },
                RuntimeEvent::Other => {},
            }
            proof {
                k = k + 1;
            }
        }
        proof {
            assert(all.take(k) =~= all);
        }
        if stopped {
            self.status = SessionStatus::Idle;
            self.active_session_mode = None;
            self.session_active = false;
        }
        if readiness_done {
            self.readiness_probe_running = false;
        }
        if hook_done {
            self.hook_probe_running = false;
        }
        processed
    }

    /// Stops the session. When one is attached, the reports it still held
    /// (`remaining`) are taken in for their stop reasons, and the player's
    /// stop is recorded unless a reason came first. The client is then idle,
    /// and the line `Session stopped` is logged, on every stop.
    pub fn stop_session(&mut self, remaining: Vec<RuntimeEvent>) -> (line: LogLine)
        ensures
            line.level == LogLevel::Info && line.text@ == "Session stopped"@,
            final(self).status == SessionStatus::Idle,
            final(self).active_session_mode is None,
            !final(self).session_active,
            final(self).last_stop_reason == (if old(self).session_active {
                match spec_first_reason(old(self).last_stop_reason, remaining@) {
                    Some(r) => Some(r),
                    None => Some(SessionStopReason::UserStopped),
                }
            } else {
                old(self).last_stop_reason
            }),
            final(self).readiness_probe_running == old(self).readiness_probe_running,
            final(self).hook_probe_running == old(self).hook_probe_running,
            final(self).latest_hook_receive_probe_error == old(self).latest_hook_receive_probe_error,
    {
        if self.session_active {
            self.session_active = false;
            let ghost all = remaining@;
            let mut rest = remaining;
            let ghost mut k: int = 0;
            while rest.len() > 0
                invariant
                    0 <= k <= all.len(),
                    rest@ == all.skip(k),
                    self.last_stop_reason == spec_first_reason(old(self).last_stop_reason, all.take(k)),
                    !self.session_active,
                    self.readiness_probe_running == old(self).readiness_probe_running,
                    self.hook_probe_running == old(self).hook_probe_running,
                    self.latest_hook_receive_probe_error == old(self).latest_hook_receive_probe_error,
                decreases rest@.len(),
            {
                proof {
                    lemma_skip_step(all, k);
                }
                let e = rest.remove(0);
                match e {
                    RuntimeEvent::SessionEnded(reason) => {
                        if self.last_stop_reason.is_none() {
                            self.last_stop_reason = Some(reason);
                        }
                    },
                    _ => {},
                }
                proof {
                    k = k + 1;
                }
            }
            proof {
                assert(all.take(k) =~= all);
            }
            if self.last_stop_reason.is_none() {
                self.last_stop_reason = Some(SessionStopReason::UserStopped);
            }
        }
        self.status = SessionStatus::Idle;
        self.active_session_mode = None;
        LogLine { level: LogLevel::Info, text: String::from_str("Session stopped") }
    }

    /// Records a session that started in `mode`, after the previous one was
    /// stopped: no stop reason yet.
    pub fn session_started(&mut self, mode: SessionMode)
        ensures
            final(self).status == SessionStatus::Running,
            final(self).active_session_mode == Some(mode),
            final(self).last_stop_reason is None,
            final(self).session_active,
            final(self).readiness_probe_running == old(self).readiness_probe_running,
            final(self).hook_probe_running == old(self).hook_probe_running,
            final(self).latest_hook_receive_probe_error == old(self).latest_hook_receive_probe_error,
    {
        self.last_stop_reason = None;
        self.session_active = true;
        self.status = SessionStatus::Running;
        self.active_session_mode = Some(mode);
    }

    /// Marks the readiness probe as running, unless it already runs.
    pub fn start_readiness_probe(&mut self) -> (r: Result<(), ProbeStartError>)
        ensures
            old(self).readiness_probe_running ==> r == Err::<(), ProbeStartError>(ProbeStartError::ReadinessProbeRunning),
            !old(self).readiness_probe_running ==> r is Ok,
            final(self).readiness_probe_running,
            final(self).hook_probe_running == old(self).hook_probe_running,
            final(self).status == old(self).status,
            final(self).active_session_mode == old(self).active_session_mode,
            final(self).session_active == old(self).session_active,
            final(self).last_stop_reason == old(self).last_stop_reason,
            final(self).latest_hook_receive_probe_error == old(self).latest_hook_receive_probe_error,
    {
        if self.readiness_probe_running {
            return Err(ProbeStartError::ReadinessProbeRunning);
        }
        self.readiness_probe_running = true;
        Ok(())
    }

    /// Marks the hook receive probe as running, unless it already runs;
    /// a start clears the last probe failure and logs
    /// `Hook receive probe started`. A refused start changes nothing.
    pub fn start_hook_receive_probe(&mut self) -> (r: Result<LogLine, ProbeStartError>)
        ensures
            old(self).hook_probe_running ==> r == Err::<LogLine, ProbeStartError>(ProbeStartError::HookReceiveProbeRunning)
                && final(self).latest_hook_receive_probe_error == old(self).latest_hook_receive_probe_error,
            !old(self).hook_probe_running ==> (r matches Ok(line) && line.level == LogLevel::Info
                && line.text@ == "Hook receive probe started"@
                && final(self).latest_hook_receive_probe_error is None),
            final(self).hook_probe_running,
            final(self).readiness_probe_running == old(self).readiness_probe_running,
            final(self).status == old(self).status,
            final(self).active_session_mode == old(self).active_session_mode,
            final(self).session_active == old(self).session_active,
            final(self).last_stop_reason == old(self).last_stop_reason,
    {
        if self.hook_probe_running {
            return Err(ProbeStartError::HookReceiveProbeRunning);
        }
        self.hook_probe_running = true;
        self.latest_hook_receive_probe_error = None;
        Ok(LogLine { level: LogLevel::Info, text: String::from_str("Hook receive probe started") })
    }
}


/// Two relay endpoints name the same host and port.
pub open spec fn same_endpoint(a: RelayEndpoint, b: RelayEndpoint) -> bool {
    a.host@ == b.host@ && a.port == b.port
}

/// The position of the first report for relay `e`.
pub open spec fn spec_report_slot(rs: Seq<LightPingReport>, e: RelayEndpoint) -> Option<int>
    decreases rs.len(),
{
    if rs.len() == 0 {
        None
    } else {
        match spec_report_slot(rs.drop_last(), e) {
            Some(i) => Some(i),
            None => if same_endpoint(rs.last().target.endpoint, e) { Some(rs.len() - 1) } else { None },
        }
    }
}

proof fn lemma_slot_stays(rs: Seq<LightPingReport>, e: RelayEndpoint, k: int, n: int)
    requires
        0 <= k <= n <= rs.len(),
        spec_report_slot(rs.take(k), e) is Some,
    ensures
        spec_report_slot(rs.take(n), e) == spec_report_slot(rs.take(k), e),
    decreases n - k,
{
    if n > k {
        lemma_slot_stays(rs, e, k, n - 1);
        assert(rs.take(n).drop_last() =~= rs.take(n - 1));
    }
}

/// Keeps one light ping report per relay: the new report replaces the
/// first one for its relay, or is added at the end.
pub fn upsert_light_ping_report(reports: &mut Vec<LightPingReport>, report: LightPingReport)
    ensures
        match spec_report_slot(old(reports)@, report.target.endpoint) {
            Some(i) => final(reports)@ == old(reports)@.update(i, report),
            None => final(reports)@ == old(reports)@.push(report),
        },
{
    let ghost e = report.target.endpoint;
    let n = reports.len();
    let mut i: usize = 0;
    while i < n
        invariant
            i <= n == reports@.len(),
            reports@ == old(reports)@,
            spec_report_slot(reports@.take(i as int), e) is None,
            e == report.target.endpoint,
        decreases n - i,
    {
        proof {
            assert(reports@.take(i + 1).drop_last() =~= reports@.take(i as int));
        }
        let same = same_text(reports[i].target.endpoint.host.as_str(), report.target.endpoint.host.as_str())
            && reports[i].target.endpoint.port == report.target.endpoint.port;
        if same {
            proof {
                assert(spec_report_slot(reports@.take(i + 1), e) == Some(i as int));
                lemma_slot_stays(reports@, e, i + 1, n as int);
                assert(reports@.take(n as int) =~= reports@);
            }
            reports.set(i, report);
            return;
        }
        i = i + 1;
    }
    proof {
        assert(reports@.take(n as int) =~= reports@);
    }
    reports.push(report);
}

/// Once a stop reason is recorded, no later report replaces it.
pub proof fn law_first_stop_reason_wins(r: SessionStopReason, events: Seq<RuntimeEvent>)
    ensures
        spec_first_reason(Some(r), events) == Some(r),
    decreases events.len(),
{
    if events.len() > 0 {
        law_first_stop_reason_wins(r, events.drop_last());
    }
}

/// With no reason recorded, the reason kept is the one the first ending
/// report gives.
pub proof fn law_earliest_report_gives_the_reason(events: Seq<RuntimeEvent>, k: int)
    requires
        0 <= k < events.len(),
        events[k] is SessionEnded,
        forall|j: int| 0 <= j < k ==> !(#[trigger] events[j] is SessionEnded),
    ensures
        spec_first_reason(None, events) == Some(events[k]->SessionEnded_0),
    decreases events.len(),
{
    if events.len() - 1 == k {
        lemma_no_reason_before(events.drop_last(), k);
    } else {
        law_earliest_report_gives_the_reason(events.drop_last(), k);
    }
}

proof fn lemma_no_reason_before(events: Seq<RuntimeEvent>, k: int)
    requires
        events.len() == k,
        forall|j: int| 0 <= j < k ==> !(#[trigger] events[j] is SessionEnded),
    ensures
        spec_first_reason(None, events) is None,
    decreases events.len(),
{
    if events.len() > 0 {
        lemma_no_reason_before(events.drop_last(), k - 1);
    }
}

} // verus!
