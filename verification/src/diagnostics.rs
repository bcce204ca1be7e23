//! The diagnostics text of the client: its status, counters, configuration,
//! probes, hook link and startup, session health, incidents, log lines and
//! file excerpts, laid out section by section. What the text shows comes in
//! as plain values; files are read, and values rendered, by the caller.

use vstd::prelude::*;
use crate::runtime::PRODUCT_NAME;
use crate::text::{push_decimal, push_str, spec_decimal};

verus! {

/// What reading a file gave: its text, or why it could not be read.
pub struct FileExcerpt {
    pub name: String,
    pub text: Result<String, String>,
}

/// The last input-delay operation: its name, its value or error, and when.
pub struct InputDelayLine {
    pub operation: String,
    pub result: Result<String, String>,
    pub updated_at: String,
}

/// How far the native hook has started.
pub struct HookStartupLines {
    pub phase: String,
    pub injected: bool,
    pub endpoint_ready: bool,
    pub access_denied: bool,
    pub updated_at: u64,
    pub process_name: Option<String>,
    pub pid: Option<u64>,
    pub injector_path: Option<String>,
    pub hook_path: Option<String>,
    pub launch_parameters_path: Option<String>,
    pub endpoint: Option<String>,
    pub message: Option<String>,
}

/// A client incident: when, its kind, its summary and the health line then.
pub struct IncidentLines {
    pub timestamp: String,
    pub kind: String,
    pub summary: String,
    pub health_line: String,
}

/// A kept log line: its time, level and message.
pub struct DiagnosticLogEntry {
    pub timestamp: String,
    pub level: String,
    pub message: String,
}

/// Everything the diagnostics text shows.
pub struct DiagnosticsInputs {
    pub version: String,
    pub status: String,
    pub hook_to_relay: u64,
    pub relay_to_hook: u64,
    pub sent_bytes: u64,
    pub received_bytes: u64,
    pub errors: u64,
    pub config_source: Option<String>,
    pub default_transport: String,
    pub default_mode: String,
    pub relay_presets: u64,
    pub log_directory: Option<String>,
    pub last_stop_reason: Option<String>,
    pub readiness: Option<String>,
    pub hook_receive: Option<String>,
    pub hook_receive_error: Option<String>,
    pub input_delay: Option<InputDelayLine>,
    pub ipc_connection: String,
    pub negotiated_major: Option<u64>,
    pub negotiated_minor: Option<u64>,
    pub reconnects: u64,
    pub hook_data_dropped: u64,
    pub client_data_dropped: u64,
    pub malformed_frames: u64,
    pub ipc_updated_at: u64,
    pub ipc_last_error: Option<String>,
    pub startup: Option<HookStartupLines>,
    /// The compact health line and the health record as JSON, or why it
    /// could not be rendered.
    pub session_health: Option<(String, Result<String, String>)>,
    pub incidents: Vec<IncidentLines>,
    pub launch_parameters_path_written: Option<String>,
    pub launch_parameters_cleanup: Option<String>,
    pub hook_log_path_expected: Option<String>,
    pub runtime_files: Vec<FileExcerpt>,
    pub online_log_directory: String,
    pub online_log: FileExcerpt,
    pub logs: Vec<DiagnosticLogEntry>,
    pub process_log: Option<FileExcerpt>,
    pub session_logs: Vec<FileExcerpt>,
}

/// `p` followed by `label`, `value` and a line end.
pub open spec fn spec_line(p: Seq<char>, label: Seq<char>, value: Seq<char>) -> Seq<char> {
    p + label + value + "\n"@
}

/// `p` followed by `label`, the decimal `n` and a line end.
pub open spec fn spec_number_line(p: Seq<char>, label: Seq<char>, n: u64) -> Seq<char> {
    p + label + spec_decimal(n as nat) + "\n"@
}

/// `p` followed by `label`, then `value` or `none`, and a line end.
pub open spec fn spec_optional_line(p: Seq<char>, label: Seq<char>, value: Option<String>) -> Seq<char> {
    match value {
        Some(v) => p + label + v@ + "\n"@,
        None => p + label + "none\n"@,
    }
}

/// `p` followed, when there is a value, by `label`, the value and a line end.
pub open spec fn spec_present_line(p: Seq<char>, label: Seq<char>, value: Option<String>) -> Seq<char> {
    match value {
        Some(v) => p + label + v@ + "\n"@,
        None => p,
    }
}

/// How `bool` displays.
pub open spec fn spec_bool(b: bool) -> Seq<char> {
    if b { "true"@ } else { "false"@ }
}

/// `s` ended with a line end where it ends with another character.
pub open spec fn spec_end_line(s: Seq<char>) -> Seq<char> {
    if s.len() > 0 && s.last() != '\n' { s + "\n"@ } else { s }
}

/// `p` followed by what a file read gave: its text, or `unavailable:` and
/// the reason.
pub open spec fn spec_excerpt(p: Seq<char>, text: Result<String, String>) -> Seq<char> {
    match text {
        Ok(c) => p + c@,
        Err(e) => p + "unavailable: "@ + e@ + "\n"@,
    }
}

/// `p` followed by a file's heading and excerpt, ended with a line end.
pub open spec fn spec_file_block(p: Seq<char>, f: FileExcerpt) -> Seq<char> {
    spec_end_line(spec_excerpt(p + "\n--- "@ + f.name@ + " ---\n"@, f.text))
}

/// `p` followed by the blocks of `files`, in order.
pub open spec fn spec_file_blocks(p: Seq<char>, files: Seq<FileExcerpt>) -> Seq<char>
    decreases files.len(),
{
    if files.len() == 0 {
        p
    } else {
        spec_file_block(spec_file_blocks(p, files.drop_last()), files.last())
    }
}

fn push_line(out: &mut String, label: &str, value: &String)
    ensures
        final(out)@ == spec_line(old(out)@, label@, value@),
{
    push_str(out, label);
    push_str(out, value.as_str());
    push_str(out, "\n");
}

fn push_number_line(out: &mut String, label: &str, n: u64)
    ensures
        final(out)@ == spec_number_line(old(out)@, label@, n),
{
    push_str(out, label);
    push_decimal(out, n as u128);
    push_str(out, "\n");
}

fn push_optional_line(out: &mut String, label: &str, value: &Option<String>)
    ensures
        final(out)@ == spec_optional_line(old(out)@, label@, *value),
{
    match value {
        Some(v) => push_line(out, label, v),
        None => {
            push_str(out, label);
            push_str(out, "none\n");
        },
    }
}

fn push_present_line(out: &mut String, label: &str, value: &Option<String>)
    ensures
        final(out)@ == spec_present_line(old(out)@, label@, *value),
{
    if let Some(v) = value {
        push_line(out, label, v);
    }
}

fn push_bool_line(out: &mut String, label: &str, b: bool)
    ensures
        final(out)@ == old(out)@ + label@ + spec_bool(b) + "\n"@,
{
    push_str(out, label);
    push_str(out, if b { "true" } else { "false" });
    push_str(out, "\n");
}

fn end_line(out: &mut String)
    ensures
        final(out)@ == spec_end_line(old(out)@),
{
    let n = out.as_str().unicode_len();
    if n > 0 && out.as_str().get_char(n - 1) != '\n' {
        push_str(out, "\n");
    }
}

fn push_excerpt(out: &mut String, text: &Result<String, String>)
    ensures
        final(out)@ == spec_excerpt(old(out)@, *text),
{
    match text {
        Ok(c) => push_str(out, c.as_str()),
        Err(e) => {
            push_str(out, "unavailable: ");
            push_str(out, e.as_str());
            push_str(out, "\n");
        },
    }
}

fn push_file_block(out: &mut String, f: &FileExcerpt)
    ensures
        final(out)@ == spec_file_block(old(out)@, *f),
{
    push_str(out, "\n--- ");
    push_str(out, f.name.as_str());
    push_str(out, " ---\n");
    push_excerpt(out, &f.text);
    end_line(out);
}

fn push_file_blocks(out: &mut String, files: &Vec<FileExcerpt>)
    ensures
        final(out)@ == spec_file_blocks(old(out)@, files@),
{
    let ghost start = out@;
    let mut i: usize = 0;
    while i < files.len()
        invariant
            i <= files@.len(),
            out@ == spec_file_blocks(start, files@.take(i as int)),
        decreases files@.len() - i,
    {
        proof {
            assert(files@.take(i + 1).drop_last() =~= files@.take(i as int));
        }
        push_file_block(out, &files[i]);
        i = i + 1;
    }
    proof {
        assert(files@.take(files@.len() as int) =~= files@);
    }
}

/// `p` followed by the heading, status, counters, configuration and
/// session lifecycle, up to the probes' heading.
pub open spec fn spec_overview(p: Seq<char>, d: DiagnosticsInputs) -> Seq<char> {
    let s = p + PRODUCT_NAME@ + " diagnostics\n\n"@;
    let s = spec_line(s, "version: "@, d.version@);
    let s = spec_line(s, "status: "@, d.status@);
    let s = spec_number_line(s, "hook_to_relay: "@, d.hook_to_relay);
    let s = spec_number_line(s, "relay_to_hook: "@, d.relay_to_hook);
    let s = spec_number_line(s, "sent_bytes: "@, d.sent_bytes);
    let s = spec_number_line(s, "received_bytes: "@, d.received_bytes);
    let s = spec_number_line(s, "errors: "@, d.errors);
    let s = s + "\nclient config:\n"@;
    let s = match d.config_source {
        Some(source) => spec_line(s, "source: "@, source@),
        None => s + "source: built-in defaults\n"@,
    };
    let s = spec_line(s, "default_transport: "@, d.default_transport@);
    let s = spec_line(s, "default_mode: "@, d.default_mode@);
    let s = spec_number_line(s, "relay_presets: "@, d.relay_presets);
    let s = match d.log_directory {
        Some(root) => spec_line(s, "log_directory: "@, root@),
        None => s + "log_directory: unavailable\n"@,
    };
    let s = s + "\nsession lifecycle:\n"@;
    let s = spec_optional_line(s, "last_stop_reason: "@, d.last_stop_reason);
    s + "\nlatest probes:\n"@
}

/// `p` followed by the probes and the hook link, up to the startup's
/// heading.
pub open spec fn spec_probes(p: Seq<char>, d: DiagnosticsInputs) -> Seq<char> {
    let s = spec_optional_line(p, "readiness: "@, d.readiness);
    let s = spec_optional_line(s, "hook_receive: "@, d.hook_receive);
    let s = spec_present_line(s, "hook_receive_error: "@, d.hook_receive_error);
    let s = match d.input_delay {
        Some(x) => match x.result {
            Ok(v) => s + "input_delay: operation="@ + x.operation@ + " result=ok value="@ + v@ + " updated_at="@
                + x.updated_at@ + "\n"@,
            Err(e) => s + "input_delay: operation="@ + x.operation@ + " result=error error="@ + e@ + " updated_at="@
                + x.updated_at@ + "\n"@,
        },
        None => s + "input_delay: none\n"@,
    };
    let s = s + "\nnative hook local IPC:\n"@;
    let s = spec_line(s, "connection: "@, d.ipc_connection@);
    let s = match (d.negotiated_major, d.negotiated_minor) {
        (Some(major), Some(minor)) => s + "negotiated_version: "@ + spec_decimal(major as nat) + "."@
            + spec_decimal(minor as nat) + "\n"@,
        _ => s + "negotiated_version: none\n"@,
    };
    let s = spec_number_line(s, "reconnects: "@, d.reconnects);
    let s = spec_number_line(s, "hook_data_dropped: "@, d.hook_data_dropped);
    let s = spec_number_line(s, "client_data_dropped: "@, d.client_data_dropped);
    let s = spec_number_line(s, "malformed_frames: "@, d.malformed_frames);
    let s = spec_number_line(s, "updated_at: "@, d.ipc_updated_at);
    let s = spec_present_line(s, "last_error: "@, d.ipc_last_error);
    s + "\nnative hook startup:\n"@
}

/// `p` followed by the hook's startup, up to the session health heading.
pub open spec fn spec_startup(p: Seq<char>, d: DiagnosticsInputs) -> Seq<char> {
    let s = match d.startup {
        Some(st) => {
            let s = spec_line(p, "phase: "@, st.phase@);
            let s = s + "injected: "@ + spec_bool(st.injected) + "\n"@;
            let s = s + "endpoint_ready: "@ + spec_bool(st.endpoint_ready) + "\n"@;
            let s = s + "access_denied: "@ + spec_bool(st.access_denied) + "\n"@;
            let s = spec_number_line(s, "updated_at: "@, st.updated_at);
            let s = spec_present_line(s, "process_name: "@, st.process_name);
            let s = match st.pid {
                Some(pid) => spec_number_line(s, "pid: "@, pid),
                None => s,
            };
            let s = spec_present_line(s, "injector_path: "@, st.injector_path);
            let s = spec_present_line(s, "hook_path: "@, st.hook_path);
            let s = spec_present_line(s, "launch_parameters_path: "@, st.launch_parameters_path);
            let s = spec_present_line(s, "endpoint: "@, st.endpoint);
            spec_present_line(s, "message: "@, st.message)
        },
        None => p + "phase: not_started\n"@,
    };
    s + "\nsession health:\n"@
}

/// `p` followed by one incident's two lines.
pub open spec fn spec_incident(p: Seq<char>, i: IncidentLines) -> Seq<char> {
    p + "- ["@ + i.timestamp@ + "] "@ + i.kind@ + ": "@ + i.summary@ + "\n  "@ + i.health_line@ + "\n"@
}

/// `p` followed by the lines of `incidents`, in order.
pub open spec fn spec_incidents(p: Seq<char>, incidents: Seq<IncidentLines>) -> Seq<char>
    decreases incidents.len(),
{
    if incidents.len() == 0 {
        p
    } else {
        spec_incident(spec_incidents(p, incidents.drop_last()), incidents.last())
    }
}

/// `p` followed by the session health and the incidents, up to the hook
/// runtime files' heading.
pub open spec fn spec_health(p: Seq<char>, d: DiagnosticsInputs) -> Seq<char> {
    let s = match d.session_health {
        Some((line, json)) => match json {
            Ok(j) => p + line@ + "\n"@ + j@ + "\n"@,
            Err(e) => p + line@ + "\n"@ + "json_unavailable: "@ + e@ + "\n"@,
        },
        None => p + "none\n"@,
    };
    let s = s + "\nclient incidents:\n"@;
    let s = if d.incidents@.len() == 0 { s + "none\n\n"@ } else { spec_incidents(s, d.incidents@) + "\n"@ };
    s + "hook runtime files:\n"@
}

/// `p` followed by the hook runtime files and the online log excerpt.
pub open spec fn spec_files(p: Seq<char>, d: DiagnosticsInputs) -> Seq<char> {
    let s = match d.launch_parameters_path_written {
        Some(path) => {
            let s = spec_line(p, "launch_parameters_path_written: "@, path@);
            let s = spec_optional_line(s, "launch_parameters_cleanup: "@, d.launch_parameters_cleanup);
            let s = spec_present_line(s, "hook_log_path_expected: "@, d.hook_log_path_expected);
            spec_file_blocks(s, d.runtime_files@)
        },
        None => p + "launch_parameters_path_written: none\n"@,
    };
    let s = s + "\nIsaac online log excerpts:\n"@;
    let s = spec_line(s, "directory: "@, d.online_log_directory@);
    spec_file_block(s, d.online_log)
}

/// `p` followed by one kept log line.
pub open spec fn spec_log_entry(p: Seq<char>, e: DiagnosticLogEntry) -> Seq<char> {
    p + "["@ + e.timestamp@ + "] "@ + e.level@ + " "@ + e.message@ + "\n"@
}

/// `p` followed by the kept log lines, in order.
pub open spec fn spec_log_entries(p: Seq<char>, logs: Seq<DiagnosticLogEntry>) -> Seq<char>
    decreases logs.len(),
{
    if logs.len() == 0 {
        p
    } else {
        spec_log_entry(spec_log_entries(p, logs.drop_last()), logs.last())
    }
}

/// `p` followed by the kept log lines, the process log and the session
/// logs.
pub open spec fn spec_logs(p: Seq<char>, d: DiagnosticsInputs) -> Seq<char> {
    let s = spec_log_entries(p + "\nlogs:\n"@, d.logs@);
    let s = s + "\nprocess log:\n"@;
    let s = match d.process_log {
        Some(f) => spec_excerpt(s + "--- "@ + f.name@ + " ---\n"@, f.text),
        None => s + "unavailable\n"@,
    };
    spec_file_blocks(spec_end_line(s) + "\nsession logs:\n"@, d.session_logs@)
}

/// The whole diagnostics text.
pub open spec fn spec_diagnostics_text(d: DiagnosticsInputs) -> Seq<char> {
    let s = spec_overview(Seq::empty(), d);
    let s = spec_probes(s, d);
    let s = spec_startup(s, d);
    let s = spec_health(s, d);
    let s = spec_files(s, d);
    spec_logs(s, d)
}

fn push_overview(out: &mut String, d: &DiagnosticsInputs)
    ensures
        final(out)@ == spec_overview(old(out)@, *d),
{
    push_str(out, PRODUCT_NAME);
    push_str(out, " diagnostics\n\n");
    push_line(out, "version: ", &d.version);
    push_line(out, "status: ", &d.status);
    push_number_line(out, "hook_to_relay: ", d.hook_to_relay);
    push_number_line(out, "relay_to_hook: ", d.relay_to_hook);
    push_number_line(out, "sent_bytes: ", d.sent_bytes);
    push_number_line(out, "received_bytes: ", d.received_bytes);
    push_number_line(out, "errors: ", d.errors);
    push_str(out, "\nclient config:\n");
    match &d.config_source {
        Some(source) => push_line(out, "source: ", source),
        None => push_str(out, "source: built-in defaults\n"),
    }
    push_line(out, "default_transport: ", &d.default_transport);
    push_line(out, "default_mode: ", &d.default_mode);
    push_number_line(out, "relay_presets: ", d.relay_presets);
    match &d.log_directory {
        Some(root) => push_line(out, "log_directory: ", root),
        None => push_str(out, "log_directory: unavailable\n"),
    }
    push_str(out, "\nsession lifecycle:\n");
    push_optional_line(out, "last_stop_reason: ", &d.last_stop_reason);
    push_str(out, "\nlatest probes:\n");
}

fn push_probes(out: &mut String, d: &DiagnosticsInputs)
    ensures
        final(out)@ == spec_probes(old(out)@, *d),
{
    push_optional_line(out, "readiness: ", &d.readiness);
    push_optional_line(out, "hook_receive: ", &d.hook_receive);
    push_present_line(out, "hook_receive_error: ", &d.hook_receive_error);
    match &d.input_delay {
        Some(x) => match &x.result {
            Ok(v) => {
                push_str(out, "input_delay: operation=");
                push_str(out, x.operation.as_str());
                push_str(out, " result=ok value=");
                push_str(out, v.as_str());
                push_str(out, " updated_at=");
                push_str(out, x.updated_at.as_str());
                push_str(out, "\n");
            },
            Err(e) => {
                push_str(out, "input_delay: operation=");
                push_str(out, x.operation.as_str());
                push_str(out, " result=error error=");
                push_str(out, e.as_str());
                push_str(out, " updated_at=");
                push_str(out, x.updated_at.as_str());
                push_str(out, "\n");
            },
        },
        None => push_str(out, "input_delay: none\n"),
    }
    push_str(out, "\nnative hook local IPC:\n");
    push_line(out, "connection: ", &d.ipc_connection);
    match (d.negotiated_major, d.negotiated_minor) {
        (Some(major), Some(minor)) => {
            push_str(out, "negotiated_version: ");
            push_decimal(out, major as u128);
            push_str(out, ".");
            push_decimal(out, minor as u128);
            push_str(out, "\n");
        },
        _ => push_str(out, "negotiated_version: none\n"),
    }
    push_number_line(out, "reconnects: ", d.reconnects);
    push_number_line(out, "hook_data_dropped: ", d.hook_data_dropped);
    push_number_line(out, "client_data_dropped: ", d.client_data_dropped);
    push_number_line(out, "malformed_frames: ", d.malformed_frames);
    push_number_line(out, "updated_at: ", d.ipc_updated_at);
    push_present_line(out, "last_error: ", &d.ipc_last_error);
    push_str(out, "\nnative hook startup:\n");
}

fn push_startup(out: &mut String, d: &DiagnosticsInputs)
    ensures
        final(out)@ == spec_startup(old(out)@, *d),
{
    match &d.startup {
        Some(st) => {
            push_line(out, "phase: ", &st.phase);
            push_bool_line(out, "injected: ", st.injected);
            push_bool_line(out, "endpoint_ready: ", st.endpoint_ready);
            push_bool_line(out, "access_denied: ", st.access_denied);
            push_number_line(out, "updated_at: ", st.updated_at);
            push_present_line(out, "process_name: ", &st.process_name);
            if let Some(pid) = st.pid {
                push_number_line(out, "pid: ", pid);
            }
            push_present_line(out, "injector_path: ", &st.injector_path);
            push_present_line(out, "hook_path: ", &st.hook_path);
            push_present_line(out, "launch_parameters_path: ", &st.launch_parameters_path);
            push_present_line(out, "endpoint: ", &st.endpoint);
            push_present_line(out, "message: ", &st.message);
        },
        None => push_str(out, "phase: not_started\n"),
    }
    push_str(out, "\nsession health:\n");
}

fn push_incidents(out: &mut String, incidents: &Vec<IncidentLines>)
    ensures
        final(out)@ == spec_incidents(old(out)@, incidents@),
{
    let ghost start = out@;
    let mut i: usize = 0;
    while i < incidents.len()
        invariant
            i <= incidents@.len(),
            out@ == spec_incidents(start, incidents@.take(i as int)),
        decreases incidents@.len() - i,
    {
        proof {
            assert(incidents@.take(i + 1).drop_last() =~= incidents@.take(i as int));
        }
        let x = &incidents[i];
        push_str(out, "- [");
        push_str(out, x.timestamp.as_str());
        push_str(out, "] ");
        push_str(out, x.kind.as_str());
        push_str(out, ": ");
        push_str(out, x.summary.as_str());
        push_str(out, "\n  ");
        push_str(out, x.health_line.as_str());
        push_str(out, "\n");
        i = i + 1;
    }
    proof {
        assert(incidents@.take(incidents@.len() as int) =~= incidents@);
    }
}

fn push_health(out: &mut String, d: &DiagnosticsInputs)
    ensures
        final(out)@ == spec_health(old(out)@, *d),
{
    match &d.session_health {
        Some((line, json)) => {
            push_str(out, line.as_str());
            push_str(out, "\n");
            match json {
                Ok(j) => {
                    push_str(out, j.as_str());
                    push_str(out, "\n");
                },
                Err(e) => {
                    push_str(out, "json_unavailable: ");
                    push_str(out, e.as_str());
                    push_str(out, "\n");
                },
            }
        },
        None => push_str(out, "none\n"),
    }
    push_str(out, "\nclient incidents:\n");
    if d.incidents.len() == 0 {
        push_str(out, "none\n\n");
    } else {
        push_incidents(out, &d.incidents);
        push_str(out, "\n");
    }
    push_str(out, "hook runtime files:\n");
}

fn push_files(out: &mut String, d: &DiagnosticsInputs)
    ensures
        final(out)@ == spec_files(old(out)@, *d),
{
    match &d.launch_parameters_path_written {
        Some(path) => {
            push_line(out, "launch_parameters_path_written: ", path);
            push_optional_line(out, "launch_parameters_cleanup: ", &d.launch_parameters_cleanup);
            push_present_line(out, "hook_log_path_expected: ", &d.hook_log_path_expected);
            push_file_blocks(out, &d.runtime_files);
        },
        None => push_str(out, "launch_parameters_path_written: none\n"),
    }
    push_str(out, "\nIsaac online log excerpts:\n");
    push_line(out, "directory: ", &d.online_log_directory);
    push_file_block(out, &d.online_log);
}

fn push_log_entries(out: &mut String, logs: &Vec<DiagnosticLogEntry>)
    ensures
        final(out)@ == spec_log_entries(old(out)@, logs@),
{
    let ghost start = out@;
    let mut i: usize = 0;
    while i < logs.len()
        invariant
            i <= logs@.len(),
            out@ == spec_log_entries(start, logs@.take(i as int)),
        decreases logs@.len() - i,
    {
        proof {
            assert(logs@.take(i + 1).drop_last() =~= logs@.take(i as int));
        }
        let e = &logs[i];
        push_str(out, "[");
        push_str(out, e.timestamp.as_str());
        push_str(out, "] ");
        push_str(out, e.level.as_str());
        push_str(out, " ");
        push_str(out, e.message.as_str());
        push_str(out, "\n");
        i = i + 1;
    }
    proof {
        assert(logs@.take(logs@.len() as int) =~= logs@);
    }
}

fn push_logs(out: &mut String, d: &DiagnosticsInputs)
    ensures
        final(out)@ == spec_logs(old(out)@, *d),
{
    push_str(out, "\nlogs:\n");
    push_log_entries(out, &d.logs);
    push_str(out, "\nprocess log:\n");
    match &d.process_log {
        Some(f) => {
            push_str(out, "--- ");
            push_str(out, f.name.as_str());
            push_str(out, " ---\n");
            push_excerpt(out, &f.text);
        },
        None => push_str(out, "unavailable\n"),
    }
    end_line(out);
    push_str(out, "\nsession logs:\n");
    push_file_blocks(out, &d.session_logs);
}

/// The diagnostics text: see `spec_diagnostics_text`.
pub fn diagnostics_text(d: &DiagnosticsInputs) -> (s: String)
    ensures
        s@ == spec_diagnostics_text(*d),
{
    let mut out = String::new();
    push_overview(&mut out, d);
    push_probes(&mut out, d);
    push_startup(&mut out, d);
    push_health(&mut out, d);
    push_files(&mut out, d);
    push_logs(&mut out, d);
    out
}

} // verus!
