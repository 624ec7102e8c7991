//! The subprocess transport: restart policy, environment, output capping,
//! exit classification and the health report of a session.
use vstd::prelude::*;
use crate::adapter::{error_text, AdapterError, AdapterHealth};
use crate::models::{AdapterConfig, AdapterType, AgentStatus, EnvEntry, EnvValue, MessageKind, RunStatus};
use crate::ring::{snapshot, OutputRingBuffer, STATUS_TAIL_LINES};
use crate::text::{
    ascii_lower, decimal, has_prefix, push_text, render_i32, render_u64, same_text,
    signed_decimal, starts_with, to_ascii_lower, trim_text, trimmed,
};

verus! {

/// The longest line, in characters, that is kept whole.
pub const MAX_CAPTURE_CHARS: usize = 2000;

/// Configuration keys with this prefix steer the library and never reach a
/// spawned process.
pub open spec fn internal_key_prefix() -> Seq<char> {
    "__kanbun_"@
}

/// Whether a dead session is relaunched automatically.
#[derive(Debug, Clone, Copy, PartialEq, Eq, Structural)]
pub enum RestartPolicy {
    Never,
    OnFailure,
    Always,
}

/// The name of a policy as it is written in a configuration.
pub open spec fn policy_name(p: RestartPolicy) -> Seq<char> {
    match p {
        RestartPolicy::Never => "never"@,
        RestartPolicy::OnFailure => "on_failure"@,
        RestartPolicy::Always => "always"@,
    }
}

/// The policy that a normalized (trimmed, lower-case) name selects; any other
/// name selects `OnFailure`.
pub open spec fn policy_from_name(s: Seq<char>) -> RestartPolicy {
    if s == "never"@ {
        RestartPolicy::Never
    } else if s == "always"@ {
        RestartPolicy::Always
    } else {
        RestartPolicy::OnFailure
    }
}

/// Whether a session that exited with `code` stays down under `policy`.
pub open spec fn suppresses_restart(policy: RestartPolicy, code: Option<i32>) -> bool {
    match policy {
        RestartPolicy::Never => true,
        RestartPolicy::OnFailure => match code {
            Some(c) => c == 0,
            None => true,
        },
        RestartPolicy::Always => false,
    }
}

impl RestartPolicy {
    /// The policy's name.
    pub fn as_str(self) -> (r: &'static str)
        ensures
            r@ == policy_name(self),
    {
        match self {
            RestartPolicy::Never => "never",
            RestartPolicy::OnFailure => "on_failure",
            RestartPolicy::Always => "always",
        }
    }

    /// The policy for a name that is already trimmed and in lower case.
    pub fn from_normalized(name: &str) -> (r: RestartPolicy)
        ensures
            r == policy_from_name(name@),
    {
        if same_text(name, "never") {
            RestartPolicy::Never
        } else if same_text(name, "always") {
            RestartPolicy::Always
        } else {
            RestartPolicy::OnFailure
        }
    }
}

/// Whether an exited session must not be restarted: `Never` always suppresses,
/// `Always` never does, and `OnFailure` suppresses after a clean exit (code 0,
/// or no code at all) and restarts after a failure.
pub fn should_suppress_auto_restart(policy: RestartPolicy, code: Option<i32>) -> (r: bool)
    ensures
        r == suppresses_restart(policy, code),
        policy == RestartPolicy::Never ==> r,
        policy == RestartPolicy::Always ==> !r,
        policy == RestartPolicy::OnFailure ==> (r <==> (code.is_none() || code == Some(0i32))),
{
    match policy {
        RestartPolicy::Never => true,
        RestartPolicy::OnFailure => match code {
            Some(c) => c == 0,
            None => true,
        },
        RestartPolicy::Always => false,
    }
}

/// Whether an adapter type runs as a plain subprocess.
pub fn is_process_like_adapter_type(adapter_type: AdapterType) -> (r: bool)
    ensures
        r == (adapter_type == AdapterType::Process || adapter_type == AdapterType::Codex),
{
    match adapter_type {
        AdapterType::Process | AdapterType::Codex => true,
        _ => false,
    }
}

/// The text that an environment value is forwarded as.
pub open spec fn env_value_text(v: EnvValue) -> Seq<char> {
    match v {
        EnvValue::Text(s) => s@,
        EnvValue::Json(t) => t@,
    }
}

/// Whether an entry is forwarded to a spawned process: its key does not carry
/// the internal prefix.
pub open spec fn env_forwarded(e: EnvEntry) -> bool {
    !has_prefix(e.key@, internal_key_prefix())
}

/// The forwarded entries, in order, as key and value text.
pub open spec fn sanitized_env(entries: Seq<EnvEntry>) -> Seq<(Seq<char>, Seq<char>)>
    decreases entries.len(),
{
    if entries.len() == 0 {
        Seq::empty()
    } else {
        let rest = sanitized_env(entries.drop_last());
        let e = entries.last();
        if env_forwarded(e) {
            rest.push((e.key@, env_value_text(e.value)))
        } else {
            rest
        }
    }
}

/// Pairs of texts as character sequences.
pub open spec fn pair_views(v: Seq<(String, String)>) -> Seq<(Seq<char>, Seq<char>)> {
    v.map_values(|p: (String, String)| (p.0@, p.1@))
}

/// The entries of a configuration's environment.
pub open spec fn config_env(config: AdapterConfig) -> Seq<EnvEntry> {
    match config.env {
        Some(v) => v@,
        None => Seq::empty(),
    }
}

/// The environment handed to a spawned process: every entry whose key is not
/// internal, with its value as text.
pub fn parse_env(config: &AdapterConfig) -> (r: Vec<(String, String)>)
    ensures
        pair_views(r@) == sanitized_env(config_env(*config)),
{
    let mut parsed: Vec<(String, String)> = Vec::new();
    let entries = match &config.env {
        Some(v) => v,
        None => {
            assert(pair_views(parsed@) =~= sanitized_env(Seq::empty()));
            return parsed;
        },
    };
    let mut i: usize = 0;
    while i < entries.len()
        invariant
            config_env(*config) == entries@,
            i <= entries@.len(),
            pair_views(parsed@) == sanitized_env(entries@.take(i as int)),
        decreases entries@.len() - i,
    {
        let e = &entries[i];
        proof {
            assert(entries@.take(i as int + 1).drop_last() =~= entries@.take(i as int));
        }
        let internal = starts_with(e.key.as_str(), "__kanbun_");
        proof {
            assert("__kanbun_"@ =~= internal_key_prefix()) by {
                reveal_strlit("__kanbun_");
            }
        }
        if !internal {
            let value = match &e.value {
                EnvValue::Text(s) => s.clone(),
                EnvValue::Json(t) => t.clone(),
            };
            let ghost prev = parsed@;
            parsed.push((e.key.clone(), value));
            assert(pair_views(parsed@) =~= pair_views(prev).push((e.key@, env_value_text(e.value))));
        }
        i = i + 1;
    }
    assert(entries@.take(entries@.len() as int) =~= entries@);
    parsed
}

/// Keys with the internal prefix are never forwarded; every other entry is
/// forwarded, with its value as text.
pub proof fn lemma_env_sanitization(entries: Seq<EnvEntry>)
    ensures
        forall|i: int| 0 <= i < sanitized_env(entries).len() ==>
            !has_prefix(#[trigger] sanitized_env(entries)[i].0, internal_key_prefix()),
        forall|j: int| 0 <= j < entries.len() && env_forwarded(#[trigger] entries[j]) ==>
            sanitized_env(entries).contains((entries[j].key@, env_value_text(entries[j].value))),
    decreases entries.len(),
{
    if entries.len() > 0 {
        let rest = entries.drop_last();
        lemma_env_sanitization(rest);
        let out = sanitized_env(entries);
        let prev = sanitized_env(rest);
        assert forall|j: int| 0 <= j < entries.len() && env_forwarded(#[trigger] entries[j]) implies
            out.contains((entries[j].key@, env_value_text(entries[j].value))) by {
            if j < entries.len() - 1 {
                assert(rest[j] == entries[j]);
                let k = choose|k: int| 0 <= k < prev.len() && prev[k] == (rest[j].key@, env_value_text(rest[j].value));
                if env_forwarded(entries.last()) {
                    assert(out[k] == prev[k]);
                }
            } else {
                assert(out[out.len() - 1] == (entries[j].key@, env_value_text(entries[j].value)));
            }
        }
    }
}

/// Of a configuration's entries, the text of the first one with `key` whose
/// value is a JSON string.
pub open spec fn env_text_for(entries: Seq<EnvEntry>, key: Seq<char>) -> Option<Seq<char>>
    decreases entries.len(),
{
    if entries.len() == 0 {
        None
    } else if entries[0].key@ == key {
        match entries[0].value {
            EnvValue::Text(s) => Some(s@),
            EnvValue::Json(_) => None,
        }
    } else {
        env_text_for(entries.drop_first(), key)
    }
}

/// The configuration key that holds the restart policy.
pub open spec fn restart_policy_key() -> Seq<char> {
    "__kanbun_restart_policy"@
}

/// The restart policy a configuration selects: the trimmed, lower-cased text
/// under the policy key, defaulting to `OnFailure`.
pub open spec fn configured_policy(config: AdapterConfig) -> RestartPolicy {
    match env_text_for(config_env(config), restart_policy_key()) {
        Some(t) => policy_from_name(ascii_lower(trimmed(t))),
        None => RestartPolicy::OnFailure,
    }
}

/// The text of the first entry with `key`, when its value is a JSON string.
pub fn env_text_value(config: &AdapterConfig, key: &str) -> (r: Option<String>)
    ensures
        match r {
            Some(t) => env_text_for(config_env(*config), key@) == Some(t@),
            None => env_text_for(config_env(*config), key@).is_none(),
        },
{
    let entries = match &config.env {
        Some(v) => v,
        None => return None,
    };
    assert(entries@.skip(0) =~= entries@);
    let mut i: usize = 0;
    while i < entries.len()
        invariant
            config_env(*config) == entries@,
            i <= entries@.len(),
            env_text_for(entries@, key@) == env_text_for(entries@.skip(i as int), key@),
        decreases entries@.len() - i,
    {
        let e = &entries[i];
        proof {
            assert(entries@.skip(i as int).drop_first() =~= entries@.skip(i as int + 1));
            assert(entries@.skip(i as int)[0] == e);
        }
        if same_text(e.key.as_str(), key) {
            return match &e.value {
                EnvValue::Text(s) => Some(s.clone()),
                EnvValue::Json(_) => None,
            };
        }
        i = i + 1;
    }
    None
}

/// The restart policy that a configuration selects.
pub fn parse_restart_policy(config: &AdapterConfig) -> (r: RestartPolicy)
    ensures
        r == configured_policy(*config),
{
    match env_text_value(config, "__kanbun_restart_policy") {
        Some(s) => {
            let t = trim_text(s.as_str());
            let lower = to_ascii_lower(t.as_str());
            RestartPolicy::from_normalized(lower.as_str())
        },
        None => RestartPolicy::OnFailure,
    }
}

/// A line of output capped at `MAX_CAPTURE_CHARS` characters, with a marker
/// that says how many were left out.
pub open spec fn capped_line(s: Seq<char>) -> Seq<char> {
    if s.len() <= MAX_CAPTURE_CHARS {
        s
    } else {
        s.take(MAX_CAPTURE_CHARS as int) + " ... [line truncated: "@
            + decimal((s.len() - MAX_CAPTURE_CHARS) as nat) + " chars omitted]"@
    }
}

/// Caps one line of output at `MAX_CAPTURE_CHARS` characters.
pub fn truncate_output(input: &str) -> (r: String)
    ensures
        r@ == capped_line(input@),
{
    let length = input.unicode_len();
    if length <= MAX_CAPTURE_CHARS {
        return String::from_str(input);
    }
    let clipped = input.substring_char(0, MAX_CAPTURE_CHARS);
    let mut r = String::from_str(clipped);
    push_text(&mut r, " ... [line truncated: ");
    let omitted = render_u64((length - MAX_CAPTURE_CHARS) as u64);
    push_text(&mut r, omitted.as_str());
    push_text(&mut r, " chars omitted]");
    r
}

/// Whether a session process is alive, or how it ended.
#[derive(Debug, Clone, Copy, PartialEq, Eq, Structural)]
pub enum ProcessState {
    Running,
    Exited(Option<i32>),
}

/// What the poll loop records when the session process has exited.
#[derive(Debug, Clone)]
pub struct ExitReport {
    pub kind: MessageKind,
    pub run_status: RunStatus,
    pub agent_status: AgentStatus,
    pub note: String,
    pub suppress_auto_restart: bool,
}

/// Whether an exit is clean: code 0, or no code at all.
pub open spec fn clean_exit(code: Option<i32>) -> bool {
    match code {
        Some(c) => c == 0,
        None => true,
    }
}

/// The exit code in parentheses, or nothing when there is none.
pub open spec fn code_suffix(code: Option<i32>) -> Seq<char> {
    match code {
        Some(c) => " (code "@ + signed_decimal(c as int) + ")"@,
        None => Seq::empty(),
    }
}

/// The note recorded for an exit.
pub open spec fn exit_note(policy: RestartPolicy, code: Option<i32>) -> Seq<char> {
    let head = if clean_exit(code) { "Process exited normally"@ } else { "Process exited with failure"@ };
    let base = head + code_suffix(code) + "."@;
    if suppresses_restart(policy, code) {
        base + " Auto-restart paused by policy."@
    } else {
        base
    }
}

/// Classifies a process exit: a clean exit completes the run and the agent,
/// any other fails the run and marks the agent errored; the policy decides
/// whether the session stays down.
pub fn classify_exit(policy: RestartPolicy, code: Option<i32>) -> (r: ExitReport)
    ensures
        r.suppress_auto_restart == suppresses_restart(policy, code),
        clean_exit(code) ==> r.kind == MessageKind::Completed && r.run_status == RunStatus::Completed
            && r.agent_status == AgentStatus::Completed,
        !clean_exit(code) ==> r.kind == MessageKind::Error && r.run_status == RunStatus::Failed
            && r.agent_status == AgentStatus::Errored,
        r.note@ == exit_note(policy, code),
{
    let suppress = should_suppress_auto_restart(policy, code);
    let clean = match code {
        Some(c) => c == 0,
        None => true,
    };
    let mut note = String::new();
    if clean {
        push_text(&mut note, "Process exited normally");
    } else {
        push_text(&mut note, "Process exited with failure");
    }
    if let Some(c) = code {
        push_text(&mut note, " (code ");
        let digits = render_i32(c);
        push_text(&mut note, digits.as_str());
        push_text(&mut note, ")");
    }
    push_text(&mut note, ".");
    if suppress {
        push_text(&mut note, " Auto-restart paused by policy.");
    }
    proof {
        assert(note@ =~= exit_note(policy, code));
    }
    if clean {
        ExitReport {
            kind: MessageKind::Completed,
            run_status: RunStatus::Completed,
            agent_status: AgentStatus::Completed,
            note,
            suppress_auto_restart: suppress,
        }
    } else {
        ExitReport {
            kind: MessageKind::Error,
            run_status: RunStatus::Failed,
            agent_status: AgentStatus::Errored,
            note,
            suppress_auto_restart: suppress,
        }
    }
}

} // verus!

verus! {

/// The last output lines quoted by status replies and health reports.
pub open spec fn last_output_text(ring: &OutputRingBuffer) -> Seq<char> {
    match snapshot(ring.lines_view(), ring.dropped(), STATUS_TAIL_LINES as nat) {
        Some(s) => s,
        None => "No output captured yet."@,
    }
}

/// The last output lines of a session, or a note that there are none yet.
pub fn last_output(ring: &OutputRingBuffer) -> (r: String)
    ensures
        r@ == last_output_text(ring),
{
    match ring.snapshot_tail(STATUS_TAIL_LINES) {
        Some(s) => s,
        None => String::from_str("No output captured yet."),
    }
}

/// The reply to a status request: the command and its recent output.
pub fn status_report(command: &str, ring: &OutputRingBuffer) -> (r: String)
    ensures
        r@ == "Process command `"@ + command@ + "` is running.\nLast output: "@ + last_output_text(ring),
{
    let mut r = String::from_str("Process command `");
    push_text(&mut r, command);
    push_text(&mut r, "` is running.\nLast output: ");
    let tail = last_output(ring);
    push_text(&mut r, tail.as_str());
    r
}

/// The state of a session as the health report names it.
pub open spec fn state_label(state: ProcessState) -> Seq<char> {
    match state {
        ProcessState::Running => "running"@,
        ProcessState::Exited(Some(c)) => "exited (code "@ + signed_decimal(c as int) + ")"@,
        ProcessState::Exited(None) => "exited"@,
    }
}

/// The details line block of a session's health report.
pub open spec fn health_details(command: Seq<char>, policy: RestartPolicy, state: ProcessState, ring: &OutputRingBuffer) -> Seq<char> {
    "Process command: "@ + command + "\nRestart policy: "@ + policy_name(policy) + "\nState: "@
        + state_label(state) + "\nLast output: "@ + last_output_text(ring)
}

/// The exit code of an exited session.
pub open spec fn exit_code_of(state: ProcessState) -> Option<i32> {
    match state {
        ProcessState::Running => None,
        ProcessState::Exited(c) => c,
    }
}

/// Whether a health check removes the session from the registry: it exited
/// and its policy lets it be restarted.
pub fn discard_dead_session(policy: RestartPolicy, state: ProcessState) -> (r: bool)
    ensures
        r == (state != ProcessState::Running && !suppresses_restart(policy, exit_code_of(state))),
{
    match state {
        ProcessState::Running => false,
        ProcessState::Exited(code) => !should_suppress_auto_restart(policy, code),
    }
}

/// The health report of a live registry entry, from the observed process
/// state, its output buffer and its last heartbeat.
pub fn process_health(
    command: &str,
    policy: RestartPolicy,
    state: ProcessState,
    ring: &OutputRingBuffer,
    heartbeat: Option<String>,
) -> (h: AdapterHealth)
    ensures
        h.connected == (state == ProcessState::Running),
        h.session_active == (state == ProcessState::Running),
        h.last_heartbeat == heartbeat,
        h.details.is_some() && h.details.unwrap()@ == health_details(command@, policy, state, ring),
        h.retry_after_seconds.is_none(),
        h.consecutive_failures.is_none(),
        h.suppress_auto_restart == Some(state != ProcessState::Running && suppresses_restart(policy, exit_code_of(state))),
        match exit_code_of(state) {
            Some(c) if c != 0 => h.last_error.is_some()
                && h.last_error.unwrap()@ == "process exited with code "@ + signed_decimal(c as int),
            _ => h.last_error.is_none(),
        },
{
    let active = match state {
        ProcessState::Running => true,
        ProcessState::Exited(_) => false,
    };
    let exit_code = match state {
        ProcessState::Running => None,
        ProcessState::Exited(c) => c,
    };
    let suppress = !active && should_suppress_auto_restart(policy, exit_code);
    let mut details = String::from_str("Process command: ");
    push_text(&mut details, command);
    push_text(&mut details, "\nRestart policy: ");
    push_text(&mut details, policy.as_str());
    push_text(&mut details, "\nState: ");
    match state {
        ProcessState::Running => push_text(&mut details, "running"),
        ProcessState::Exited(Some(c)) => {
            push_text(&mut details, "exited (code ");
            let digits = render_i32(c);
            push_text(&mut details, digits.as_str());
            push_text(&mut details, ")");
        },
        ProcessState::Exited(None) => push_text(&mut details, "exited"),
    }
    push_text(&mut details, "\nLast output: ");
    let tail = last_output(ring);
    push_text(&mut details, tail.as_str());
    proof {
        assert(details@ =~= health_details(command@, policy, state, ring));
    }
    let last_error = match exit_code {
        Some(c) if c != 0 => {
            let mut e = String::from_str("process exited with code ");
            let digits = render_i32(c);
            push_text(&mut e, digits.as_str());
            Some(e)
        },
        _ => None,
    };
    AdapterHealth {
        connected: active,
        session_active: active,
        last_heartbeat: heartbeat,
        details: Some(details),
        retry_after_seconds: None,
        consecutive_failures: None,
        last_error,
        suppress_auto_restart: Some(suppress),
    }
}

/// What the poll loop does with a pending message.
#[derive(Debug, Clone, Copy, PartialEq, Eq, Structural)]
pub enum ProcessAction {
    /// Start (or extend) the instruction run and write the content and a newline to stdin.
    WriteLine,
    /// Write the interrupt byte to stdin and mark the agent blocked.
    Interrupt,
    /// Kill the process, drop the session and end the loop.
    Terminate,
    /// Answer from the output buffer without touching the process.
    ReportStatus,
    /// Nothing to do.
    Ignore,
}

/// The action for a pending message of the given kind.
pub open spec fn action_for(kind: MessageKind) -> ProcessAction {
    match kind {
        MessageKind::Instruction | MessageKind::Resume => ProcessAction::WriteLine,
        MessageKind::Pause => ProcessAction::Interrupt,
        MessageKind::Cancel => ProcessAction::Terminate,
        MessageKind::StatusRequest => ProcessAction::ReportStatus,
        _ => ProcessAction::Ignore,
    }
}

/// The exact text written to the process's stdin for a message: the
/// content and a newline for an instruction or resume, the single interrupt
/// character for a pause, nothing otherwise.
pub open spec fn stdin_text(kind: MessageKind, content: Seq<char>) -> Option<Seq<char>> {
    match action_for(kind) {
        ProcessAction::WriteLine => Some(content.push('\n')),
        ProcessAction::Interrupt => Some(seq!['\u{3}']),
        _ => None,
    }
}

/// The action for a pending message of the given kind.
pub fn process_action_for(kind: MessageKind) -> (a: ProcessAction)
    ensures
        a == action_for(kind),
        (kind == MessageKind::Instruction || kind == MessageKind::Resume) <==> a == ProcessAction::WriteLine,
        kind == MessageKind::Pause <==> a == ProcessAction::Interrupt,
        kind == MessageKind::Cancel <==> a == ProcessAction::Terminate,
        kind == MessageKind::StatusRequest <==> a == ProcessAction::ReportStatus,
{
    match kind {
        MessageKind::Instruction | MessageKind::Resume => ProcessAction::WriteLine,
        MessageKind::Pause => ProcessAction::Interrupt,
        MessageKind::Cancel => ProcessAction::Terminate,
        MessageKind::StatusRequest => ProcessAction::ReportStatus,
        _ => ProcessAction::Ignore,
    }
}

/// The byte written to stdin to interrupt the process.
pub const INTERRUPT_TEXT: &'static str = "\u{3}";

/// A subprocess transport configured for one agent.
#[derive(Debug, Clone)]
pub struct ProcessAdapter {
    pub command: String,
    pub env: Vec<(String, String)>,
    pub restart_policy: RestartPolicy,
}

impl ProcessAdapter {
    /// The adapter a configuration describes: its command (empty when none),
    /// its forwarded environment and its restart policy.
    pub fn new(config: &AdapterConfig) -> (r: ProcessAdapter)
        ensures
            r.command@ == match config.command {
                Some(c) => c@,
                None => Seq::empty(),
            },
            pair_views(r.env@) == sanitized_env(config_env(*config)),
            r.restart_policy == configured_policy(*config),
    {
        let command = match &config.command {
            Some(c) => c.clone(),
            None => String::new(),
        };
        ProcessAdapter {
            command,
            env: parse_env(config),
            restart_policy: parse_restart_policy(config),
        }
    }
}

} // verus!

verus! {

/// Relies on `shellexpand::tilde`: a path that does not start with `~` comes
/// back unchanged; one that does may have that `~` replaced by the home
/// directory, which depends on the environment, and otherwise keeps the rest
/// of the path as its end.
#[verifier::external_body]
fn expand_home(path: &str) -> (r: String)
    ensures
        !has_prefix(path@, "~"@) ==> r@ == path@,
        has_prefix(path@, "~"@) ==> r@ == path@ || (r@.len() >= path@.len() - 1
            && r@.subrange(r@.len() - (path@.len() - 1), r@.len() as int) == path@.drop_first()),
{
    shellexpand::tilde(path).to_string()
}

/// The directory a session starts in: the configured path, trimmed, with a
/// leading `~` expanded; no directory when the result is blank.
pub fn resolve_working_directory(configured: Option<&str>) -> (r: Option<String>)
    ensures
        configured.is_none() ==> r.is_none(),
        match r {
            Some(d) => trimmed(d@).len() > 0,
            None => true,
        },
        configured.is_some() && !has_prefix(trimmed(configured.unwrap()@), "~"@) ==> (match r {
            Some(d) => d@ == trimmed(configured.unwrap()@),
            None => trimmed(trimmed(configured.unwrap()@)).len() == 0,
        }),
{
    match configured {
        None => None,
        Some(path) => {
            let t = trim_text(path);
            let expanded = expand_home(t.as_str());
            if trim_text(expanded.as_str()).unicode_len() > 0 {
                Some(expanded)
            } else {
                None
            }
        },
    }
}

} // verus!

verus! {

/// A captured line as it is buffered and stored: trimmed, marked when it came
/// from stderr, and capped; blank lines are skipped.
pub open spec fn rendered_line(line: Seq<char>, from_stderr: bool) -> Option<Seq<char>> {
    let t = trimmed(line);
    if t.len() == 0 {
        None
    } else if from_stderr {
        Some(capped_line("[stderr] "@ + t))
    } else {
        Some(capped_line(t))
    }
}

/// Renders one line read from the process's stdout or stderr.
pub fn output_line(line: &str, from_stderr: bool) -> (r: Option<String>)
    ensures
        match r {
            Some(s) => rendered_line(line@, from_stderr) == Some(s@),
            None => rendered_line(line@, from_stderr).is_none(),
        },
{
    let t = trim_text(line);
    if t.unicode_len() == 0 {
        return None;
    }
    if from_stderr {
        let mut marked = String::from_str("[stderr] ");
        push_text(&mut marked, t.as_str());
        Some(truncate_output(marked.as_str()))
    } else {
        Some(truncate_output(t.as_str()))
    }
}

impl ProcessAdapter {
    /// The command to launch, trimmed; a blank command cannot be spawned.
    pub fn launch_command(&self) -> (r: Result<String, AdapterError>)
        ensures
            trimmed(self.command@).len() == 0 <==> r.is_err(),
            match r {
                Ok(c) => c@ == trimmed(self.command@),
                Err(e) => e is SpawnFailed && error_text(e) == "Spawn failed: Process adapter command is empty. Set adapter command in workstream settings."@,
            },
    {
        let c = trim_text(self.command.as_str());
        if c.unicode_len() == 0 {
            let e = AdapterError::SpawnFailed(String::from_str(
                "Process adapter command is empty. Set adapter command in workstream settings."));
            proof {
                reveal_strlit("Spawn failed: ");
                reveal_strlit("Process adapter command is empty. Set adapter command in workstream settings.");
                reveal_strlit("Spawn failed: Process adapter command is empty. Set adapter command in workstream settings.");
                assert(error_text(e) =~= "Spawn failed: Process adapter command is empty. Set adapter command in workstream settings."@);
            }
            Err(e)
        } else {
            Ok(c)
        }
    }
}

} // verus!
