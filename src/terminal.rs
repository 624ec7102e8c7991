//! The terminal-multiplexer transport: session naming and the line-level diff
//! of successive pane captures.
use vstd::prelude::*;
use crate::adapter::AdapterHealth;
use crate::models::{AdapterConfig, MessageKind};
use crate::ring::{join_all, line_views};
use crate::text::{join_lines, lines_of, push_char, push_text, same_text, text_lines, trim_text, trimmed};

verus! {

/// How many lines of the pane each poll captures.
pub const CAPTURE_LINES: usize = 50;

/// How many characters of the agent id a session name keeps.
pub const SESSION_ID_CHARS: usize = 8;

/// A multiplexer transport for one agent.
#[derive(Debug, Clone)]
pub struct ClaudeCodeAdapter {
    pub session_prefix: String,
    pub working_directory: Option<String>,
    pub claude_command: String,
}

/// The name of an agent's session: the prefix, a dash, and the first eight
/// characters of the agent id.
pub open spec fn session_name_of(prefix: Seq<char>, agent_id: Seq<char>) -> Seq<char> {
    prefix + "-"@ + if agent_id.len() <= SESSION_ID_CHARS { agent_id } else { agent_id.take(SESSION_ID_CHARS as int) }
}

impl ClaudeCodeAdapter {
    /// The session prefix (default "kb"), the working directory (held in the
    /// configuration's command field) and the agent binary (held in its
    /// endpoint field, else `default_binary`).
    pub fn new(config: &AdapterConfig, default_binary: &str) -> (r: ClaudeCodeAdapter)
        ensures
            r.session_prefix@ == match config.session_name {
                Some(s) => s@,
                None => "kb"@,
            },
            r.working_directory == config.command,
            r.claude_command@ == match config.endpoint {
                Some(e) => e@,
                None => default_binary@,
            },
    {
        ClaudeCodeAdapter {
            session_prefix: match &config.session_name {
                Some(s) => s.clone(),
                None => String::from_str("kb"),
            },
            working_directory: match &config.command {
                Some(c) => Some(c.clone()),
                None => None,
            },
            claude_command: match &config.endpoint {
                Some(e) => e.clone(),
                None => String::from_str(default_binary),
            },
        }
    }

    /// The session that serves an agent.
    pub fn session_name(&self, agent_id: &str) -> (r: String)
        ensures
            r@ == session_name_of(self.session_prefix@, agent_id@),
    {
        let n = agent_id.unicode_len();
        let keep: usize = if n <= SESSION_ID_CHARS { n } else { SESSION_ID_CHARS };
        let mut r = self.session_prefix.clone();
        push_char(&mut r, '-');
        push_text(&mut r, agent_id.substring_char(0, keep));
        proof {
            reveal_strlit("-");
            if n <= SESSION_ID_CHARS {
                assert(agent_id@.subrange(0, n as int) =~= agent_id@);
            }
            assert(r@ =~= session_name_of(self.session_prefix@, agent_id@));
        }
        r
    }

    /// The health report of an agent's session, with the last lines of its
    /// pane as details when it is alive.
    pub fn health(session_active: bool, pane_tail: Option<String>) -> (h: AdapterHealth)
        ensures
            h.connected == session_active,
            h.session_active == session_active,
            h.last_heartbeat.is_none(),
            h.details == if session_active { pane_tail } else { None },
            h.last_error.is_none(),
            h.retry_after_seconds.is_none(),
            h.consecutive_failures.is_none(),
            h.suppress_auto_restart.is_none(),
    {
        let details = if session_active { pane_tail } else { None };
        AdapterHealth::observed(session_active, session_active, None, details)
    }
}

/// The lines of `current` that the previous capture does not hold, in order.
pub open spec fn fresh_lines(current: Seq<Seq<char>>, previous: Seq<Seq<char>>) -> Seq<Seq<char>>
    decreases current.len(),
{
    if current.len() == 0 {
        Seq::empty()
    } else {
        let rest = fresh_lines(current.drop_last(), previous);
        if previous.contains(current.last()) { rest } else { rest.push(current.last()) }
    }
}

/// The text new in `current` relative to `previous`: all of it when there
/// was no previous capture, else its lines that the previous capture lacks.
pub open spec fn pane_delta(previous: Seq<char>, current: Seq<char>) -> Seq<char> {
    if previous.len() == 0 {
        current
    } else {
        join_lines(fresh_lines(text_lines(current), text_lines(previous)))
    }
}

/// The outcome of comparing two captures of a pane.
#[derive(Debug, Clone)]
pub struct PaneDiff {
    /// Whether the capture replaces the remembered one.
    pub changed: bool,
    /// The text reported as a heartbeat, when there is new activity.
    pub heartbeat: Option<String>,
}

/// Compares a capture with the previous one. A capture that differs and is
/// not blank replaces the remembered one; its new lines are reported when
/// they are not blank.
pub fn diff_pane(previous: &str, current: &str) -> (d: PaneDiff)
    ensures
        d.changed == (current@ != previous@ && trimmed(current@).len() > 0),
        !d.changed ==> d.heartbeat.is_none(),
        d.changed ==> match d.heartbeat {
            Some(h) => h@ == pane_delta(previous@, current@) && trimmed(h@).len() > 0,
            None => trimmed(pane_delta(previous@, current@)).len() == 0,
        },
{
    let blank = trim_text(current).unicode_len() == 0;
    if same_text(current, previous) || blank {
        return PaneDiff { changed: false, heartbeat: None };
    }
    let delta = if previous.unicode_len() == 0 {
        String::from_str(current)
    } else {
        let cur = lines_of(current);
        let prev = lines_of(previous);
        let fresh = keep_fresh(&cur, &prev);
        join_all(&fresh)
    };
    let report = trim_text(delta.as_str()).unicode_len() > 0;
    PaneDiff { changed: true, heartbeat: if report { Some(delta) } else { None } }
}

/// The lines of `current` absent from `previous`, in order.
fn keep_fresh(current: &Vec<String>, previous: &Vec<String>) -> (r: Vec<String>)
    ensures
        line_views(r@) == fresh_lines(line_views(current@), line_views(previous@)),
{
    let mut r: Vec<String> = Vec::new();
    let mut i: usize = 0;
    while i < current.len()
        invariant
            i <= current@.len(),
            line_views(r@) == fresh_lines(line_views(current@).take(i as int), line_views(previous@)),
        decreases current@.len() - i,
    {
        proof {
            assert(line_views(current@).take(i as int + 1).drop_last() =~= line_views(current@).take(i as int));
        }
        let seen = holds_line(previous, current[i].as_str());
        if !seen {
            let ghost before = r@;
            let line = current[i].clone();
            r.push(line);
            assert(line_views(r@) =~= line_views(before).push(current@[i as int]@));
        }
        i = i + 1;
    }
    assert(line_views(current@).take(current@.len() as int) =~= line_views(current@));
    r
}

/// Whether `lines` holds `line`.
fn holds_line(lines: &Vec<String>, line: &str) -> (r: bool)
    ensures
        r == line_views(lines@).contains(line@),
{
    let mut i: usize = 0;
    while i < lines.len()
        invariant
            i <= lines@.len(),
            forall|j: int| 0 <= j < i ==> lines@[j]@ != line@,
        decreases lines@.len() - i,
    {
        if same_text(lines[i].as_str(), line) {
            assert(line_views(lines@)[i as int] == line@);
            return true;
        }
        i = i + 1;
    }
    proof {
        if line_views(lines@).contains(line@) {
            let k = choose|k: int| 0 <= k < line_views(lines@).len() && line_views(lines@)[k] == line@;
            assert(lines@[k]@ == line@);
        }
    }
    false
}

} // verus!

verus! {

/// What the multiplexer transport does with a message delivered to it.
#[derive(Debug, Clone, Copy, PartialEq, Eq, Structural)]
pub enum TerminalAction {
    /// Start (or extend) the instruction run and type the content, then Enter.
    SendText,
    /// Send an interrupt keystroke and mark the agent blocked.
    Interrupt,
    /// Send an interrupt, wait, then type the exit command; the run fails.
    InterruptAndExit,
    /// Capture the pane and report it as a status update.
    CaptureStatus,
    /// Nothing to do.
    Ignore,
}

/// The action for a message of the given kind.
pub fn terminal_action_for(kind: MessageKind) -> (a: TerminalAction)
    ensures
        (kind == MessageKind::Instruction || kind == MessageKind::Resume) <==> a == TerminalAction::SendText,
        kind == MessageKind::Pause <==> a == TerminalAction::Interrupt,
        kind == MessageKind::Cancel <==> a == TerminalAction::InterruptAndExit,
        kind == MessageKind::StatusRequest <==> a == TerminalAction::CaptureStatus,
{
    match kind {
        MessageKind::Instruction | MessageKind::Resume => TerminalAction::SendText,
        MessageKind::Pause => TerminalAction::Interrupt,
        MessageKind::Cancel => TerminalAction::InterruptAndExit,
        MessageKind::StatusRequest => TerminalAction::CaptureStatus,
        _ => TerminalAction::Ignore,
    }
}

} // verus!
