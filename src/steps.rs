//! What each transport's poll loop records in the store, one event at a
//! time: the messages it stores, the runs it logs and ends, and the statuses
//! it sets. The loops themselves perform the I/O and call these.
use vstd::prelude::*;
use crate::adapter::{error_text, AdapterError};
use crate::models::{AgentStatus, Message, MessageKind, RunStatus};
use crate::process::{action_for, process_action_for, status_report, stdin_text, ExitReport, ProcessAction};
use crate::ring::OutputRingBuffer;
use crate::runs::{is_active, latest_index, Run};
use crate::store::{
    appended, current_status, in_flight, latest_status, logged, pending_for, Store,
};
use crate::supervisor::{recovered_status, FailureReport};
use crate::terminal::{terminal_action_for, TerminalAction};
use crate::text::{is_white_space, push_char, push_text, trim_end_ws, trim_start_ws, trim_text, trimmed};
use crate::webhook::{clone_pairs, kind_name, status_after_reply, PendingEffect, ReplyOutcome, WebhookAdapter, WebhookReply};

verus! {

/// A text that neither starts nor ends with white space is its own trim.
proof fn lemma_trimmed_plain(s: Seq<char>)
    requires
        s.len() > 0,
        !is_white_space(s[0]),
        !is_white_space(s.last()),
    ensures
        trimmed(s) == s,
{
    assert(trim_start_ws(s) == s);
}

/// Whether the agent's latest run ended with `status` (one was created with
/// it when the agent had none; an already ended run stays as it was).
pub open spec fn finalized(old_runs: Seq<Run>, new_runs: Seq<Run>, agent: Seq<char>, status: RunStatus) -> bool {
    &&& in_flight(old_runs, agent) || latest_index(old_runs, agent) is None ==> latest_status(new_runs, agent) == Some(status)
    &&& latest_index(old_runs, agent) is Some && !in_flight(old_runs, agent) ==> new_runs == old_runs
}

/// Records a failed start: an Error message with the summary and the retry
/// metadata, the agent marked Errored, and, when a run is in flight, an
/// `adapter_error` output on it; that run is failed once three or more
/// consecutive starts have failed, and stays in progress otherwise.
pub fn apply_start_failure(store: &mut Store, agent_id: &str, report: &FailureReport, now: i64)
    requires
        old(store).wf(),
    ensures
        final(store).wf(),
        appended(old(store).messages(), final(store).messages(), agent_id@, MessageKind::Error, report.summary@),
        final(store).messages().last().metadata@ == report.metadata@,
        final(store).statuses() == old(store).statuses().push((agent_id@, AgentStatus::Errored)),
        !in_flight(old(store).runs(), agent_id@) ==> final(store).runs() == old(store).runs(),
        in_flight(old(store).runs(), agent_id@) ==> {
            let k = latest_index(old(store).runs(), agent_id@).unwrap();
            &&& latest_index(final(store).runs(), agent_id@) == Some(k)
            &&& final(store).runs()[k].outputs@.last().kind@ == "adapter_error"@
            &&& final(store).runs()[k].outputs@.last().content@ == report.summary@
            &&& report.fail_run_in_flight ==> final(store).runs()[k].status == RunStatus::Failed
                && final(store).runs()[k].summary.is_some()
                && final(store).runs()[k].summary.unwrap()@ == "Adapter repeatedly failed to restart"@
            &&& !report.fail_run_in_flight ==> is_active(final(store).runs()[k])
        },
{
    let id = crate::models::fresh_message_id();
    let mut m = Message::inbound(id.as_str(), agent_id, MessageKind::Error, report.summary.as_str(), now);
    m.metadata = clone_pairs(&report.metadata);
    let ghost before = store.messages();
    store.insert_message(m);
    assert(store.messages().take(before.len() as int) =~= before);
    let flying = store.run_in_flight(agent_id);
    if flying {
        store.append_run_output(agent_id, "adapter_error", report.summary.as_str(), now);
        if report.fail_run_in_flight {
            let summary = String::from_str("Adapter repeatedly failed to restart");
            proof {
                reveal_strlit("Adapter repeatedly failed to restart");
                lemma_trimmed_plain(summary@);
            }
            store.finalize_latest_run(agent_id, RunStatus::Failed, Some(summary), now);
        }
    }
    store.update_agent_status(agent_id, AgentStatus::Errored);
}

/// Records a successful start: an errored agent runs again when a run is in
/// flight and idles otherwise; any other status stays.
pub fn apply_start_success(store: &mut Store, agent_id: &str)
    requires
        old(store).wf(),
    ensures
        final(store).wf(),
        final(store).messages() == old(store).messages(),
        final(store).runs() == old(store).runs(),
        final(store).statuses() == match current_status(old(store).statuses(), agent_id@) {
            Some(AgentStatus::Errored) => old(store).statuses().push((agent_id@,
                if in_flight(old(store).runs(), agent_id@) { AgentStatus::Running } else { AgentStatus::Idle })),
            _ => old(store).statuses(),
        },
{
    let flying = store.run_in_flight(agent_id);
    if let Some(current) = store.agent_status(agent_id) {
        if let Some(next) = recovered_status(current, flying) {
            store.update_agent_status(agent_id, next);
        }
    }
}

/// What the subprocess poll loop does with a pending message.
#[derive(Debug, Clone)]
pub struct ProcessStep {
    pub action: ProcessAction,
    /// The exact text to write to the process's stdin.
    pub stdin: Option<String>,
    /// Whether the loop ends after this message.
    pub stop: bool,
}

/// Handles a pending message of the subprocess transport in the store: the
/// message is marked delivered; an instruction (or resume) is recorded on the
/// run and the agent runs; a pause blocks the agent and is reported; a cancel
/// is logged and reported, fails the run, idles the agent and ends the loop;
/// a status request is answered from the output buffer.
pub fn apply_process_message(
    store: &mut Store,
    agent_id: &str,
    index: usize,
    command: &str,
    ring: &OutputRingBuffer,
    now: i64,
) -> (r: ProcessStep)
    requires
        old(store).wf(),
        index < old(store).messages().len(),
        old(store).messages()[index as int].agent_id@ == agent_id@,
    ensures
        final(store).wf(),
        ({
            let m = old(store).messages()[index as int];
            let n = old(store).messages().len();
            &&& r.action == action_for(m.kind)
            &&& r.stop == (r.action == ProcessAction::Terminate)
            &&& match r.stdin {
                Some(t) => stdin_text(m.kind, m.content@) == Some(t@),
                None => stdin_text(m.kind, m.content@).is_none(),
            }
            &&& final(store).messages()[index as int].delivered_at.is_some()
            &&& final(store).messages()[index as int].kind == m.kind
            &&& forall|j: int| 0 <= j < n && j != index ==> final(store).messages()[j] == old(store).messages()[j]
            &&& r.action == ProcessAction::WriteLine ==> {
                &&& final(store).statuses() == old(store).statuses().push((agent_id@, AgentStatus::Running))
                &&& final(store).messages().len() == n
                &&& logged(old(store).runs(), final(store).runs(), agent_id@, "instruction"@, m.content@)
            }
            &&& r.action == ProcessAction::Interrupt ==> {
                &&& final(store).statuses() == old(store).statuses().push((agent_id@, AgentStatus::Blocked))
                &&& final(store).messages().len() == n + 1
                &&& final(store).messages().last().kind == MessageKind::StatusUpdate
                &&& final(store).messages().last().content@ == "Pause signal sent to process stdin."@
            }
            &&& r.action == ProcessAction::Terminate ==> {
                &&& final(store).statuses() == old(store).statuses().push((agent_id@, AgentStatus::Idle))
                &&& final(store).messages().len() == n + 1
                &&& final(store).messages().last().kind == MessageKind::StatusUpdate
                &&& final(store).messages().last().content@ == "Process terminated."@
                &&& latest_status(final(store).runs(), agent_id@) == Some(RunStatus::Failed)
            }
            &&& r.action == ProcessAction::ReportStatus ==> {
                &&& final(store).statuses() == old(store).statuses()
                &&& final(store).messages().len() == n + 1
                &&& final(store).messages().last().kind == MessageKind::StatusUpdate
                &&& final(store).messages().last().agent_id@ == agent_id@
            }
            &&& r.action == ProcessAction::Ignore ==> {
                &&& final(store).statuses() == old(store).statuses()
                &&& final(store).messages().len() == n
                &&& final(store).runs() == old(store).runs()
            }
        }),
{
    let ghost n = store.messages().len();
    store.mark_delivered(index, now);
    let kind = store.message(index).kind;
    let content = store.message(index).content.clone();
    let action = process_action_for(kind);
    let mut stdin: Option<String> = None;
    match action {
        ProcessAction::WriteLine => {
            store.start_instruction_run(agent_id, content.as_str(), now);
            store.update_agent_status(agent_id, AgentStatus::Running);
            let mut line = content.clone();
            push_char(&mut line, '\n');
            stdin = Some(line);
        },
        ProcessAction::Interrupt => {
            store.update_agent_status(agent_id, AgentStatus::Blocked);
            store.record_inbound(agent_id, MessageKind::StatusUpdate, "Pause signal sent to process stdin.", "status_update", now);
            let mut t = String::new();
            push_char(&mut t, '\u{3}');
            stdin = Some(t);
        },
        ProcessAction::Terminate => {
            store.append_run_output(agent_id, "cancel", content.as_str(), now);
            store.record_inbound(agent_id, MessageKind::StatusUpdate, "Process terminated.", "status_update", now);
            store.finalize_latest_run(agent_id, RunStatus::Failed, Some(String::from_str("Cancelled by operator")), now);
            store.update_agent_status(agent_id, AgentStatus::Idle);
        },
        ProcessAction::ReportStatus => {
            let details = status_report(command, ring);
            store.record_inbound(agent_id, MessageKind::StatusUpdate, details.as_str(), "status_update", now);
        },
        ProcessAction::Ignore => {},
    }
    proof {
        assert(seq!['\u{3}'] =~= Seq::<char>::empty().push('\u{3}'));
    }
    ProcessStep { action, stdin, stop: action == ProcessAction::Terminate }
}

/// Records that writing an instruction to stdin failed: an Error message,
/// logged on the run, which then fails; the agent is errored.
pub fn apply_process_write_failure(store: &mut Store, agent_id: &str, error: &AdapterError, now: i64)
    requires
        old(store).wf(),
    ensures
        final(store).wf(),
        appended(old(store).messages(), final(store).messages(), agent_id@, MessageKind::Error,
            "failed to send instruction: "@ + error_text(*error)),
        final(store).statuses() == old(store).statuses().push((agent_id@, AgentStatus::Errored)),
        latest_status(final(store).runs(), agent_id@) == Some(RunStatus::Failed),
{
    let mut text = String::from_str("failed to send instruction: ");
    let e = error.to_text();
    push_text(&mut text, e.as_str());
    store.record_inbound(agent_id, MessageKind::Error, text.as_str(), "error", now);
    let ghost mid = store.messages();
    store.finalize_latest_run(agent_id, RunStatus::Failed, Some(String::from_str("Process instruction delivery failed")), now);
    store.update_agent_status(agent_id, AgentStatus::Errored);
}

/// Records a process exit: the exit message of the report, logged on the
/// run, which ends with the report's run status; the agent takes the report's
/// status.
pub fn apply_process_exit(store: &mut Store, agent_id: &str, report: &ExitReport, now: i64)
    requires
        old(store).wf(),
    ensures
        final(store).wf(),
        appended(old(store).messages(), final(store).messages(), agent_id@, report.kind, report.note@),
        final(store).statuses() == old(store).statuses().push((agent_id@, report.agent_status)),
        latest_status(final(store).runs(), agent_id@) == Some(report.run_status),
{
    store.record_inbound(agent_id, report.kind, report.note.as_str(), "process_exit", now);
    store.finalize_latest_run(agent_id, report.run_status, Some(report.note.clone()), now);
    store.update_agent_status(agent_id, report.agent_status);
}

/// Records one line of process output: an Output message logged on the run
/// under its stream's name; the agent runs.
pub fn record_output_line(store: &mut Store, agent_id: &str, stream_kind: &str, line: &str, now: i64)
    requires
        old(store).wf(),
    ensures
        final(store).wf(),
        appended(old(store).messages(), final(store).messages(), agent_id@, MessageKind::Output, line@),
        logged(old(store).runs(), final(store).runs(), agent_id@, stream_kind@, line@),
        final(store).statuses() == old(store).statuses().push((agent_id@, AgentStatus::Running)),
{
    store.record_inbound(agent_id, MessageKind::Output, line, stream_kind, now);
    store.update_agent_status(agent_id, AgentStatus::Running);
}

/// Handles a pending message of the multiplexer transport in the store: the
/// message is marked delivered; an instruction (or resume) is recorded on the
/// run and the agent runs; a pause is logged and blocks the agent; a cancel is
/// logged, fails the run and idles the agent.
pub fn apply_terminal_message(store: &mut Store, agent_id: &str, index: usize, now: i64) -> (a: TerminalAction)
    requires
        old(store).wf(),
        index < old(store).messages().len(),
        old(store).messages()[index as int].agent_id@ == agent_id@,
    ensures
        final(store).wf(),
        ({
            let m = old(store).messages()[index as int];
            let n = old(store).messages().len();
            &&& final(store).messages().len() == n
            &&& final(store).messages()[index as int].delivered_at.is_some()
            &&& final(store).messages()[index as int].kind == m.kind
            &&& forall|j: int| 0 <= j < n && j != index ==> final(store).messages()[j] == old(store).messages()[j]
            &&& a == TerminalAction::SendText ==> {
                &&& final(store).statuses() == old(store).statuses().push((agent_id@, AgentStatus::Running))
                &&& logged(old(store).runs(), final(store).runs(), agent_id@, "instruction"@, m.content@)
            }
            &&& a == TerminalAction::Interrupt ==> {
                &&& final(store).statuses() == old(store).statuses().push((agent_id@, AgentStatus::Blocked))
                &&& logged(old(store).runs(), final(store).runs(), agent_id@, "pause"@, m.content@)
            }
            &&& a == TerminalAction::InterruptAndExit ==> {
                &&& final(store).statuses() == old(store).statuses().push((agent_id@, AgentStatus::Idle))
                &&& latest_status(final(store).runs(), agent_id@) == Some(RunStatus::Failed)
            }
            &&& (a == TerminalAction::CaptureStatus || a == TerminalAction::Ignore) ==> {
                &&& final(store).statuses() == old(store).statuses()
                &&& final(store).runs() == old(store).runs()
            }
        }),
        (old(store).messages()[index as int].kind == MessageKind::Instruction
            || old(store).messages()[index as int].kind == MessageKind::Resume) <==> a == TerminalAction::SendText,
        old(store).messages()[index as int].kind == MessageKind::Pause <==> a == TerminalAction::Interrupt,
        old(store).messages()[index as int].kind == MessageKind::Cancel <==> a == TerminalAction::InterruptAndExit,
        old(store).messages()[index as int].kind == MessageKind::StatusRequest <==> a == TerminalAction::CaptureStatus,
{
    store.mark_delivered(index, now);
    let kind = store.message(index).kind;
    let content = store.message(index).content.clone();
    let a = terminal_action_for(kind);
    match a {
        TerminalAction::SendText => {
            store.start_instruction_run(agent_id, content.as_str(), now);
            store.update_agent_status(agent_id, AgentStatus::Running);
        },
        TerminalAction::Interrupt => {
            store.append_run_output(agent_id, "pause", content.as_str(), now);
            store.update_agent_status(agent_id, AgentStatus::Blocked);
        },
        TerminalAction::InterruptAndExit => {
            store.append_run_output(agent_id, "cancel", content.as_str(), now);
            store.finalize_latest_run(agent_id, RunStatus::Failed, Some(String::from_str("Cancelled by operator")), now);
            store.update_agent_status(agent_id, AgentStatus::Idle);
        },
        _ => {},
    }
    a
}

/// Records a pane capture as the answer to a status request: a status update
/// with the capture trimmed, logged on the run.
pub fn record_terminal_status(store: &mut Store, agent_id: &str, capture: &str, now: i64)
    requires
        old(store).wf(),
    ensures
        final(store).wf(),
        appended(old(store).messages(), final(store).messages(), agent_id@, MessageKind::StatusUpdate, trimmed(capture@)),
        logged(old(store).runs(), final(store).runs(), agent_id@, "status_update"@, trimmed(capture@)),
        final(store).statuses() == old(store).statuses(),
{
    let t = trim_text(capture);
    store.record_inbound(agent_id, MessageKind::StatusUpdate, t.as_str(), "status_update", now);
}

/// Records new pane activity: a heartbeat with the new lines, logged on the
/// run; the agent runs.
pub fn record_heartbeat(store: &mut Store, agent_id: &str, text: &str, now: i64)
    requires
        old(store).wf(),
    ensures
        final(store).wf(),
        appended(old(store).messages(), final(store).messages(), agent_id@, MessageKind::Heartbeat, text@),
        logged(old(store).runs(), final(store).runs(), agent_id@, "heartbeat"@, text@),
        final(store).statuses() == old(store).statuses().push((agent_id@, AgentStatus::Running)),
{
    store.record_inbound(agent_id, MessageKind::Heartbeat, text, "heartbeat", now);
    store.update_agent_status(agent_id, AgentStatus::Running);
}

/// Records that the agent's session ended: a Completed message, logged on the
/// run, which completes; the agent is completed.
pub fn record_session_end(store: &mut Store, agent_id: &str, now: i64)
    requires
        old(store).wf(),
    ensures
        final(store).wf(),
        appended(old(store).messages(), final(store).messages(), agent_id@, MessageKind::Completed, "Session ended"@),
        final(store).statuses() == old(store).statuses().push((agent_id@, AgentStatus::Completed)),
        latest_status(final(store).runs(), agent_id@) == Some(RunStatus::Completed),
{
    store.record_inbound(agent_id, MessageKind::Completed, "Session ended", "completed", now);
    store.finalize_latest_run(agent_id, RunStatus::Completed, Some(String::from_str("Session ended")), now);
    store.update_agent_status(agent_id, AgentStatus::Completed);
}

/// Handles a pending message of the webhook transport before its reply: the
/// message is marked delivered; an instruction (or resume) is recorded on the
/// run and the agent runs; a pause blocks the agent; a cancel fails the run
/// and idles the agent.
pub fn apply_webhook_message(store: &mut Store, agent_id: &str, index: usize, now: i64) -> (e: PendingEffect)
    requires
        old(store).wf(),
        index < old(store).messages().len(),
        old(store).messages()[index as int].agent_id@ == agent_id@,
    ensures
        final(store).wf(),
        ({
            let m = old(store).messages()[index as int];
            let n = old(store).messages().len();
            &&& final(store).messages().len() == n
            &&& final(store).messages()[index as int].delivered_at.is_some()
            &&& forall|j: int| 0 <= j < n && j != index ==> final(store).messages()[j] == old(store).messages()[j]
            &&& e == PendingEffect::StartRun ==> {
                &&& final(store).statuses() == old(store).statuses().push((agent_id@, AgentStatus::Running))
                &&& logged(old(store).runs(), final(store).runs(), agent_id@, "instruction"@, m.content@)
            }
            &&& e == PendingEffect::Block ==> {
                &&& final(store).statuses() == old(store).statuses().push((agent_id@, AgentStatus::Blocked))
                &&& final(store).runs() == old(store).runs()
            }
            &&& e == PendingEffect::CancelRun ==> {
                &&& final(store).statuses() == old(store).statuses().push((agent_id@, AgentStatus::Idle))
                &&& finalized(old(store).runs(), final(store).runs(), agent_id@, RunStatus::Failed)
            }
            &&& e == PendingEffect::Nothing ==> {
                &&& final(store).statuses() == old(store).statuses()
                &&& final(store).runs() == old(store).runs()
            }
        }),
        (old(store).messages()[index as int].kind == MessageKind::Instruction
            || old(store).messages()[index as int].kind == MessageKind::Resume) <==> e == PendingEffect::StartRun,
        old(store).messages()[index as int].kind == MessageKind::Pause <==> e == PendingEffect::Block,
        old(store).messages()[index as int].kind == MessageKind::Cancel <==> e == PendingEffect::CancelRun,
{
    store.mark_delivered(index, now);
    let kind = store.message(index).kind;
    let content = store.message(index).content.clone();
    let e = WebhookAdapter::pending_effect(kind);
    match e {
        PendingEffect::StartRun => {
            store.start_instruction_run(agent_id, content.as_str(), now);
            store.update_agent_status(agent_id, AgentStatus::Running);
        },
        PendingEffect::Block => {
            store.update_agent_status(agent_id, AgentStatus::Blocked);
        },
        PendingEffect::CancelRun => {
            store.finalize_latest_run(agent_id, RunStatus::Failed, Some(String::from_str("Cancelled by operator")), now);
            store.update_agent_status(agent_id, AgentStatus::Idle);
        },
        PendingEffect::Nothing => {},
    }
    e
}

/// Records the result of posting a message to the webhook. A reply stores a
/// message of the kind it names, logged on the run under that kind's name;
/// a run status in the reply ends the run with it, and the agent takes the
/// status that follows. No reply body leaves the agent running. A failed post
/// stores an Error message, logged on the run, which then fails; the agent is
/// errored.
pub fn apply_webhook_result(store: &mut Store, agent_id: &str, result: Result<Option<WebhookReply>, AdapterError>, now: i64)
    requires
        old(store).wf(),
    ensures
        final(store).wf(),
        match result {
            Ok(Some(reply)) => {
                let outcome = WebhookAdapter::reply_outcome_spec(reply);
                &&& appended(old(store).messages(), final(store).messages(), agent_id@, outcome.0, outcome.1)
                &&& final(store).statuses() == old(store).statuses().push((agent_id@, status_after_reply(outcome.2)))
                &&& outcome.2 is Some ==> latest_status(final(store).runs(), agent_id@) == outcome.2
                &&& outcome.2 is None ==> logged(old(store).runs(), final(store).runs(), agent_id@, kind_name(outcome.0), outcome.1)
            },
            Ok(None) => {
                &&& final(store).messages() == old(store).messages()
                &&& final(store).runs() == old(store).runs()
                &&& final(store).statuses() == old(store).statuses().push((agent_id@, AgentStatus::Running))
            },
            Err(e) => {
                &&& appended(old(store).messages(), final(store).messages(), agent_id@, MessageKind::Error,
                    "Webhook delivery failed: "@ + error_text(e))
                &&& final(store).statuses() == old(store).statuses().push((agent_id@, AgentStatus::Errored))
                &&& latest_status(final(store).runs(), agent_id@) == Some(RunStatus::Failed)
            },
        },
{
    match result {
        Ok(Some(reply)) => {
            let outcome = WebhookAdapter::reply_outcome(&reply);
            store.record_inbound(agent_id, outcome.kind, outcome.content.as_str(),
                WebhookAdapter::message_kind_as_output(outcome.kind), now);
            if let Some(status) = outcome.finalize {
                store.finalize_latest_run(agent_id, status, Some(outcome.content.clone()), now);
            }
            store.update_agent_status(agent_id, outcome.agent_status);
        },
        Ok(None) => {
            store.update_agent_status(agent_id, AgentStatus::Running);
        },
        Err(e) => {
            let text = WebhookAdapter::delivery_failure_text(&e);
            store.record_inbound(agent_id, MessageKind::Error, text.as_str(), "error", now);
            store.finalize_latest_run(agent_id, RunStatus::Failed, Some(text.clone()), now);
            store.update_agent_status(agent_id, AgentStatus::Errored);
        },
    }
}

} // verus!
