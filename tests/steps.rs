use kanbun::adapter::AdapterError;
use kanbun::models::{AgentStatus, Message, MessageDirection, MessageKind, RunStatus};
use kanbun::process::{classify_exit, ProcessAction, RestartPolicy};
use kanbun::ring::OutputRingBuffer;
use kanbun::steps::{
    apply_process_exit, apply_process_message, apply_process_write_failure, apply_start_failure,
    apply_start_success, apply_terminal_message, apply_webhook_message, apply_webhook_result,
    record_heartbeat, record_output_line, record_session_end, record_terminal_status,
};
use kanbun::store::Store;
use kanbun::supervisor::{record_start_failure, RuntimeState};
use kanbun::terminal::TerminalAction;
use kanbun::webhook::{PendingEffect, WebhookReply};

fn queue(store: &mut Store, agent: &str, kind: MessageKind, content: &str, at: i64) -> usize {
    store.insert_message(Message::outbound(&format!("m{}", at), agent, kind, content, at));
    store.message_count() - 1
}

fn latest_status(store: &Store, agent: &str) -> Option<RunStatus> {
    store.run_ledger().latest_run_for_agent(agent).map(|r| r.status)
}

#[test]
fn start_failures_are_recorded_in_the_store() {
    let mut store = Store::new();
    store.send_message("a", MessageKind::Instruction, "work", None);
    let mut state = RuntimeState::new();
    for attempt in 1..=3 {
        let report = record_start_failure(&mut state, 0, "spawn failed");
        apply_start_failure(&mut store, "a", &report, 10);
        let last = store.message(store.message_count() - 1);
        assert_eq!(last.kind, MessageKind::Error);
        assert_eq!(last.direction, MessageDirection::FromAgent);
        assert_eq!(last.metadata[2], ("consecutive_failures".to_string(), attempt.to_string()));
        assert_eq!(store.agent_status("a"), Some(AgentStatus::Errored));
        let run = store.run_ledger().latest_run_for_agent("a").expect("run");
        assert_eq!(run.outputs.last().expect("output").kind, "adapter_error");
        if attempt < 3 {
            assert_eq!(run.status, RunStatus::InProgress);
        } else {
            assert_eq!(run.status, RunStatus::Failed);
            assert_eq!(run.summary.as_deref(), Some("Adapter repeatedly failed to restart"));
        }
    }
    apply_start_success(&mut store, "a");
    assert_eq!(store.agent_status("a"), Some(AgentStatus::Idle));
}

#[test]
fn start_success_resumes_a_run_in_flight() {
    let mut store = Store::new();
    store.send_message("b", MessageKind::Instruction, "work", None);
    store.update_agent_status("b", AgentStatus::Errored);
    apply_start_success(&mut store, "b");
    assert_eq!(store.agent_status("b"), Some(AgentStatus::Running));
    store.update_agent_status("b", AgentStatus::Blocked);
    apply_start_success(&mut store, "b");
    assert_eq!(store.agent_status("b"), Some(AgentStatus::Blocked));
}

#[test]
fn process_messages_give_exact_stdin_and_store_effects() {
    let mut store = Store::new();
    let mut ring = OutputRingBuffer::new();
    ring.push("compiling".to_string());
    let i = queue(&mut store, "p", MessageKind::Instruction, "make", 1);
    let step = apply_process_message(&mut store, "p", i, "sh run", &ring, 2);
    assert_eq!(step.action, ProcessAction::WriteLine);
    assert_eq!(step.stdin.as_deref(), Some("make\n"));
    assert!(!step.stop);
    assert!(store.message(i).delivered_at.is_some());
    assert_eq!(store.agent_status("p"), Some(AgentStatus::Running));

    let i = queue(&mut store, "p", MessageKind::Pause, "", 3);
    let step = apply_process_message(&mut store, "p", i, "sh run", &ring, 4);
    assert_eq!(step.stdin.as_deref(), Some("\u{3}"));
    assert_eq!(store.agent_status("p"), Some(AgentStatus::Blocked));

    let i = queue(&mut store, "p", MessageKind::StatusRequest, "", 5);
    let step = apply_process_message(&mut store, "p", i, "sh run", &ring, 6);
    assert!(step.stdin.is_none());
    let last = store.message(store.message_count() - 1);
    assert_eq!(last.content, "Process command `sh run` is running.\nLast output: compiling");

    let i = queue(&mut store, "p", MessageKind::Cancel, "stop", 7);
    let step = apply_process_message(&mut store, "p", i, "sh run", &ring, 8);
    assert!(step.stop);
    assert!(step.stdin.is_none());
    assert_eq!(store.agent_status("p"), Some(AgentStatus::Idle));
    assert_eq!(latest_status(&store, "p"), Some(RunStatus::Failed));
    assert_eq!(store.message(store.message_count() - 1).content, "Process terminated.");
}

#[test]
fn process_failures_and_exits_end_the_run() {
    let mut store = Store::new();
    store.send_message("q", MessageKind::Instruction, "x", None);
    apply_process_write_failure(&mut store, "q", &AdapterError::DeliveryFailed("pipe".to_string()), 5);
    assert_eq!(store.message(store.message_count() - 1).content, "failed to send instruction: Delivery failed: pipe");
    assert_eq!(store.agent_status("q"), Some(AgentStatus::Errored));
    assert_eq!(latest_status(&store, "q"), Some(RunStatus::Failed));

    record_output_line(&mut store, "q", "stdout", "hello", 6);
    assert_eq!(store.agent_status("q"), Some(AgentStatus::Running));
    let report = classify_exit(RestartPolicy::OnFailure, Some(0));
    apply_process_exit(&mut store, "q", &report, 7);
    assert_eq!(store.message(store.message_count() - 1).kind, MessageKind::Completed);
    assert_eq!(store.agent_status("q"), Some(AgentStatus::Completed));
    assert_eq!(latest_status(&store, "q"), Some(RunStatus::Completed));
}

#[test]
fn terminal_events_are_recorded() {
    let mut store = Store::new();
    let i = queue(&mut store, "t", MessageKind::Resume, "go on", 1);
    assert_eq!(apply_terminal_message(&mut store, "t", i, 2), TerminalAction::SendText);
    assert_eq!(store.agent_status("t"), Some(AgentStatus::Running));
    record_heartbeat(&mut store, "t", "step 2", 3);
    record_terminal_status(&mut store, "t", "  pane  \n", 4);
    assert_eq!(store.message(store.message_count() - 1).content, "pane");
    let i = queue(&mut store, "t", MessageKind::Cancel, "", 5);
    assert_eq!(apply_terminal_message(&mut store, "t", i, 6), TerminalAction::InterruptAndExit);
    assert_eq!(latest_status(&store, "t"), Some(RunStatus::Failed));
    assert_eq!(store.agent_status("t"), Some(AgentStatus::Idle));
    record_session_end(&mut store, "t", 7);
    assert_eq!(store.message(store.message_count() - 1).content, "Session ended");
    assert_eq!(latest_status(&store, "t"), Some(RunStatus::Completed));
    assert_eq!(store.agent_status("t"), Some(AgentStatus::Completed));
}

#[test]
fn webhook_events_are_recorded() {
    let mut store = Store::new();
    let i = queue(&mut store, "w", MessageKind::Instruction, "ship", 1);
    assert_eq!(apply_webhook_message(&mut store, "w", i, 2), PendingEffect::StartRun);
    let reply = WebhookReply { kind: None, status: Some("needs_review".to_string()), content: Some("check".to_string()) };
    apply_webhook_result(&mut store, "w", Ok(Some(reply)), 3);
    assert_eq!(store.agent_status("w"), Some(AgentStatus::Blocked));
    assert_eq!(latest_status(&store, "w"), Some(RunStatus::NeedsReview));

    let i = queue(&mut store, "w", MessageKind::Instruction, "again", 4);
    apply_webhook_message(&mut store, "w", i, 5);
    apply_webhook_result(&mut store, "w", Err(AdapterError::Other("HTTP 500".to_string())), 6);
    let last = store.message(store.message_count() - 1);
    assert_eq!(last.kind, MessageKind::Error);
    assert_eq!(last.content, "Webhook delivery failed: HTTP 500");
    assert_eq!(latest_status(&store, "w"), Some(RunStatus::Failed));
    assert_eq!(store.agent_status("w"), Some(AgentStatus::Errored));

    apply_webhook_result(&mut store, "w", Ok(None), 7);
    assert_eq!(store.agent_status("w"), Some(AgentStatus::Running));
}

#[test]
fn storage_order_is_creation_order() {
    let mut store = Store::new();
    queue(&mut store, "o", MessageKind::Instruction, "late", 50);
    queue(&mut store, "o", MessageKind::Instruction, "early", 10);
    assert_eq!(store.message(1).created_at, 50);
    assert_eq!(store.pending_messages("o"), vec![0, 1]);
    let delivered = store.poll_pending_messages("o", 60);
    assert_eq!(delivered, vec![0, 1]);
    assert_eq!(store.message(1).delivered_at, Some(60));
    assert_eq!(store.message(1).content, "early");
}
