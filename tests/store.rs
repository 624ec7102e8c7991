use kanbun::mock::MockAdapter;
use kanbun::models::{AgentStatus, Message, MessageDirection, MessageKind, RunStatus};
use kanbun::runs::{summarize_instruction, RunLedger};
use kanbun::store::Store;

#[test]
fn start_instruction_run_creates_and_reuses_active_run() {
    let mut db = RunLedger::new();
    let agent_id = "agent-a";

    let first = db.start_instruction_run(agent_id, "Implement feature A", 1);
    let second = db.start_instruction_run(agent_id, "Apply follow-up fix", 2);

    assert_eq!(db.get(first).id, db.get(second).id);
    let latest = db.latest_run_for_agent(agent_id).expect("run should exist");
    assert_eq!(latest.status, RunStatus::InProgress);
    assert!(latest.ended_at.is_none());
    assert_eq!(latest.outputs.len(), 2);
}

#[test]
fn finalize_latest_run_marks_completed() {
    let mut db = RunLedger::new();
    let agent_id = "agent-b";

    db.start_instruction_run(agent_id, "Ship update", 1);
    db.append_run_output(agent_id, "output", "Generated patch", 2);
    db.finalize_latest_run(agent_id, RunStatus::Completed, Some("Ship complete".to_string()), 3);

    let latest = db.latest_run_for_agent(agent_id).expect("run should exist");
    assert_eq!(latest.status, RunStatus::Completed);
    assert!(latest.ended_at.is_some());
    assert_eq!(latest.summary.as_deref(), Some("Ship complete"));
}

#[test]
fn append_run_output_creates_run_when_missing() {
    let mut db = RunLedger::new();
    let agent_id = "agent-c";

    db.append_run_output(agent_id, "output", "Initial output without instruction", 1);

    let latest = db.latest_run_for_agent(agent_id).expect("run should exist");
    assert_eq!(latest.status, RunStatus::InProgress);
    assert_eq!(latest.outputs.len(), 1);
    assert_eq!(latest.outputs[0].kind, "output");
    assert_eq!(latest.summary.as_deref(), Some("Agent activity"));
}

#[test]
fn finalize_without_runs_records_an_ended_run() {
    let mut db = RunLedger::new();
    let i = db.finalize_latest_run("agent-d", RunStatus::Failed, None, 9);
    let run = db.get(i);
    assert_eq!(run.status, RunStatus::Failed);
    assert_eq!(run.ended_at, Some(9));
    let j = db.start_instruction_run("agent-d", "again", 10);
    assert_ne!(i, j);
    assert_eq!(db.len(), 2);
}

#[test]
fn blank_summary_keeps_the_previous_one() {
    let mut db = RunLedger::new();
    db.start_instruction_run("agent-e", "task", 1);
    db.finalize_latest_run("agent-e", RunStatus::Completed, Some("   ".to_string()), 2);
    let latest = db.latest_run_for_agent("agent-e").expect("run");
    assert_eq!(latest.summary.as_deref(), Some("Running: task"));
}

#[test]
fn instruction_summaries_are_capped() {
    assert_eq!(summarize_instruction("   "), "Running instruction");
    assert_eq!(summarize_instruction("  fix it "), "Running: fix it");
    let long = "z".repeat(100);
    assert_eq!(summarize_instruction(&long), format!("Running: {}...", "z".repeat(96)));
}

#[test]
fn runs_of_agents_stay_apart() {
    let mut db = RunLedger::new();
    let a = db.start_instruction_run("agent-1", "one", 1);
    let b = db.start_instruction_run("agent-2", "two", 2);
    assert_ne!(a, b);
    assert_eq!(db.latest_run_for_agent("agent-1").expect("run").outputs[0].content, "one");
}

#[test]
fn mock_transport_completes_an_instruction() {
    let mut store = Store::new();
    let agent_id = "agent-mock";
    store.update_agent_status(agent_id, AgentStatus::Idle);
    let instruction = Message::to_agent(agent_id, MessageKind::Instruction, "build the thing");
    assert_eq!(instruction.id.len(), 36);
    store.insert_message(instruction);
    assert_eq!(store.pending_messages(agent_id), vec![0]);

    let mock = MockAdapter::new();
    let handled = mock.poll_once(&mut store, agent_id, 2_100);
    assert_eq!(handled, 1);

    assert!(store.message(0).delivered_at.is_some());
    assert!(store.pending_messages(agent_id).is_empty());
    let output = store.message(1);
    assert_eq!(output.kind, MessageKind::Output);
    assert_eq!(output.direction, MessageDirection::FromAgent);
    assert!(output.content.contains("build the thing"));
    let done = store.message(2);
    assert_eq!(done.kind, MessageKind::Completed);
    assert_eq!(store.message_count(), 3);
    assert_eq!(
        store.status_history(agent_id),
        vec![AgentStatus::Idle, AgentStatus::Running, AgentStatus::Running, AgentStatus::Completed]
    );
    assert_eq!(store.agent_status(agent_id), Some(AgentStatus::Completed));
    let run = store.run_ledger().latest_run_for_agent(agent_id).expect("run");
    assert_eq!(run.status, RunStatus::Completed);
    assert_eq!(run.outputs.len(), 3);
}

#[test]
fn mock_transport_handles_pause_cancel_and_status() {
    let mut store = Store::new();
    let agent = "agent-x";
    for (n, kind) in [MessageKind::StatusRequest, MessageKind::Pause, MessageKind::Cancel].into_iter().enumerate() {
        store.insert_message(Message::outbound(&format!("m{}", n), agent, kind, "op", n as i64));
    }
    store.insert_message(Message::outbound("m9", "someone-else", MessageKind::Instruction, "x", 9));
    assert_eq!(store.pending_messages(agent), vec![0, 1, 2]);

    MockAdapter::new().poll_once(&mut store, agent, 50);
    assert!(store.pending_messages(agent).is_empty());
    assert_eq!(store.pending_messages("someone-else"), vec![3]);
    assert_eq!(store.message(4).kind, MessageKind::StatusUpdate);
    assert_eq!(store.message(5).kind, MessageKind::Blocked);
    assert_eq!(store.agent_status(agent), Some(AgentStatus::Idle));
    let run = store.run_ledger().latest_run_for_agent(agent).expect("run");
    assert_eq!(run.status, RunStatus::Failed);
    assert_eq!(run.summary.as_deref(), Some("Cancelled by operator"));
}

#[test]
fn delivery_marks_are_set_once() {
    let mut m = Message::outbound("m", "a", MessageKind::Pause, "", 1);
    assert!(m.delivered_at.is_none());
    m.mark_delivered(5);
    m.mark_delivered(7);
    assert_eq!(m.delivered_at, Some(5));
    let inbound = Message::inbound("n", "a", MessageKind::Output, "hi", 3);
    assert_eq!(inbound.delivered_at, Some(3));
    let fresh = Message::from_agent("a", MessageKind::Output, "hi");
    assert_eq!(fresh.delivered_at, Some(fresh.created_at));
    assert_ne!(fresh.id, Message::from_agent("a", MessageKind::Output, "hi").id);
}

#[test]
fn sending_an_instruction_starts_a_run_and_queues_it() {
    let mut store = Store::new();
    let i = store.send_message("agent-s", MessageKind::Instruction, "deploy", Some("m0".to_string()));
    assert_eq!(i, 0);
    let m = store.message(i);
    assert_eq!(m.direction, MessageDirection::ToAgent);
    assert!(m.delivered_at.is_none());
    assert_eq!(m.reply_to.as_deref(), Some("m0"));
    assert_eq!(store.agent_status("agent-s"), Some(AgentStatus::Running));
    let run = store.run_ledger().latest_run_for_agent("agent-s").expect("run");
    assert_eq!(run.status, RunStatus::InProgress);
    assert_eq!(run.outputs[0].content, "deploy");

    store.send_message("agent-s", MessageKind::Cancel, "stop", None);
    assert_eq!(store.agent_status("agent-s"), Some(AgentStatus::Idle));
    let run = store.run_ledger().latest_run_for_agent("agent-s").expect("run");
    assert_eq!(run.status, RunStatus::Failed);
    assert_eq!(run.summary.as_deref(), Some("Cancelled by operator"));

    let delivered = store.poll_pending_messages("agent-s", 77);
    assert_eq!(delivered, vec![0, 1]);
    assert_eq!(store.message(0).delivered_at, Some(77));
    assert!(store.poll_pending_messages("agent-s", 78).is_empty());
}

#[test]
fn received_messages_update_runs_and_status() {
    let mut store = Store::new();
    store.receive_message("agent-r", MessageKind::Output, "partial", Vec::new(), None);
    assert_eq!(store.agent_status("agent-r"), Some(AgentStatus::Running));
    let i = store.receive_message(
        "agent-r",
        MessageKind::Blocked,
        "need input",
        vec![("reason".to_string(), "question".to_string())],
        None,
    );
    assert_eq!(store.message(i).metadata, vec![("reason".to_string(), "question".to_string())]);
    assert_eq!(store.agent_status("agent-r"), Some(AgentStatus::Blocked));
    let run = store.run_ledger().latest_run_for_agent("agent-r").expect("run");
    assert_eq!(run.status, RunStatus::NeedsReview);
    assert_eq!(run.outputs.len(), 2);

    store.receive_message("agent-r", MessageKind::Completed, "done", Vec::new(), None);
    let run = store.run_ledger().latest_run_for_agent("agent-r").expect("run");
    assert_eq!(run.status, RunStatus::Completed);
    assert_eq!(run.summary.as_deref(), Some("done"));
    assert_eq!(store.agent_status("agent-r"), Some(AgentStatus::Completed));

    store.receive_message("agent-r", MessageKind::Instruction, "ignored", Vec::new(), None);
    assert_eq!(store.agent_status("agent-r"), Some(AgentStatus::Completed));
    assert_eq!(store.message_count(), 4);
}

#[test]
fn blank_heartbeats_are_not_logged() {
    let mut store = Store::new();
    store.receive_message("agent-h", MessageKind::Heartbeat, "   ", Vec::new(), None);
    assert!(store.run_ledger().latest_run_for_agent("agent-h").is_none());
    assert_eq!(store.agent_status("agent-h"), Some(AgentStatus::Running));
    store.receive_message("agent-h", MessageKind::Heartbeat, "tick", Vec::new(), None);
    assert_eq!(store.run_ledger().latest_run_for_agent("agent-h").expect("run").outputs.len(), 1);
}
