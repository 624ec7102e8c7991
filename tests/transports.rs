use kanbun::adapter::AdapterError;
use kanbun::models::{AdapterConfig, AdapterType, AgentStatus, EnvEntry, EnvValue, Message, MessageKind, RunStatus};
use kanbun::mock::MockAdapter;
use kanbun::process::RestartPolicy;
use kanbun::terminal::{diff_pane, terminal_action_for, ClaudeCodeAdapter, TerminalAction};
use kanbun::transport::{create_adapter, Adapter};
use kanbun::webhook::{PendingEffect, WebhookAdapter, WebhookReply};

fn config(adapter_type: AdapterType) -> AdapterConfig {
    AdapterConfig { adapter_type, session_name: None, endpoint: None, command: None, env: None }
}

#[test]
fn map_reply_kind_defaults_to_output() {
    let kind = WebhookAdapter::message_type_from_reply("output");
    assert_eq!(kind, MessageKind::Output);
    let unknown = WebhookAdapter::message_type_from_reply("not-a-kind");
    assert_eq!(unknown, MessageKind::Output);
}

#[test]
fn reply_kinds_and_statuses_map_to_canonical_values() {
    assert_eq!(WebhookAdapter::message_type_from_reply("status"), MessageKind::StatusUpdate);
    assert_eq!(WebhookAdapter::message_type_from_reply("blocked"), MessageKind::Blocked);
    assert_eq!(WebhookAdapter::message_type_from_reply("instruction"), MessageKind::Output);
    assert_eq!(WebhookAdapter::normalize_status("needs_review"), Some(RunStatus::NeedsReview));
    assert_eq!(WebhookAdapter::normalize_status("failed"), Some(RunStatus::Failed));
    assert_eq!(WebhookAdapter::normalize_status("done"), None);
    assert_eq!(WebhookAdapter::message_kind_for_transport(MessageKind::StatusRequest), "status_request");
    assert_eq!(WebhookAdapter::message_kind_as_output(MessageKind::Heartbeat), "heartbeat");
}

#[test]
fn webhook_reply_outcomes() {
    let reply = WebhookReply { kind: None, status: Some("completed".to_string()), content: Some("all done".to_string()) };
    let outcome = WebhookAdapter::reply_outcome(&reply);
    assert_eq!(outcome.kind, MessageKind::Completed);
    assert_eq!(outcome.content, "all done");
    assert_eq!(outcome.finalize, Some(RunStatus::Completed));
    assert_eq!(outcome.agent_status, AgentStatus::Completed);

    let empty = WebhookReply { kind: None, status: None, content: None };
    let outcome = WebhookAdapter::reply_outcome(&empty);
    assert_eq!(outcome.kind, MessageKind::Output);
    assert_eq!(outcome.content, "Webhook adapter completed with no response.");
    assert_eq!(outcome.finalize, None);
    assert_eq!(outcome.agent_status, AgentStatus::Running);

    let review = WebhookReply { kind: Some("error".to_string()), status: Some("needs_review".to_string()), content: None };
    let outcome = WebhookAdapter::reply_outcome(&review);
    assert_eq!(outcome.kind, MessageKind::Error);
    assert_eq!(outcome.agent_status, AgentStatus::Blocked);
}

#[test]
fn webhook_adapter_reads_endpoint_and_auth_header() {
    let mut c = config(AdapterType::HttpWebhook);
    let default = WebhookAdapter::new(&c);
    assert_eq!(default.endpoint_url(), "http://localhost:8765/kanbun/webhook");
    assert!(default.auth_header.is_none());

    c.endpoint = Some("https://agents.example/hook".to_string());
    c.env = Some(vec![EnvEntry { key: "AUTH_HEADER".to_string(), value: EnvValue::Text("Bearer abc".to_string()) }]);
    let adapter = WebhookAdapter::new(&c);
    assert_eq!(adapter.endpoint_url(), "https://agents.example/hook");
    assert_eq!(adapter.auth_header.as_deref(), Some("Bearer abc"));

    let up = adapter.health(true, Some("now".to_string()));
    assert_eq!(up.details.as_deref(), Some("Webhook endpoint reachable: https://agents.example/hook"));
    let down = adapter.health(false, Some("now".to_string()));
    assert!(down.last_heartbeat.is_none());
    assert_eq!(down.last_error.as_deref(), Some("webhook health check failed"));
    assert_eq!(
        WebhookAdapter::delivery_failure_text(&AdapterError::Other("HTTP 500".to_string())),
        "Webhook delivery failed: HTTP 500"
    );
}

#[test]
fn webhook_request_envelope() {
    let mut m = Message::outbound("m-1", "agent-9", MessageKind::Instruction, "go", 5);
    m.reply_to = Some("m-0".to_string());
    let request = WebhookAdapter::request_for("agent-9", &m);
    assert_eq!(request.agent_id, "agent-9");
    assert_eq!(request.message_id, "m-1");
    assert_eq!(request.kind, "instruction");
    assert_eq!(request.content, "go");
    assert_eq!(request.reply_to.as_deref(), Some("m-0"));
    assert!(WebhookAdapter::posts_on_deliver(MessageKind::Cancel));
    assert!(!WebhookAdapter::posts_on_deliver(MessageKind::Output));
}

#[test]
fn session_names_use_the_first_eight_characters() {
    let mut c = config(AdapterType::ClaudeCode);
    let adapter = ClaudeCodeAdapter::new(&c, "agent-cli");
    assert_eq!(adapter.session_name("0123456789abcdef"), "kb-01234567");
    assert_eq!(adapter.session_name("abc"), "kb-abc");
    assert_eq!(adapter.claude_command, "agent-cli");
    c.session_name = Some("team".to_string());
    c.endpoint = Some("agent-beta".to_string());
    c.command = Some("~/repo".to_string());
    let adapter = ClaudeCodeAdapter::new(&c, "agent-cli");
    assert_eq!(adapter.session_name("xyz"), "team-xyz");
    assert_eq!(adapter.claude_command, "agent-beta");
    assert_eq!(adapter.working_directory.as_deref(), Some("~/repo"));
}

#[test]
fn pane_diff_reports_only_new_lines() {
    let first = diff_pane("", "$ build\nstep 1\n");
    assert!(first.changed);
    assert_eq!(first.heartbeat.as_deref(), Some("$ build\nstep 1\n"));

    let second = diff_pane("$ build\nstep 1\n", "$ build\nstep 1\nstep 2\n");
    assert!(second.changed);
    assert_eq!(second.heartbeat.as_deref(), Some("step 2"));

    let same = diff_pane("a\n", "a\n");
    assert!(!same.changed);
    assert!(same.heartbeat.is_none());

    let blank = diff_pane("a\n", "   \n");
    assert!(!blank.changed);

    let crlf = diff_pane("one\r\n", "one\r\ntwo\r\n");
    assert_eq!(crlf.heartbeat.as_deref(), Some("two"));

    let reordered = diff_pane("a\nb\n", "b\na\n");
    assert!(reordered.changed);
    assert!(reordered.heartbeat.is_none());
}

#[test]
fn factory_picks_transport_per_configuration() {
    let mut codex = config(AdapterType::Codex);
    match create_adapter(&codex, true, "agent-cli") {
        Adapter::Process(p) => assert_eq!(p.command, "codex"),
        other => panic!("unexpected adapter {:?}", other),
    }
    codex.command = Some("codex --full-auto".to_string());
    match create_adapter(&codex, true, "agent-cli") {
        Adapter::Process(p) => assert_eq!(p.command, "codex --full-auto"),
        other => panic!("unexpected adapter {:?}", other),
    }

    let claude = config(AdapterType::ClaudeCode);
    assert!(matches!(create_adapter(&claude, true, "agent-cli"), Adapter::ClaudeCode(_)));
    match create_adapter(&claude, false, "agent-cli") {
        Adapter::Process(p) => {
            assert_eq!(p.command, "agent-cli");
            assert_eq!(p.restart_policy, RestartPolicy::OnFailure);
        }
        other => panic!("unexpected adapter {:?}", other),
    }

    assert!(matches!(create_adapter(&config(AdapterType::Tmux), true, "agent-cli"), Adapter::Mock(_)));
    assert!(matches!(create_adapter(&config(AdapterType::Mock), true, "agent-cli"), Adapter::Mock(_)));
    assert!(matches!(create_adapter(&config(AdapterType::HttpWebhook), true, "agent-cli"), Adapter::Webhook(_)));
}

#[test]
fn mock_adapter_is_always_healthy() {
    let mock = MockAdapter::new();
    let h = mock.health(None);
    assert!(h.connected && h.session_active);
    assert_eq!(h.details.as_deref(), Some("Mock adapter (always healthy)"));
    assert_eq!(MockAdapter::reply_text("x"), "[mock] Processed: x");
}

#[test]
fn adapter_errors_render_their_category() {
    assert_eq!(AdapterError::NotConnected("no session".to_string()).to_text(), "Not connected: no session");
    assert_eq!(AdapterError::DeliveryFailed("pipe".to_string()).to_text(), "Delivery failed: pipe");
    assert_eq!(AdapterError::SessionNotFound("s".to_string()).to_text(), "Session not found: s");
    assert_eq!(AdapterError::Other("plain".to_string()).to_text(), "plain");
}

#[test]
fn transport_actions_follow_message_kind() {
    assert_eq!(terminal_action_for(MessageKind::Resume), TerminalAction::SendText);
    assert_eq!(terminal_action_for(MessageKind::Pause), TerminalAction::Interrupt);
    assert_eq!(terminal_action_for(MessageKind::Cancel), TerminalAction::InterruptAndExit);
    assert_eq!(terminal_action_for(MessageKind::StatusRequest), TerminalAction::CaptureStatus);
    assert_eq!(terminal_action_for(MessageKind::Heartbeat), TerminalAction::Ignore);
    assert_eq!(WebhookAdapter::pending_effect(MessageKind::Instruction), PendingEffect::StartRun);
    assert_eq!(WebhookAdapter::pending_effect(MessageKind::Pause), PendingEffect::Block);
    assert_eq!(WebhookAdapter::pending_effect(MessageKind::Cancel), PendingEffect::CancelRun);
    assert_eq!(WebhookAdapter::pending_effect(MessageKind::StatusRequest), PendingEffect::Nothing);
}
