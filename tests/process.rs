use kanbun::models::{AdapterConfig, AdapterType, AgentStatus, EnvEntry, EnvValue, MessageKind, RunStatus};
use kanbun::process::{
    classify_exit, parse_env, parse_restart_policy, process_action_for, process_health,
    resolve_working_directory, should_suppress_auto_restart, status_report, truncate_output,
    is_process_like_adapter_type, output_line, ProcessAction, ProcessAdapter, ProcessState, RestartPolicy,
};
use kanbun::ring::OutputRingBuffer;

const RESTART_POLICY_ENV_KEY: &str = "__kanbun_restart_policy";

fn text(key: &str, value: &str) -> EnvEntry {
    EnvEntry { key: key.to_string(), value: EnvValue::Text(value.to_string()) }
}

fn process_config_with_env(env: Option<Vec<EnvEntry>>) -> AdapterConfig {
    AdapterConfig {
        adapter_type: AdapterType::Process,
        session_name: None,
        endpoint: None,
        command: Some("echo test".to_string()),
        env,
    }
}

#[test]
fn restart_policy_defaults_to_on_failure() {
    let config = process_config_with_env(None);
    assert!(matches!(parse_restart_policy(&config), RestartPolicy::OnFailure));
}

#[test]
fn restart_policy_parses_supported_values() {
    let cases = [
        ("never", RestartPolicy::Never),
        ("on_failure", RestartPolicy::OnFailure),
        ("always", RestartPolicy::Always),
        ("ALWAYS", RestartPolicy::Always),
        ("  never  ", RestartPolicy::Never),
    ];

    for (raw, expected) in cases {
        let config = process_config_with_env(Some(vec![text(RESTART_POLICY_ENV_KEY, raw)]));
        assert_eq!(parse_restart_policy(&config).as_str(), expected.as_str());
    }
}

#[test]
fn restart_policy_falls_back_to_on_failure_for_unknown_values() {
    let config = process_config_with_env(Some(vec![text(RESTART_POLICY_ENV_KEY, "sometimes")]));
    assert!(matches!(parse_restart_policy(&config), RestartPolicy::OnFailure));
}

#[test]
fn restart_policy_ignores_non_string_values() {
    let config = process_config_with_env(Some(vec![EnvEntry {
        key: RESTART_POLICY_ENV_KEY.to_string(),
        value: EnvValue::Json("1".to_string()),
    }]));
    assert_eq!(parse_restart_policy(&config), RestartPolicy::OnFailure);
}

#[test]
fn suppress_auto_restart_matrix_matches_policy() {
    assert!(should_suppress_auto_restart(RestartPolicy::Never, Some(0)));
    assert!(should_suppress_auto_restart(RestartPolicy::Never, Some(1)));
    assert!(should_suppress_auto_restart(RestartPolicy::Never, None));

    assert!(should_suppress_auto_restart(RestartPolicy::OnFailure, Some(0)));
    assert!(!should_suppress_auto_restart(RestartPolicy::OnFailure, Some(2)));
    assert!(should_suppress_auto_restart(RestartPolicy::OnFailure, None));

    assert!(!should_suppress_auto_restart(RestartPolicy::Always, Some(0)));
    assert!(!should_suppress_auto_restart(RestartPolicy::Always, Some(2)));
    assert!(!should_suppress_auto_restart(RestartPolicy::Always, None));
}

#[test]
fn parse_env_strips_internal_control_keys() {
    let config = process_config_with_env(Some(vec![
        text("USER_VISIBLE", "value"),
        text("__kanbun_internal", "secret"),
        text("__kanbun_restart_policy", "always"),
        EnvEntry { key: "NUMERIC".to_string(), value: EnvValue::Json("42".to_string()) },
    ]));

    let parsed = parse_env(&config);
    assert_eq!(parsed.len(), 2);
    assert!(parsed.contains(&("USER_VISIBLE".to_string(), "value".to_string())));
    assert!(parsed.contains(&("NUMERIC".to_string(), "42".to_string())));
    assert!(!parsed.iter().any(|(key, _)| key.starts_with("__kanbun_")));
}

#[test]
fn parse_env_forwards_every_non_internal_key_in_order() {
    let config = process_config_with_env(Some(vec![
        text("B", "2"),
        text("   ", "blank"),
        text("", "empty"),
        text("A", "1"),
    ]));
    let parsed = parse_env(&config);
    assert_eq!(
        parsed,
        vec![
            ("B".to_string(), "2".to_string()),
            ("   ".to_string(), "blank".to_string()),
            ("".to_string(), "empty".to_string()),
            ("A".to_string(), "1".to_string()),
        ]
    );
    assert!(parse_env(&process_config_with_env(None)).is_empty());
}

#[test]
fn truncate_output_keeps_short_lines() {
    assert_eq!(truncate_output("hello"), "hello");
    let exact = "x".repeat(2000);
    assert_eq!(truncate_output(&exact), exact);
}

#[test]
fn truncate_output_caps_long_lines() {
    let long = "y".repeat(2005);
    let capped = truncate_output(&long);
    assert_eq!(capped, format!("{} ... [line truncated: 5 chars omitted]", "y".repeat(2000)));
}

#[test]
fn classify_exit_reports_clean_and_failed_exits() {
    let clean = classify_exit(RestartPolicy::OnFailure, Some(0));
    assert_eq!(clean.kind, MessageKind::Completed);
    assert_eq!(clean.run_status, RunStatus::Completed);
    assert_eq!(clean.agent_status, AgentStatus::Completed);
    assert!(clean.suppress_auto_restart);
    assert_eq!(clean.note, "Process exited normally (code 0). Auto-restart paused by policy.");

    let failed = classify_exit(RestartPolicy::OnFailure, Some(-2));
    assert_eq!(failed.kind, MessageKind::Error);
    assert_eq!(failed.run_status, RunStatus::Failed);
    assert_eq!(failed.agent_status, AgentStatus::Errored);
    assert!(!failed.suppress_auto_restart);
    assert_eq!(failed.note, "Process exited with failure (code -2).");

    let unknown = classify_exit(RestartPolicy::Always, None);
    assert_eq!(unknown.note, "Process exited normally.");
}

#[test]
fn process_health_reports_running_and_exited_sessions() {
    let mut ring = OutputRingBuffer::new();
    let running = process_health("run.sh", RestartPolicy::OnFailure, ProcessState::Running, &ring, None);
    assert!(running.connected && running.session_active);
    assert_eq!(running.suppress_auto_restart, Some(false));
    assert_eq!(
        running.details.as_deref(),
        Some("Process command: run.sh\nRestart policy: on_failure\nState: running\nLast output: No output captured yet.")
    );
    assert!(running.last_error.is_none());

    ring.push("done".to_string());
    let exited = process_health("run.sh", RestartPolicy::Never, ProcessState::Exited(Some(3)), &ring, Some("t".to_string()));
    assert!(!exited.connected);
    assert_eq!(exited.suppress_auto_restart, Some(true));
    assert_eq!(exited.last_error.as_deref(), Some("process exited with code 3"));
    assert_eq!(exited.last_heartbeat.as_deref(), Some("t"));
    assert_eq!(
        exited.details.as_deref(),
        Some("Process command: run.sh\nRestart policy: never\nState: exited (code 3)\nLast output: done")
    );
}

#[test]
fn status_report_quotes_recent_output() {
    let mut ring = OutputRingBuffer::new();
    ring.push("one".to_string());
    ring.push("two".to_string());
    assert_eq!(status_report("agent", &ring), "Process command `agent` is running.\nLast output: one\ntwo");
}

#[test]
fn process_actions_follow_message_kind() {
    assert_eq!(process_action_for(MessageKind::Instruction), ProcessAction::WriteLine);
    assert_eq!(process_action_for(MessageKind::Resume), ProcessAction::WriteLine);
    assert_eq!(process_action_for(MessageKind::Pause), ProcessAction::Interrupt);
    assert_eq!(process_action_for(MessageKind::Cancel), ProcessAction::Terminate);
    assert_eq!(process_action_for(MessageKind::StatusRequest), ProcessAction::ReportStatus);
    assert_eq!(process_action_for(MessageKind::Output), ProcessAction::Ignore);
    assert!(is_process_like_adapter_type(AdapterType::Codex));
    assert!(!is_process_like_adapter_type(AdapterType::Mock));
}

#[test]
fn process_adapter_reads_its_configuration() {
    let config = process_config_with_env(Some(vec![
        text(RESTART_POLICY_ENV_KEY, " Never "),
        text("PATH_EXTRA", "/opt"),
    ]));
    let adapter = ProcessAdapter::new(&config);
    assert_eq!(adapter.command, "echo test");
    assert_eq!(adapter.restart_policy, RestartPolicy::Never);
    assert_eq!(adapter.env, vec![("PATH_EXTRA".to_string(), "/opt".to_string())]);
}

#[test]
fn working_directory_is_trimmed_and_blank_is_dropped() {
    assert_eq!(resolve_working_directory(Some("  /srv/app  ")), Some("/srv/app".to_string()));
    assert_eq!(resolve_working_directory(Some("   ")), None);
    assert_eq!(resolve_working_directory(None), None);
    let home = resolve_working_directory(Some("~/work")).expect("expanded path");
    assert!(home.ends_with("/work"));
    assert!(!home.starts_with('~'));
}

#[test]
fn captured_lines_are_trimmed_marked_and_capped() {
    assert_eq!(output_line("  built  ", false).as_deref(), Some("built"));
    assert_eq!(output_line(" warn ", true).as_deref(), Some("[stderr] warn"));
    assert_eq!(output_line("   ", true), None);
    let long = "q".repeat(2100);
    assert_eq!(
        output_line(&long, false),
        Some(format!("{} ... [line truncated: 100 chars omitted]", "q".repeat(2000)))
    );
}

#[test]
fn blank_commands_cannot_be_launched() {
    let mut config = process_config_with_env(None);
    config.command = Some("   ".to_string());
    let error = ProcessAdapter::new(&config).launch_command().unwrap_err();
    assert_eq!(
        error.to_text(),
        "Spawn failed: Process adapter command is empty. Set adapter command in workstream settings."
    );
    config.command = Some("  ./run.sh --fast ".to_string());
    assert_eq!(ProcessAdapter::new(&config).launch_command().ok().as_deref(), Some("./run.sh --fast"));
}
