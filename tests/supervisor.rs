use kanbun::adapter::{AdapterError, AdapterHealth};
use kanbun::models::AgentStatus;
use kanbun::supervisor::{
    adapter_retry_backoff, failed_health, plan_start, record_start_failure, record_start_success,
    recovered_status, supervised_health, RuntimeRegistry, RuntimeState, StartStep,
};

#[test]
fn adapter_retry_backoff_grows_and_caps() {
    assert_eq!(adapter_retry_backoff(1), 2);
    assert_eq!(adapter_retry_backoff(2), 4);
    assert_eq!(adapter_retry_backoff(3), 8);
    assert_eq!(adapter_retry_backoff(4), 16);
    assert_eq!(adapter_retry_backoff(5), 32);
    assert_eq!(adapter_retry_backoff(6), 64);
    assert_eq!(adapter_retry_backoff(20), 64);
}

#[test]
fn backoff_for_zero_failures_is_the_base_delay() {
    assert_eq!(adapter_retry_backoff(0), 2);
    assert_eq!(adapter_retry_backoff(u32::MAX), 64);
}

#[test]
fn ensure_adapter_started_bootstraps_runtime_state() {
    let mut registry = RuntimeRegistry::new();
    let agent_id = "agent-1";
    registry.clear_adapter_runtime(agent_id);

    let mut state = registry.take(agent_id);
    let step = plan_start(&mut state, 1_000, false, None);
    assert_eq!(step, StartStep::Attempt);
    record_start_success(&mut state, 1_000);
    registry.put(agent_id, state);

    let state = registry.get(agent_id).expect("runtime state should exist");
    assert!(state.started);
    assert_eq!(state.consecutive_failures, 0);
    assert!(state.next_retry_at.is_none());
    assert!(state.last_error.is_none());

    registry.clear_adapter_runtime(agent_id);
    assert!(registry.get(agent_id).is_none());
}

#[test]
fn forced_start_bypasses_retry_cooldown() {
    let now: u64 = 50_000;
    let mut registry = RuntimeRegistry::new();
    let agent_id = "agent-2";
    registry.put(
        agent_id,
        RuntimeState {
            started: false,
            consecutive_failures: 3,
            next_retry_at: Some(now + 30_000),
            last_error: Some("simulated failure".to_string()),
            last_failure_at: Some(now),
            last_started_at: None,
        },
    );

    let mut state = registry.take(agent_id);
    let step = plan_start(&mut state, now, false, None);
    assert_eq!(step, StartStep::CoolingDown);
    registry.put(agent_id, state);
    let cooled = registry.get(agent_id).expect("runtime state should exist");
    assert!(!cooled.started);
    assert_eq!(cooled.consecutive_failures, 3);
    assert!(cooled.retry_after_seconds(now).is_some());
    assert_eq!(cooled.retry_after_seconds(now), Some(30));

    let mut state = registry.take(agent_id);
    let step = plan_start(&mut state, now, true, None);
    assert_eq!(step, StartStep::Attempt);
    record_start_success(&mut state, now);
    registry.put(agent_id, state);
    let recovered = registry.get(agent_id).expect("runtime state should exist");
    assert!(recovered.started);
    assert_eq!(recovered.consecutive_failures, 0);
    assert!(recovered.next_retry_at.is_none());
    assert!(recovered.last_error.is_none());

    registry.clear_all_adapter_runtime();
    assert!(registry.get(agent_id).is_none());
}

fn health(connected: bool, suppress: Option<bool>) -> AdapterHealth {
    AdapterHealth {
        connected,
        session_active: connected,
        last_heartbeat: None,
        details: None,
        retry_after_seconds: None,
        consecutive_failures: None,
        last_error: Some("exit 0".to_string()),
        suppress_auto_restart: suppress,
    }
}

#[test]
fn started_sessions_are_checked_before_restart() {
    let mut state = RuntimeState::new();
    record_start_success(&mut state, 10);

    let mut healthy = state.clone();
    assert_eq!(plan_start(&mut healthy, 20, false, Some(Ok(health(true, None)))), StartStep::AlreadyRunning);
    assert!(healthy.started);

    let mut suppressed = state.clone();
    assert_eq!(plan_start(&mut suppressed, 20, false, Some(Ok(health(false, Some(true))))), StartStep::Suppressed);
    assert_eq!(suppressed.last_error.as_deref(), Some("exit 0"));
    assert!(suppressed.started);

    let mut forced = state.clone();
    assert_eq!(plan_start(&mut forced, 20, true, Some(Ok(health(false, Some(true))))), StartStep::Attempt);
    assert!(!forced.started);
    assert_eq!(forced.last_error.as_deref(), Some("health check reported disconnected adapter"));

    let mut broken = state.clone();
    let error = AdapterError::Other("probe failed".to_string());
    assert_eq!(plan_start(&mut broken, 20, false, Some(Err(error))), StartStep::Attempt);
    assert_eq!(broken.last_error.as_deref(), Some("health check failed: probe failed"));
}

#[test]
fn start_failures_schedule_backoff() {
    let mut state = RuntimeState::new();
    let first = record_start_failure(&mut state, 1_000, "spawn failed");
    assert_eq!(first.consecutive_failures, 1);
    assert_eq!(first.retry_after_seconds, 2);
    assert_eq!(state.next_retry_at, Some(3_000));
    assert_eq!(first.summary, "Adapter unavailable: spawn failed. Auto-retry in 2s (attempt 1).");
    assert!(!first.fail_run_in_flight);
    assert_eq!(first.metadata[0], ("source".to_string(), "adapter_supervisor".to_string()));
    assert_eq!(first.metadata[1], ("retry_after_seconds".to_string(), "2".to_string()));

    record_start_failure(&mut state, 2_000, "spawn failed");
    let third = record_start_failure(&mut state, 3_000, "spawn failed");
    assert_eq!(third.consecutive_failures, 3);
    assert_eq!(third.retry_after_seconds, 8);
    assert!(third.fail_run_in_flight);
    assert_eq!(state.last_failure_at, Some(3_000));
    assert_eq!(state.last_error.as_deref(), Some("spawn failed"));
}

#[test]
fn recovery_promotes_errored_agents_only() {
    assert_eq!(recovered_status(AgentStatus::Errored, true), Some(AgentStatus::Running));
    assert_eq!(recovered_status(AgentStatus::Errored, false), Some(AgentStatus::Idle));
    assert_eq!(recovered_status(AgentStatus::Blocked, true), None);
}

#[test]
fn health_reports_carry_supervisor_bookkeeping() {
    let mut state = RuntimeState::new();
    record_start_failure(&mut state, 0, "boom");
    let mut base = health(false, None);
    base.details = Some("pane output".to_string());
    let merged = supervised_health(base, &state, 500);
    assert_eq!(merged.consecutive_failures, Some(1));
    assert_eq!(merged.retry_after_seconds, Some(1));
    assert_eq!(merged.last_error.as_deref(), Some("boom"));
    assert_eq!(
        merged.details.as_deref(),
        Some("Supervisor: 1 start failures. Next retry in 1s.\n\npane output")
    );

    let failed = failed_health(&AdapterError::SpawnFailed("no shell".to_string()));
    assert_eq!(failed.details.as_deref(), Some("Health check failed: Spawn failed: no shell"));
    assert_eq!(failed.last_error.as_deref(), Some("Spawn failed: no shell"));
}
