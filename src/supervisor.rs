//! The supervisor: per-agent start bookkeeping, exponential backoff after
//! failed starts, and the health report that combines both.
use vstd::prelude::*;
use crate::adapter::{error_text, AdapterError, AdapterHealth};
use crate::models::AgentStatus;
use crate::text::{decimal, push_text, render_u64, same_text, trim_text, trimmed};

verus! {

/// Two to the power `e`.
pub open spec fn doubling(e: nat) -> nat
    decreases e,
{
    if e == 0 { 1 } else { 2 * doubling((e - 1) as nat) }
}

/// The exponent of the backoff after `failures` consecutive failures: one less
/// than the count, at least 0 and at most 5.
pub open spec fn backoff_exponent(failures: u32) -> nat {
    if failures <= 1 {
        0
    } else if failures - 1 >= 5 {
        5
    } else {
        (failures - 1) as nat
    }
}

/// Seconds to wait after `failures` consecutive failed starts.
pub open spec fn backoff_seconds(failures: u32) -> nat {
    2 * doubling(backoff_exponent(failures))
}

/// Seconds to wait before the next start attempt: 2, 4, 8, ... capped at 64.
pub fn adapter_retry_backoff(failure_count: u32) -> (s: u64)
    ensures
        s == backoff_seconds(failure_count),
{
    let exponent: u32 = if failure_count <= 1 {
        0
    } else if failure_count - 1 >= 5 {
        5
    } else {
        failure_count - 1
    };
    let mut s: u64 = 2;
    let mut i: u32 = 0;
    while i < exponent
        invariant
            i <= exponent <= 5,
            exponent == backoff_exponent(failure_count),
            s == 2 * doubling(i as nat),
            s <= 64,
        decreases exponent - i,
    {
        proof {
            lemma_doubling_bound(i as nat);
        }
        s = s * 2;
        i = i + 1;
    }
    s
}

proof fn lemma_doubling_bound(e: nat)
    requires
        e < 5,
    ensures
        2 * doubling(e) <= 32,
{
    assert(doubling(0) == 1);
    assert(doubling(1) == 2);
    assert(doubling(2) == 4);
    assert(doubling(3) == 8);
    assert(doubling(4) == 16);
}

proof fn lemma_doubling_monotone(a: nat, b: nat)
    requires
        a <= b,
    ensures
        doubling(a) <= doubling(b),
    decreases b,
{
    if a < b {
        lemma_doubling_monotone(a, (b - 1) as nat);
    }
}

/// The backoff is 2, 4, 8, 16, 32 and 64 seconds after one to six failures,
/// stays at 64 after more, and never shrinks as failures accumulate.
pub proof fn lemma_backoff_grows_and_caps(f: u32, g: u32)
    ensures
        backoff_seconds(1) == 2,
        backoff_seconds(2) == 4,
        backoff_seconds(3) == 8,
        backoff_seconds(4) == 16,
        backoff_seconds(5) == 32,
        backoff_seconds(6) == 64,
        f > 6 ==> backoff_seconds(f) == 64,
        f <= g ==> backoff_seconds(f) <= backoff_seconds(g),
{
    assert(doubling(0) == 1);
    assert(doubling(1) == 2);
    assert(doubling(2) == 4);
    assert(doubling(3) == 8);
    assert(doubling(4) == 16);
    assert(doubling(5) == 32);
    if f <= g {
        lemma_doubling_monotone(backoff_exponent(f), backoff_exponent(g));
    }
}

/// The supervisor's bookkeeping for one agent. Times are milliseconds on the
/// caller's monotonic clock.
#[derive(Debug, Clone)]
pub struct RuntimeState {
    pub started: bool,
    pub consecutive_failures: u32,
    pub next_retry_at: Option<u64>,
    pub last_error: Option<String>,
    pub last_failure_at: Option<u64>,
    pub last_started_at: Option<u64>,
}

/// The bookkeeping of an agent that has never been started.
pub open spec fn fresh_state() -> RuntimeState {
    RuntimeState {
        started: false,
        consecutive_failures: 0,
        next_retry_at: None,
        last_error: None,
        last_failure_at: None,
        last_started_at: None,
    }
}

/// The bookkeeping right after a successful start at `now`.
pub open spec fn started_state(now: u64) -> RuntimeState {
    RuntimeState {
        started: true,
        consecutive_failures: 0,
        next_retry_at: None,
        last_error: None,
        last_failure_at: None,
        last_started_at: Some(now),
    }
}

/// Whole seconds left until `retry_at`, zero once it has passed.
pub open spec fn seconds_until(retry_at: u64, now: u64) -> nat {
    if retry_at > now { ((retry_at - now) / 1000) as nat } else { 0 }
}

impl RuntimeState {
    /// The bookkeeping of an agent that has never been started.
    pub fn new() -> (s: RuntimeState)
        ensures
            s == fresh_state(),
    {
        RuntimeState {
            started: false,
            consecutive_failures: 0,
            next_retry_at: None,
            last_error: None,
            last_failure_at: None,
            last_started_at: None,
        }
    }

    /// Seconds until the next retry is allowed, when a retry is scheduled.
    pub fn retry_after_seconds(&self, now: u64) -> (r: Option<u64>)
        ensures
            match self.next_retry_at {
                Some(t) => r == Some(seconds_until(t, now) as u64),
                None => r.is_none(),
            },
    {
        match self.next_retry_at {
            Some(t) => Some(t.saturating_sub(now) / 1000),
            None => None,
        }
    }
}

/// What `ensure_started` does next.
#[derive(Debug, Clone, Copy, PartialEq, Eq, Structural)]
pub enum StartStep {
    /// The session is healthy: nothing to do.
    AlreadyRunning,
    /// The session is down and its policy keeps it down.
    Suppressed,
    /// The backoff window has not elapsed.
    CoolingDown,
    /// Call the adapter's `start` now.
    Attempt,
}

/// Whether a health report shows a live transport.
pub open spec fn is_healthy(h: AdapterHealth) -> bool {
    h.connected || h.session_active
}

/// Whether the backoff window holds back an unforced start at `now`.
pub open spec fn in_cooldown(s: RuntimeState, now: u64, force: bool) -> bool {
    !force && match s.next_retry_at {
        Some(t) => now < t,
        None => false,
    }
}

/// The step that `ensure_started` takes, given the health of a session that
/// was marked started (`None` when it was not).
pub open spec fn planned_step(s: RuntimeState, now: u64, force: bool, health: Option<Result<AdapterHealth, AdapterError>>) -> StartStep {
    if s.started && health.is_some() && health.unwrap().is_ok() && is_healthy(health.unwrap().unwrap()) {
        StartStep::AlreadyRunning
    } else if s.started && health.is_some() && health.unwrap().is_ok() && !force
        && health.unwrap().unwrap().suppress_auto_restart == Some(true) {
        StartStep::Suppressed
    } else if in_cooldown(s, now, force) {
        StartStep::CoolingDown
    } else {
        StartStep::Attempt
    }
}

/// Decides whether to (re)start an agent's transport now. `health` is the
/// health check of a session that is marked started, and `None` otherwise.
/// An unhealthy started session is marked stopped, with the reason recorded,
/// unless its policy suppresses the restart and the start is not forced.
pub fn plan_start(
    state: &mut RuntimeState,
    now: u64,
    force: bool,
    health: Option<Result<AdapterHealth, AdapterError>>,
) -> (step: StartStep)
    requires
        old(state).started == health.is_some(),
    ensures
        step == planned_step(*old(state), now, force, health),
        !old(state).started ==> *final(state) == *old(state),
        step == StartStep::AlreadyRunning ==> *final(state) == *old(state),
        final(state).consecutive_failures == old(state).consecutive_failures,
        final(state).next_retry_at == old(state).next_retry_at,
        final(state).last_failure_at == old(state).last_failure_at,
        final(state).last_started_at == old(state).last_started_at,
        step == StartStep::Suppressed ==> final(state).started
            && final(state).last_error == health.unwrap().unwrap().last_error,
        (old(state).started && step != StartStep::AlreadyRunning && step != StartStep::Suppressed) ==> {
            &&& !final(state).started
            &&& final(state).last_error.is_some()
            &&& match health.unwrap() {
                Ok(_) => final(state).last_error.unwrap()@ == "health check reported disconnected adapter"@,
                Err(e) => final(state).last_error.unwrap()@ == "health check failed: "@ + error_text(e),
            }
        },
{
    if state.started {
        match health {
            Some(Ok(h)) => {
                if h.connected || h.session_active {
                    return StartStep::AlreadyRunning;
                }
                let suppressed = match h.suppress_auto_restart {
                    Some(b) => b,
                    None => false,
                };
                if !force && suppressed {
                    state.last_error = h.last_error;
                    return StartStep::Suppressed;
                }
                state.started = false;
                state.last_error = Some(String::from_str("health check reported disconnected adapter"));
            },
            Some(Err(e)) => {
                state.started = false;
                let mut reason = String::from_str("health check failed: ");
                let text = e.to_text();
                push_text(&mut reason, text.as_str());
                state.last_error = Some(reason);
            },
            None => {},
        }
    }
    if !force {
        if let Some(retry_at) = state.next_retry_at {
            if now < retry_at {
                return StartStep::CoolingDown;
            }
        }
    }
    StartStep::Attempt
}

/// Records a successful start at `now`: the agent is started, its failure
/// count is zero and no retry or error is pending.
pub fn record_start_success(state: &mut RuntimeState, now: u64)
    ensures
        *final(state) == started_state(now),
{
    state.started = true;
    state.consecutive_failures = 0;
    state.next_retry_at = None;
    state.last_error = None;
    state.last_failure_at = None;
    state.last_started_at = Some(now);
}

/// What the supervisor reports after a failed start.
#[derive(Debug, Clone)]
pub struct FailureReport {
    pub summary: String,
    pub retry_after_seconds: u64,
    pub consecutive_failures: u32,
    pub metadata: Vec<(String, String)>,
    /// Whether an in-flight run must be failed rather than left stuck.
    pub fail_run_in_flight: bool,
}

/// The failure count after one more failure (saturating).
pub open spec fn next_failures(f: u32) -> u32 {
    if f < u32::MAX { (f + 1) as u32 } else { f }
}

/// `now` plus `secs` seconds, in milliseconds, saturating.
pub open spec fn retry_time(now: u64, secs: nat) -> u64 {
    if now + secs * 1000 <= u64::MAX { (now + secs * 1000) as u64 } else { u64::MAX }
}

/// The summary of a failed start.
pub open spec fn failure_summary(reason: Seq<char>, secs: nat, attempt: nat) -> Seq<char> {
    "Adapter unavailable: "@ + reason + ". Auto-retry in "@ + decimal(secs) + "s (attempt "@
        + decimal(attempt) + ")."@
}

/// Records a failed start at `now`: one more consecutive failure, the next
/// retry one backoff later, and the reason as the last error.
pub fn record_start_failure(state: &mut RuntimeState, now: u64, reason: &str) -> (r: FailureReport)
    ensures
        !final(state).started,
        final(state).consecutive_failures == next_failures(old(state).consecutive_failures),
        final(state).next_retry_at == Some(retry_time(now, backoff_seconds(final(state).consecutive_failures))),
        final(state).last_error.is_some() && final(state).last_error.unwrap()@ == reason@,
        final(state).last_failure_at == Some(now),
        final(state).last_started_at == old(state).last_started_at,
        r.consecutive_failures == final(state).consecutive_failures,
        r.retry_after_seconds == backoff_seconds(final(state).consecutive_failures),
        r.summary@ == failure_summary(reason@, r.retry_after_seconds as nat, r.consecutive_failures as nat),
        r.fail_run_in_flight == (r.consecutive_failures >= 3),
        r.metadata@.len() == 4,
        r.metadata@[0].0@ == "source"@ && r.metadata@[0].1@ == "adapter_supervisor"@,
        r.metadata@[1].0@ == "retry_after_seconds"@ && r.metadata@[1].1@ == decimal(r.retry_after_seconds as nat),
        r.metadata@[2].0@ == "consecutive_failures"@ && r.metadata@[2].1@ == decimal(r.consecutive_failures as nat),
        r.metadata@[3].0@ == "reason"@ && r.metadata@[3].1@ == reason@,
{
    state.started = false;
    state.consecutive_failures = state.consecutive_failures.saturating_add(1);
    let failures = state.consecutive_failures;
    let secs = adapter_retry_backoff(failures);
    proof {
        lemma_backoff_grows_and_caps(failures, 6);
        lemma_backoff_grows_and_caps(failures, failures);
        assert(backoff_exponent(failures) <= 5);
        lemma_doubling_monotone(backoff_exponent(failures), 5);
        assert(doubling(5) == 32) by {
            lemma_doubling_bound(4);
            assert(doubling(4) == 16);
        }
    }
    state.next_retry_at = Some(now.saturating_add(secs * 1000));
    state.last_error = Some(String::from_str(reason));
    state.last_failure_at = Some(now);

    let secs_text = render_u64(secs);
    let failures_text = render_u64(failures as u64);
    let mut summary = String::from_str("Adapter unavailable: ");
    push_text(&mut summary, reason);
    push_text(&mut summary, ". Auto-retry in ");
    push_text(&mut summary, secs_text.as_str());
    push_text(&mut summary, "s (attempt ");
    push_text(&mut summary, failures_text.as_str());
    push_text(&mut summary, ").");

    let mut metadata: Vec<(String, String)> = Vec::new();
    metadata.push((String::from_str("source"), String::from_str("adapter_supervisor")));
    metadata.push((String::from_str("retry_after_seconds"), render_u64(secs)));
    metadata.push((String::from_str("consecutive_failures"), render_u64(failures as u64)));
    metadata.push((String::from_str("reason"), String::from_str(reason)));

    FailureReport {
        summary,
        retry_after_seconds: secs,
        consecutive_failures: failures,
        metadata,
        fail_run_in_flight: failures >= 3,
    }
}

/// With a retry scheduled in the future, an unforced start of an agent whose
/// session is not running waits, a forced one attempts at once, and a
/// successful start clears the failure count.
pub proof fn lemma_forced_start_bypasses_cooldown(
    s: RuntimeState,
    now: u64,
    health: Option<Result<AdapterHealth, AdapterError>>,
)
    requires
        s.next_retry_at.is_some(),
        now < s.next_retry_at.unwrap(),
        s.started == health.is_some(),
        s.started ==> health.unwrap().is_err() || !is_healthy(health.unwrap().unwrap()),
        s.started && health.unwrap().is_ok() ==> health.unwrap().unwrap().suppress_auto_restart != Some(true),
    ensures
        planned_step(s, now, false, health) == StartStep::CoolingDown,
        planned_step(s, now, true, health) == StartStep::Attempt,
        started_state(now).consecutive_failures == 0,
        started_state(now).next_retry_at.is_none(),
{
}

/// The status an agent returns to after its transport started again: an
/// errored agent runs again when a run is in flight and idles otherwise;
/// `None` leaves the status as it is.
pub fn recovered_status(current: AgentStatus, run_in_flight: bool) -> (r: Option<AgentStatus>)
    ensures
        current == AgentStatus::Errored ==> r == Some(if run_in_flight { AgentStatus::Running } else { AgentStatus::Idle }),
        current != AgentStatus::Errored ==> r.is_none(),
{
    match current {
        AgentStatus::Errored => if run_in_flight {
            Some(AgentStatus::Running)
        } else {
            Some(AgentStatus::Idle)
        },
        _ => None,
    }
}

/// The health report used when the health check itself failed.
pub fn failed_health(error: &AdapterError) -> (h: AdapterHealth)
    ensures
        !h.connected,
        !h.session_active,
        h.last_heartbeat.is_none(),
        h.details.is_some() && h.details.unwrap()@ == "Health check failed: "@ + error_text(*error),
        h.retry_after_seconds.is_none(),
        h.consecutive_failures.is_none(),
        h.last_error.is_some() && h.last_error.unwrap()@ == error_text(*error),
        h.suppress_auto_restart.is_none(),
{
    let text = error.to_text();
    let mut details = String::from_str("Health check failed: ");
    push_text(&mut details, text.as_str());
    AdapterHealth {
        connected: false,
        session_active: false,
        last_heartbeat: None,
        details: Some(details),
        retry_after_seconds: None,
        consecutive_failures: None,
        last_error: Some(text),
        suppress_auto_restart: None,
    }
}

/// The supervisor's line in a health report.
pub open spec fn supervisor_summary(failures: u32, retry_after: Option<u64>) -> Seq<char> {
    match retry_after {
        Some(r) => "Supervisor: "@ + decimal(failures as nat) + " start failures. Next retry in "@
            + decimal(r as nat) + "s."@,
        None => "Supervisor: "@ + decimal(failures as nat) + " start failures recorded."@,
    }
}

/// Adds the supervisor's bookkeeping to a transport's health report: the
/// failure count when positive, the time to the next retry, and, when a start
/// error is recorded, that error and a summary line above the details.
pub fn supervised_health(health: AdapterHealth, state: &RuntimeState, now: u64) -> (h: AdapterHealth)
    ensures
        h.connected == health.connected,
        h.session_active == health.session_active,
        h.last_heartbeat == health.last_heartbeat,
        h.suppress_auto_restart == health.suppress_auto_restart,
        h.consecutive_failures == if state.consecutive_failures > 0 {
            Some(state.consecutive_failures)
        } else {
            health.consecutive_failures
        },
        h.retry_after_seconds == match state.next_retry_at {
            Some(t) => Some(seconds_until(t, now) as u64),
            None => health.retry_after_seconds,
        },
        state.last_error.is_none() ==> h.last_error == health.last_error && h.details == health.details,
        state.last_error.is_some() ==> {
            let summary = supervisor_summary(state.consecutive_failures,
                match state.next_retry_at { Some(t) => Some(seconds_until(t, now) as u64), None => None });
            &&& h.last_error == state.last_error
            &&& h.details.is_some()
            &&& match health.details {
                Some(d) if trimmed(d@).len() > 0 => h.details.unwrap()@ == summary + "\n\n"@ + d@,
                _ => h.details.unwrap()@ == summary,
            }
        },
{
    let mut h = health;
    if state.consecutive_failures > 0 {
        h.consecutive_failures = Some(state.consecutive_failures);
    }
    let retry_after = state.retry_after_seconds(now);
    if let Some(r) = retry_after {
        h.retry_after_seconds = Some(r);
    }
    match &state.last_error {
        Some(last_error) => {
            let failures_text = render_u64(state.consecutive_failures as u64);
            let mut summary = String::from_str("Supervisor: ");
            push_text(&mut summary, failures_text.as_str());
            match retry_after {
                Some(r) => {
                    push_text(&mut summary, " start failures. Next retry in ");
                    let r_text = render_u64(r);
                    push_text(&mut summary, r_text.as_str());
                    push_text(&mut summary, "s.");
                },
                None => push_text(&mut summary, " start failures recorded."),
            }
            let details = match h.details {
                Some(d) => {
                    let t = trim_text(d.as_str());
                    if t.unicode_len() > 0 {
                        push_text(&mut summary, "\n\n");
                        push_text(&mut summary, d.as_str());
                    }
                    summary
                },
                None => summary,
            };
            h.details = Some(details);
            h.last_error = Some(last_error.clone());
        },
        None => {},
    }
    h
}

} // verus!

verus! {

/// The state recorded for `agent`: that of its last entry.
pub open spec fn state_lookup(entries: Seq<(Seq<char>, RuntimeState)>, agent: Seq<char>) -> Option<RuntimeState>
    decreases entries.len(),
{
    if entries.len() == 0 {
        None
    } else if entries.last().0 == agent {
        Some(entries.last().1)
    } else {
        state_lookup(entries.drop_last(), agent)
    }
}

/// The entries with their keys as character sequences.
pub open spec fn keyed_views(v: Seq<(String, RuntimeState)>) -> Seq<(Seq<char>, RuntimeState)> {
    v.map_values(|e: (String, RuntimeState)| (e.0@, e.1))
}

proof fn lemma_lookup_push(entries: Seq<(Seq<char>, RuntimeState)>, key: Seq<char>, s: RuntimeState, other: Seq<char>)
    ensures
        state_lookup(entries.push((key, s)), key) == Some(s),
        other != key ==> state_lookup(entries.push((key, s)), other) == state_lookup(entries, other),
{
    assert(entries.push((key, s)).drop_last() =~= entries);
}

proof fn lemma_lookup_absent(entries: Seq<(Seq<char>, RuntimeState)>, key: Seq<char>)
    requires
        forall|i: int| 0 <= i < entries.len() ==> (#[trigger] entries[i]).0 != key,
    ensures
        state_lookup(entries, key).is_none(),
    decreases entries.len(),
{
    if entries.len() > 0 {
        lemma_lookup_absent(entries.drop_last(), key);
    }
}

proof fn lemma_lookup_skip(entries: Seq<(Seq<char>, RuntimeState)>, idx: int, key: Seq<char>)
    requires
        0 <= idx < entries.len(),
        entries[idx].0 != key,
    ensures
        state_lookup(entries.remove(idx), key) == state_lookup(entries, key),
    decreases entries.len(),
{
    if idx < entries.len() - 1 {
        assert(entries.remove(idx).last() == entries.last());
        assert(entries.remove(idx).drop_last() =~= entries.drop_last().remove(idx));
        lemma_lookup_skip(entries.drop_last(), idx, key);
    } else {
        assert(entries.remove(idx) =~= entries.drop_last());
    }
}

proof fn lemma_lookup_at(entries: Seq<(Seq<char>, RuntimeState)>, idx: int, key: Seq<char>)
    requires
        0 <= idx < entries.len(),
        entries[idx].0 == key,
        forall|i: int| 0 <= i < entries.len() && i != idx ==> (#[trigger] entries[i]).0 != key,
    ensures
        state_lookup(entries, key) == Some(entries[idx].1),
    decreases entries.len(),
{
    if idx < entries.len() - 1 {
        lemma_lookup_at(entries.drop_last(), idx, key);
    }
}

proof fn lemma_lookup_update_other(entries: Seq<(Seq<char>, RuntimeState)>, idx: int, s: RuntimeState, other: Seq<char>)
    requires
        0 <= idx < entries.len(),
        entries[idx].0 != other,
    ensures
        state_lookup(entries.update(idx, (entries[idx].0, s)), other) == state_lookup(entries, other),
    decreases entries.len(),
{
    let u = entries.update(idx, (entries[idx].0, s));
    if idx < entries.len() - 1 {
        assert(u.drop_last() =~= entries.drop_last().update(idx, (entries[idx].0, s)));
        lemma_lookup_update_other(entries.drop_last(), idx, s, other);
    } else {
        assert(u.drop_last() =~= entries.drop_last());
    }
}

/// The supervisor's bookkeeping of every agent, keyed by agent id.
pub struct RuntimeRegistry {
    entries: Vec<(String, RuntimeState)>,
}

impl RuntimeRegistry {
    pub closed spec fn entries(&self) -> Seq<(Seq<char>, RuntimeState)> {
        keyed_views(self.entries@)
    }

    /// The state recorded for an agent.
    pub open spec fn state_of(&self, agent: Seq<char>) -> Option<RuntimeState> {
        state_lookup(self.entries(), agent)
    }

    pub closed spec fn wf(&self) -> bool {
        forall|i: int, j: int| 0 <= i < j < self.entries@.len() ==> self.entries@[i].0@ != self.entries@[j].0@
    }

    /// A registry without any agent.
    pub fn new() -> (r: RuntimeRegistry)
        ensures
            r.wf(),
            forall|a: Seq<char>| r.state_of(a).is_none(),
    {
        let r = RuntimeRegistry { entries: Vec::new() };
        assert(r.entries() =~= Seq::empty());
        r
    }

    fn position(&self, agent_id: &str) -> (r: Option<usize>)
        requires
            self.wf(),
        ensures
            match r {
                Some(i) => i < self.entries@.len() && self.entries@[i as int].0@ == agent_id@,
                None => forall|i: int| 0 <= i < self.entries@.len() ==> (#[trigger] self.entries@[i]).0@ != agent_id@,
            },
    {
        let mut i: usize = 0;
        while i < self.entries.len()
            invariant
                i <= self.entries@.len(),
                forall|j: int| 0 <= j < i ==> (#[trigger] self.entries@[j]).0@ != agent_id@,
            decreases self.entries@.len() - i,
        {
            if same_text(self.entries[i].0.as_str(), agent_id) {
                return Some(i);
            }
            i = i + 1;
        }
        None
    }

    /// The state recorded for an agent.
    pub fn get(&self, agent_id: &str) -> (r: Option<&RuntimeState>)
        requires
            self.wf(),
        ensures
            match r {
                Some(s) => self.state_of(agent_id@) == Some(*s),
                None => self.state_of(agent_id@).is_none(),
            },
    {
        match self.position(agent_id) {
            Some(i) => {
                proof { self.lemma_found(i as int, agent_id@); }
                Some(&self.entries[i].1)
            },
            None => {
                proof { self.lemma_missing(agent_id@); }
                None
            },
        }
    }

    proof fn lemma_found(&self, i: int, agent: Seq<char>)
        requires
            self.wf(),
            0 <= i < self.entries@.len(),
            self.entries@[i].0@ == agent,
        ensures
            self.state_of(agent) == Some(self.entries@[i].1),
    {
        let e = self.entries();
        assert forall|j: int| 0 <= j < e.len() && j != i implies (#[trigger] e[j]).0 != agent by {
            if j < i {
                assert(self.entries@[j].0@ != self.entries@[i].0@);
            } else {
                assert(self.entries@[i].0@ != self.entries@[j].0@);
            }
        }
        lemma_lookup_at(e, i, agent);
    }

    proof fn lemma_missing(&self, agent: Seq<char>)
        requires
            forall|i: int| 0 <= i < self.entries@.len() ==> (#[trigger] self.entries@[i]).0@ != agent,
        ensures
            self.state_of(agent).is_none(),
    {
        let e = self.entries();
        assert forall|i: int| 0 <= i < e.len() implies (#[trigger] e[i]).0 != agent by {
            assert(self.entries@[i].0@ != agent);
        }
        lemma_lookup_absent(e, agent);
    }

    /// Records `state` for an agent, replacing what was there.
    pub fn put(&mut self, agent_id: &str, state: RuntimeState)
        requires
            old(self).wf(),
        ensures
            final(self).wf(),
            final(self).state_of(agent_id@) == Some(state),
            forall|a: Seq<char>| a != agent_id@ ==> final(self).state_of(a) == old(self).state_of(a),
    {
        let ghost before = self.entries();
        match self.position(agent_id) {
            Some(i) => {
                let key = String::from_str(agent_id);
                self.entries.set(i, (key, state));
                proof {
                    assert(self.entries() =~= before.update(i as int, (before[i as int].0, state)));
                    assert forall|a: Seq<char>| a != agent_id@ implies self.state_of(a) == state_lookup(before, a) by {
                        lemma_lookup_update_other(before, i as int, state, a);
                    }
                    self.lemma_found(i as int, agent_id@);
                }
            },
            None => {
                let key = String::from_str(agent_id);
                self.entries.push((key, state));
                proof {
                    assert(self.entries() =~= before.push((agent_id@, state)));
                    assert forall|a: Seq<char>| a != agent_id@ implies self.state_of(a) == state_lookup(before, a) by {
                        lemma_lookup_push(before, agent_id@, state, a);
                    }
                    lemma_lookup_push(before, agent_id@, state, agent_id@);
                }
            },
        }
    }

    /// Takes an agent's state out of the registry (a fresh state when none
    /// was recorded).
    pub fn take(&mut self, agent_id: &str) -> (s: RuntimeState)
        requires
            old(self).wf(),
        ensures
            final(self).wf(),
            s == match old(self).state_of(agent_id@) {
                Some(t) => t,
                None => fresh_state(),
            },
            final(self).state_of(agent_id@).is_none(),
            forall|a: Seq<char>| a != agent_id@ ==> final(self).state_of(a) == old(self).state_of(a),
    {
        let ghost before = self.entries();
        match self.position(agent_id) {
            Some(i) => {
                proof { self.lemma_found(i as int, agent_id@); }
                let ghost old_entries = self.entries@;
                let (_, s) = self.entries.remove(i);
                proof {
                    assert(self.entries() =~= before.remove(i as int));
                    assert forall|a: Seq<char>| a != agent_id@ implies self.state_of(a) == state_lookup(before, a) by {
                        lemma_lookup_skip(before, i as int, a);
                    }
                    assert forall|j: int| 0 <= j < self.entries@.len() implies (#[trigger] self.entries@[j]).0@ != agent_id@ by {
                        if j < i {
                            assert(self.entries@[j] == old_entries[j]);
                        } else {
                            assert(self.entries@[j] == old_entries[j + 1]);
                        }
                    }
                    self.lemma_missing(agent_id@);
                }
                s
            },
            None => {
                proof { self.lemma_missing(agent_id@); }
                RuntimeState::new()
            },
        }
    }

    /// Forgets an agent's state.
    pub fn clear_adapter_runtime(&mut self, agent_id: &str)
        requires
            old(self).wf(),
        ensures
            final(self).wf(),
            final(self).state_of(agent_id@).is_none(),
            forall|a: Seq<char>| a != agent_id@ ==> final(self).state_of(a) == old(self).state_of(a),
    {
        let _ = self.take(agent_id);
    }

    /// Forgets every agent's state.
    pub fn clear_all_adapter_runtime(&mut self)
        ensures
            final(self).wf(),
            forall|a: Seq<char>| final(self).state_of(a).is_none(),
    {
        self.entries.clear();
        assert(self.entries() =~= Seq::empty());
    }
}

} // verus!
