//! The canonical data model shared by every transport.
use vstd::prelude::*;

verus! {

/// How an agent is driven.
#[derive(Debug, Clone, Copy, PartialEq, Eq, Structural)]
pub enum AgentKind {
    Terminal,
    Api,
    Script,
}

/// The status of an agent as the dashboard shows it.
#[derive(Debug, Clone, Copy, PartialEq, Eq, Structural)]
pub enum AgentStatus {
    Idle,
    Running,
    Blocked,
    Errored,
    Completed,
}

/// How much an agent may do without approval.
#[derive(Debug, Clone, Copy, PartialEq, Eq, Structural)]
pub enum AutonomyLevel {
    Manual,
    DraftOnly,
    Supervised,
    Autonomous,
}

/// Per-agent behaviour settings.
#[derive(Debug, Clone)]
pub struct AgentConfig {
    pub autonomy_level: AutonomyLevel,
    pub watch_paths: Vec<String>,
    pub schedule: Option<String>,
    pub notify_on: Vec<AgentStatus>,
}

/// The lifecycle state of one run of work.
#[derive(Debug, Clone, Copy, PartialEq, Eq, Structural)]
pub enum RunStatus {
    InProgress,
    Completed,
    Failed,
    NeedsReview,
}

/// What happened to a watched file.
#[derive(Debug, Clone, Copy, PartialEq, Eq, Structural)]
pub enum FileChangeType {
    Created,
    Modified,
    Deleted,
    Renamed,
}

/// Which way a canonical message travels.
#[derive(Debug, Clone, Copy, PartialEq, Eq, Structural)]
pub enum MessageDirection {
    ToAgent,
    FromAgent,
}

/// The kind of a canonical message.
#[derive(Debug, Clone, Copy, PartialEq, Eq, Structural)]
pub enum MessageKind {
    Instruction,
    Pause,
    Resume,
    Cancel,
    StatusRequest,
    StatusUpdate,
    Output,
    Error,
    Blocked,
    Completed,
    Heartbeat,
}

/// The transport that an agent's adapter speaks.
#[derive(Debug, Clone, Copy, PartialEq, Eq, Structural)]
pub enum AdapterType {
    ClaudeCode,
    Codex,
    Tmux,
    HttpWebhook,
    Process,
    Mock,
}

/// Aggregate counters for the dashboard.
#[derive(Debug, Clone, Copy, PartialEq, Eq, Structural)]
pub struct DashboardStats {
    pub total_agents: usize,
    pub running: usize,
    pub idle: usize,
    pub errored: usize,
    pub needs_attention: usize,
    pub files_changed_today: usize,
}

/// The outcome of writing a database snapshot to disk.
#[derive(Debug, Clone)]
pub struct DatabaseSnapshotResult {
    pub path: String,
    pub size_bytes: u64,
    pub completed_at: String,
}

/// The value of one environment entry of an adapter configuration: either a
/// JSON string, or any other JSON value held in its compact JSON text.
#[derive(Debug, Clone)]
pub enum EnvValue {
    Text(String),
    Json(String),
}

/// One key of the environment / policy overrides of an adapter configuration.
#[derive(Debug, Clone)]
pub struct EnvEntry {
    pub key: String,
    pub value: EnvValue,
}

/// Per-agent transport configuration. `env` is absent when the configuration
/// holds no environment object.
#[derive(Debug, Clone)]
pub struct AdapterConfig {
    pub adapter_type: AdapterType,
    pub session_name: Option<String>,
    pub endpoint: Option<String>,
    pub command: Option<String>,
    pub env: Option<Vec<EnvEntry>>,
}

/// Relies on `uuid::Uuid::new_v4` and its `Display`, which writes the
/// hyphenated form: 36 characters. The value is random.
#[verifier::external_body]
pub(crate) fn fresh_message_id() -> (r: String)
    ensures
        r@.len() == 36,
{
    uuid::Uuid::new_v4().to_string()
}

/// Relies on `chrono::Utc::now` and `timestamp_millis`: the current time in
/// milliseconds since the Unix epoch. It depends on the clock alone.
#[verifier::external_body]
pub(crate) fn utc_now_millis() -> (r: i64) {
    chrono::Utc::now().timestamp_millis()
}

/// A canonical message. Timestamps are milliseconds since the Unix epoch.
#[derive(Debug, Clone)]
pub struct Message {
    pub id: String,
    pub agent_id: String,
    pub direction: MessageDirection,
    pub kind: MessageKind,
    pub content: String,
    pub metadata: Vec<(String, String)>,
    pub reply_to: Option<String>,
    pub created_at: i64,
    pub delivered_at: Option<i64>,
    pub acknowledged_at: Option<i64>,
}

impl Message {
    /// A message is pending while it travels to the agent and is not delivered.
    pub open spec fn is_pending(&self) -> bool {
        &&& self.direction == MessageDirection::ToAgent
        &&& self.delivered_at.is_none()
    }

    /// A new outbound message (controller to agent) with the given id and
    /// creation time, still pending.
    pub fn outbound(id: &str, agent_id: &str, kind: MessageKind, content: &str, now: i64) -> (m: Message)
        ensures
            m.id@ == id@,
            m.agent_id@ == agent_id@,
            m.direction == MessageDirection::ToAgent,
            m.kind == kind,
            m.content@ == content@,
            m.metadata@.len() == 0,
            m.reply_to.is_none(),
            m.created_at == now,
            m.delivered_at.is_none(),
            m.acknowledged_at.is_none(),
            m.is_pending(),
    {
        Message {
            id: String::from_str(id),
            agent_id: String::from_str(agent_id),
            direction: MessageDirection::ToAgent,
            kind,
            content: String::from_str(content),
            metadata: Vec::new(),
            reply_to: None,
            created_at: now,
            delivered_at: None,
            acknowledged_at: None,
        }
    }

    /// A new inbound message (agent to controller) with the given id and
    /// creation time, delivered on creation.
    pub fn inbound(id: &str, agent_id: &str, kind: MessageKind, content: &str, now: i64) -> (m: Message)
        ensures
            m.id@ == id@,
            m.agent_id@ == agent_id@,
            m.direction == MessageDirection::FromAgent,
            m.kind == kind,
            m.content@ == content@,
            m.metadata@.len() == 0,
            m.reply_to.is_none(),
            m.created_at == now,
            m.delivered_at == Some(now),
            m.acknowledged_at.is_none(),
    {
        Message {
            id: String::from_str(id),
            agent_id: String::from_str(agent_id),
            direction: MessageDirection::FromAgent,
            kind,
            content: String::from_str(content),
            metadata: Vec::new(),
            reply_to: None,
            created_at: now,
            delivered_at: Some(now),
            acknowledged_at: None,
        }
    }

    /// A new outbound message (controller to agent) with a fresh random id,
    /// created now and still pending.
    pub fn to_agent(agent_id: &str, kind: MessageKind, content: &str) -> (m: Message)
        ensures
            m.id@.len() == 36,
            m.agent_id@ == agent_id@,
            m.direction == MessageDirection::ToAgent,
            m.kind == kind,
            m.content@ == content@,
            m.metadata@.len() == 0,
            m.reply_to.is_none(),
            m.delivered_at.is_none(),
            m.acknowledged_at.is_none(),
            m.is_pending(),
    {
        let id = fresh_message_id();
        Message::outbound(id.as_str(), agent_id, kind, content, utc_now_millis())
    }

    /// A new inbound message (agent to controller) with a fresh random id,
    /// created and delivered now.
    pub fn from_agent(agent_id: &str, kind: MessageKind, content: &str) -> (m: Message)
        ensures
            m.id@.len() == 36,
            m.agent_id@ == agent_id@,
            m.direction == MessageDirection::FromAgent,
            m.kind == kind,
            m.content@ == content@,
            m.metadata@.len() == 0,
            m.reply_to.is_none(),
            m.delivered_at == Some(m.created_at),
            m.acknowledged_at.is_none(),
    {
        let id = fresh_message_id();
        Message::inbound(id.as_str(), agent_id, kind, content, utc_now_millis())
    }

    /// Sets the delivery time once; a message already delivered keeps its time.
    pub fn mark_delivered(&mut self, now: i64)
        ensures
            *final(self) == (Message {
                delivered_at: match old(self).delivered_at {
                    Some(t) => Some(t),
                    None => Some(now),
                },
                ..*old(self)
            }),
    {
        if self.delivered_at.is_none() {
            self.delivered_at = Some(now);
        }
    }
}

} // verus!
