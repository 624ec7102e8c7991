//! The webhook transport: the JSON envelope's fields, the mapping of replies
//! back onto canonical messages and run states, and its health report.
use vstd::prelude::*;
use crate::adapter::{error_text, AdapterError, AdapterHealth};
use crate::models::{AdapterConfig, AgentStatus, Message, MessageKind, RunStatus};
use crate::process::{config_env, env_text_for, env_text_value};
use crate::text::{push_text, same_text};

verus! {

/// Seconds an HTTP request may take.
pub const REQUEST_TIMEOUT_SECONDS: u64 = 8;

/// Milliseconds between two polls of the pending queue.
pub const POLL_INTERVAL_MS: u64 = 700;

/// The endpoint used when a configuration names none.
pub open spec fn default_endpoint() -> Seq<char> {
    "http://localhost:8765/kanbun/webhook"@
}

/// The configuration key of the authorization header.
pub open spec fn auth_header_key() -> Seq<char> {
    "AUTH_HEADER"@
}

/// The wire name of a message kind.
pub open spec fn kind_name(kind: MessageKind) -> Seq<char> {
    match kind {
        MessageKind::Instruction => "instruction"@,
        MessageKind::Pause => "pause"@,
        MessageKind::Resume => "resume"@,
        MessageKind::Cancel => "cancel"@,
        MessageKind::StatusRequest => "status_request"@,
        MessageKind::StatusUpdate => "status_update"@,
        MessageKind::Output => "output"@,
        MessageKind::Error => "error"@,
        MessageKind::Blocked => "blocked"@,
        MessageKind::Completed => "completed"@,
        MessageKind::Heartbeat => "heartbeat"@,
    }
}

/// The kind a reply names; "status" is a status update, and any name that is
/// not a known kind (or "instruction") is output.
pub open spec fn reply_kind(raw: Seq<char>) -> MessageKind {
    if raw == "error"@ { MessageKind::Error }
    else if raw == "blocked"@ { MessageKind::Blocked }
    else if raw == "completed"@ { MessageKind::Completed }
    else if raw == "status_update"@ { MessageKind::StatusUpdate }
    else if raw == "heartbeat"@ { MessageKind::Heartbeat }
    else if raw == "pause"@ { MessageKind::Pause }
    else if raw == "cancel"@ { MessageKind::Cancel }
    else if raw == "resume"@ { MessageKind::Resume }
    else if raw == "status_request"@ { MessageKind::StatusRequest }
    else if raw == "status"@ { MessageKind::StatusUpdate }
    else { MessageKind::Output }
}

/// The run status a reply's `status` field names, if any.
pub open spec fn reply_status(raw: Seq<char>) -> Option<RunStatus> {
    if raw == "completed"@ { Some(RunStatus::Completed) }
    else if raw == "failed"@ { Some(RunStatus::Failed) }
    else if raw == "needs_review"@ { Some(RunStatus::NeedsReview) }
    else { None }
}

/// The request envelope's fields, ready to be encoded as JSON.
#[derive(Debug, Clone)]
pub struct WebhookRequest {
    pub agent_id: String,
    pub message_id: String,
    pub kind: String,
    pub content: String,
    pub reply_to: Option<String>,
    pub metadata: Vec<(String, String)>,
}

/// The fields of a reply envelope; each may be missing.
#[derive(Debug, Clone)]
pub struct WebhookReply {
    pub kind: Option<String>,
    pub status: Option<String>,
    pub content: Option<String>,
}

/// What the poll loop records for a reply.
#[derive(Debug, Clone)]
pub struct ReplyOutcome {
    pub kind: MessageKind,
    pub content: String,
    pub finalize: Option<RunStatus>,
    pub agent_status: AgentStatus,
}

/// The agent status that follows a run status named by a reply.
pub open spec fn status_after_reply(finalize: Option<RunStatus>) -> AgentStatus {
    match finalize {
        Some(RunStatus::Completed) => AgentStatus::Completed,
        Some(RunStatus::Failed) => AgentStatus::Errored,
        Some(RunStatus::NeedsReview) => AgentStatus::Blocked,
        Some(RunStatus::InProgress) => AgentStatus::Running,
        None => AgentStatus::Running,
    }
}

/// What the poll loop records for a pending message before its reply is read.
#[derive(Debug, Clone, Copy, PartialEq, Eq, Structural)]
pub enum PendingEffect {
    /// Start (or extend) the instruction run; the agent runs.
    StartRun,
    /// The agent is blocked.
    Block,
    /// The run fails as cancelled; the agent idles.
    CancelRun,
    /// Nothing beyond the reply.
    Nothing,
}

/// A webhook transport for one agent.
#[derive(Debug, Clone)]
pub struct WebhookAdapter {
    pub endpoint: String,
    pub auth_header: Option<String>,
}

impl WebhookAdapter {
    /// The configured endpoint (or the default one) and the authorization
    /// header held under `AUTH_HEADER`, when it is a string.
    pub fn new(config: &AdapterConfig) -> (r: WebhookAdapter)
        ensures
            r.endpoint@ == match config.endpoint {
                Some(e) => e@,
                None => default_endpoint(),
            },
            match r.auth_header {
                Some(h) => env_text_for(config_env(*config), auth_header_key()) == Some(h@),
                None => env_text_for(config_env(*config), auth_header_key()).is_none(),
            },
    {
        let endpoint = match &config.endpoint {
            Some(e) => e.clone(),
            None => String::from_str("http://localhost:8765/kanbun/webhook"),
        };
        WebhookAdapter { endpoint, auth_header: env_text_value(config, "AUTH_HEADER") }
    }

    /// The endpoint that requests go to.
    pub fn endpoint_url(&self) -> (r: &str)
        ensures
            r@ == self.endpoint@,
    {
        self.endpoint.as_str()
    }

    /// The message kind a reply's `kind` (or `status`) names.
    pub fn message_type_from_reply(raw: &str) -> (k: MessageKind)
        ensures
            k == reply_kind(raw@),
    {
        if same_text(raw, "error") { MessageKind::Error }
        else if same_text(raw, "blocked") { MessageKind::Blocked }
        else if same_text(raw, "completed") { MessageKind::Completed }
        else if same_text(raw, "status_update") { MessageKind::StatusUpdate }
        else if same_text(raw, "heartbeat") { MessageKind::Heartbeat }
        else if same_text(raw, "pause") { MessageKind::Pause }
        else if same_text(raw, "cancel") { MessageKind::Cancel }
        else if same_text(raw, "resume") { MessageKind::Resume }
        else if same_text(raw, "status_request") { MessageKind::StatusRequest }
        else if same_text(raw, "status") { MessageKind::StatusUpdate }
        else { MessageKind::Output }
    }

    /// The output-log kind under which a reply of this kind is recorded.
    pub fn message_kind_as_output(kind: MessageKind) -> (r: &'static str)
        ensures
            r@ == kind_name(kind),
    {
        Self::message_kind_for_transport(kind)
    }

    /// The wire name of a kind in the request envelope.
    pub fn message_kind_for_transport(kind: MessageKind) -> (r: &'static str)
        ensures
            r@ == kind_name(kind),
    {
        match kind {
            MessageKind::Instruction => "instruction",
            MessageKind::Pause => "pause",
            MessageKind::Resume => "resume",
            MessageKind::Cancel => "cancel",
            MessageKind::StatusRequest => "status_request",
            MessageKind::StatusUpdate => "status_update",
            MessageKind::Output => "output",
            MessageKind::Error => "error",
            MessageKind::Blocked => "blocked",
            MessageKind::Completed => "completed",
            MessageKind::Heartbeat => "heartbeat",
        }
    }

    /// The run status a reply's `status` names: completed, failed or
    /// needs_review; anything else names none.
    pub fn normalize_status(raw: &str) -> (r: Option<RunStatus>)
        ensures
            r == reply_status(raw@),
    {
        if same_text(raw, "completed") {
            Some(RunStatus::Completed)
        } else if same_text(raw, "failed") {
            Some(RunStatus::Failed)
        } else if same_text(raw, "needs_review") {
            Some(RunStatus::NeedsReview)
        } else {
            None
        }
    }

    /// Whether a direct delivery of this kind posts to the endpoint: only the
    /// controller-to-agent kinds do.
    pub fn posts_on_deliver(kind: MessageKind) -> (r: bool)
        ensures
            r == (kind == MessageKind::Instruction || kind == MessageKind::Resume
                || kind == MessageKind::StatusRequest || kind == MessageKind::Pause
                || kind == MessageKind::Cancel),
    {
        match kind {
            MessageKind::Instruction | MessageKind::Resume | MessageKind::StatusRequest
            | MessageKind::Pause | MessageKind::Cancel => true,
            _ => false,
        }
    }

    /// What a pending message of this kind records before its reply.
    pub fn pending_effect(kind: MessageKind) -> (e: PendingEffect)
        ensures
            (kind == MessageKind::Instruction || kind == MessageKind::Resume) <==> e == PendingEffect::StartRun,
            kind == MessageKind::Pause <==> e == PendingEffect::Block,
            kind == MessageKind::Cancel <==> e == PendingEffect::CancelRun,
    {
        match kind {
            MessageKind::Instruction | MessageKind::Resume => PendingEffect::StartRun,
            MessageKind::Pause => PendingEffect::Block,
            MessageKind::Cancel => PendingEffect::CancelRun,
            _ => PendingEffect::Nothing,
        }
    }

    /// The request envelope for a message.
    pub fn request_for(agent_id: &str, message: &Message) -> (r: WebhookRequest)
        ensures
            r.agent_id@ == agent_id@,
            r.message_id@ == message.id@,
            r.kind@ == kind_name(message.kind),
            r.content@ == message.content@,
            r.reply_to == message.reply_to,
            r.metadata@ == message.metadata@,
    {
        WebhookRequest {
            agent_id: String::from_str(agent_id),
            message_id: message.id.clone(),
            kind: String::from_str(Self::message_kind_for_transport(message.kind)),
            content: message.content.clone(),
            reply_to: match &message.reply_to {
                Some(r) => Some(r.clone()),
                None => None,
            },
            metadata: clone_pairs(&message.metadata),
        }
    }

    /// What a reply records, as kind, content and run status.
    pub open spec fn reply_outcome_spec(reply: WebhookReply) -> (MessageKind, Seq<char>, Option<RunStatus>) {
        (
            match reply.kind {
                Some(k) => reply_kind(k@),
                None => match reply.status {
                    Some(s) => reply_kind(s@),
                    None => MessageKind::Output,
                },
            },
            match reply.content {
                Some(c) => c@,
                None => "Webhook adapter completed with no response."@,
            },
            match reply.status {
                Some(s) => reply_status(s@),
                None => None,
            },
        )
    }

    /// What a reply records: a message of the kind it names (its `kind`, else
    /// its `status`, else output) with its content (or a fixed note), the run
    /// status its `status` names, and the agent status that follows.
    pub fn reply_outcome(reply: &WebhookReply) -> (r: ReplyOutcome)
        ensures
            r.kind == match reply.kind {
                Some(k) => reply_kind(k@),
                None => match reply.status {
                    Some(s) => reply_kind(s@),
                    None => MessageKind::Output,
                },
            },
            r.content@ == match reply.content {
                Some(c) => c@,
                None => "Webhook adapter completed with no response."@,
            },
            r.finalize == match reply.status {
                Some(s) => reply_status(s@),
                None => None,
            },
            r.agent_status == status_after_reply(r.finalize),
    {
        let kind = match &reply.kind {
            Some(k) => Self::message_type_from_reply(k.as_str()),
            None => match &reply.status {
                Some(s) => Self::message_type_from_reply(s.as_str()),
                None => MessageKind::Output,
            },
        };
        let content = match &reply.content {
            Some(c) => c.clone(),
            None => String::from_str("Webhook adapter completed with no response."),
        };
        let finalize = match &reply.status {
            Some(s) => Self::normalize_status(s.as_str()),
            None => None,
        };
        let agent_status = match finalize {
            Some(RunStatus::Completed) => AgentStatus::Completed,
            Some(RunStatus::Failed) => AgentStatus::Errored,
            Some(RunStatus::NeedsReview) => AgentStatus::Blocked,
            _ => AgentStatus::Running,
        };
        ReplyOutcome { kind, content, finalize, agent_status }
    }

    /// The error message recorded when a post failed.
    pub fn delivery_failure_text(error: &AdapterError) -> (r: String)
        ensures
            r@ == "Webhook delivery failed: "@ + error_text(*error),
    {
        let mut r = String::from_str("Webhook delivery failed: ");
        let text = error.to_text();
        push_text(&mut r, text.as_str());
        r
    }

    /// The health report after a reachability probe of the endpoint.
    pub fn health(&self, reachable: bool, heartbeat: Option<String>) -> (h: AdapterHealth)
        ensures
            h.connected == reachable,
            h.session_active == reachable,
            h.last_heartbeat == if reachable { heartbeat } else { None },
            h.details.is_some(),
            h.details.unwrap()@ == if reachable {
                "Webhook endpoint reachable: "@ + self.endpoint@
            } else {
                "Webhook endpoint unreachable: "@ + self.endpoint@
            },
            reachable ==> h.last_error.is_none(),
            !reachable ==> h.last_error.is_some() && h.last_error.unwrap()@ == "webhook health check failed"@,
            h.retry_after_seconds.is_none(),
            h.consecutive_failures.is_none(),
            h.suppress_auto_restart.is_none(),
    {
        if reachable {
            let mut details = String::from_str("Webhook endpoint reachable: ");
            push_text(&mut details, self.endpoint.as_str());
            AdapterHealth::observed(true, true, heartbeat, Some(details))
        } else {
            let mut details = String::from_str("Webhook endpoint unreachable: ");
            push_text(&mut details, self.endpoint.as_str());
            let mut h = AdapterHealth::observed(false, false, None, Some(details));
            h.last_error = Some(String::from_str("webhook health check failed"));
            h
        }
    }
}

/// A copy of a list of key-value pairs.
pub fn clone_pairs(v: &Vec<(String, String)>) -> (r: Vec<(String, String)>)
    ensures
        r@ == v@,
{
    let mut r: Vec<(String, String)> = Vec::new();
    let mut i: usize = 0;
    while i < v.len()
        invariant
            i <= v@.len(),
            r@ == v@.take(i as int),
        decreases v@.len() - i,
    {
        let k = v[i].0.clone();
        let x = v[i].1.clone();
        r.push((k, x));
        i = i + 1;
        assert(r@ =~= v@.take(i as int));
    }
    assert(v@.take(v@.len() as int) =~= v@);
    r
}

} // verus!
