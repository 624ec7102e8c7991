//! The adapter contract shared by every transport: its errors and its health
//! report.
use vstd::prelude::*;
use crate::text::push_text;

verus! {

/// Why an adapter operation failed; each carries a human-readable cause.
#[derive(Debug, Clone)]
pub enum AdapterError {
    NotConnected(String),
    DeliveryFailed(String),
    SessionNotFound(String),
    SpawnFailed(String),
    Other(String),
}

/// The human-readable rendering of an error.
pub open spec fn error_text(e: AdapterError) -> Seq<char> {
    match e {
        AdapterError::NotConnected(s) => "Not connected: "@ + s@,
        AdapterError::DeliveryFailed(s) => "Delivery failed: "@ + s@,
        AdapterError::SessionNotFound(s) => "Session not found: "@ + s@,
        AdapterError::SpawnFailed(s) => "Spawn failed: "@ + s@,
        AdapterError::Other(s) => s@,
    }
}

impl AdapterError {
    /// The error as text: its category, then its cause.
    pub fn to_text(&self) -> (r: String)
        ensures
            r@ == error_text(*self),
    {
        let mut r = String::new();
        match self {
            AdapterError::NotConnected(s) => {
                push_text(&mut r, "Not connected: ");
                push_text(&mut r, s.as_str());
            },
            AdapterError::DeliveryFailed(s) => {
                push_text(&mut r, "Delivery failed: ");
                push_text(&mut r, s.as_str());
            },
            AdapterError::SessionNotFound(s) => {
                push_text(&mut r, "Session not found: ");
                push_text(&mut r, s.as_str());
            },
            AdapterError::SpawnFailed(s) => {
                push_text(&mut r, "Spawn failed: ");
                push_text(&mut r, s.as_str());
            },
            AdapterError::Other(s) => {
                push_text(&mut r, s.as_str());
            },
        }
        r
    }
}

/// A read-only snapshot of a transport's state, with supervisor bookkeeping.
#[derive(Debug, Clone)]
pub struct AdapterHealth {
    pub connected: bool,
    pub session_active: bool,
    pub last_heartbeat: Option<String>,
    pub details: Option<String>,
    pub retry_after_seconds: Option<u64>,
    pub consecutive_failures: Option<u32>,
    pub last_error: Option<String>,
    pub suppress_auto_restart: Option<bool>,
}

impl AdapterHealth {
    /// A health report that only carries transport observations.
    pub fn observed(connected: bool, session_active: bool, last_heartbeat: Option<String>, details: Option<String>) -> (h: AdapterHealth)
        ensures
            h.connected == connected,
            h.session_active == session_active,
            h.last_heartbeat == last_heartbeat,
            h.details == details,
            h.retry_after_seconds.is_none(),
            h.consecutive_failures.is_none(),
            h.last_error.is_none(),
            h.suppress_auto_restart.is_none(),
    {
        AdapterHealth {
            connected,
            session_active,
            last_heartbeat,
            details,
            retry_after_seconds: None,
            consecutive_failures: None,
            last_error: None,
            suppress_auto_restart: None,
        }
    }
}

} // verus!
