//! The mock transport: deterministic replies with no external process.
use vstd::prelude::*;
use crate::adapter::AdapterHealth;
use crate::text::push_text;

verus! {

/// Milliseconds between two polls of the pending queue.
pub const MOCK_POLL_INTERVAL_MS: u64 = 2000;

/// Milliseconds of simulated work per instruction.
pub const MOCK_PROCESSING_DELAY_MS: u64 = 1000;

/// A transport that echoes instructions back and completes them.
#[derive(Debug, Clone, Copy)]
pub struct MockAdapter;

/// The output that answers an instruction.
pub open spec fn mock_output(content: Seq<char>) -> Seq<char> {
    "[mock] Processed: "@ + content
}

impl MockAdapter {
    pub fn new() -> (r: MockAdapter) {
        MockAdapter
    }

    /// The output that answers an instruction with this content.
    pub fn reply_text(content: &str) -> (r: String)
        ensures
            r@ == mock_output(content@),
    {
        let mut r = String::from_str("[mock] Processed: ");
        push_text(&mut r, content);
        r
    }

    /// Always healthy.
    pub fn health(&self, heartbeat: Option<String>) -> (h: AdapterHealth)
        ensures
            h.connected,
            h.session_active,
            h.last_heartbeat == heartbeat,
            h.details.is_some() && h.details.unwrap()@ == "Mock adapter (always healthy)"@,
            h.last_error.is_none(),
            h.retry_after_seconds.is_none(),
            h.consecutive_failures.is_none(),
            h.suppress_auto_restart.is_none(),
    {
        AdapterHealth::observed(true, true, heartbeat, Some(String::from_str("Mock adapter (always healthy)")))
    }
}

} // verus!
