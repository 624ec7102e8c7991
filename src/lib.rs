//! Adapter and supervisor core for a fleet of long-running agents.
//!
//! The library holds the decisions of the transport layer: how canonical
//! messages map onto each transport, how subprocess output is buffered, how a
//! process exit is classified under its restart policy, and how the supervisor
//! backs off after failed starts. Everything that touches the operating system
//! (spawning, pipes, HTTP, clocks) is performed by the caller, which hands the
//! observed values to these functions.

pub mod adapter;
pub mod mock;
pub mod models;
pub mod process;
pub mod ring;
pub mod runs;
pub mod steps;
pub mod store;
pub mod supervisor;
pub mod terminal;
pub mod text;
pub mod transport;
pub mod webhook;
