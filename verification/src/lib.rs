//! Pipeline automation engine for agent-driven ticket workflows.
//!
//! A pipeline is an ordered list of steps attached to one ticket.  Each step
//! is either driven automatically by an agent run or gated behind a human
//! approval.  This crate holds the verified core of the system: the step
//! state machine, the automation engine that advances pipelines (including
//! bounded chaining of consecutive automatic steps), the agent-run lifecycle
//! that folds a stream of invocation messages into a finalized run record,
//! the append-only per-session event log with its replay mechanism, and the
//! recovery sweep that unsticks runs and steps after an abrupt process exit.
//!
//! Everything that performs I/O (persistence, HTTP, the external agent
//! invocation service) lives outside this crate and hands plain values in
//! and out of the verified functions here.

pub mod agents;
pub mod artifacts;
pub mod chat;
pub mod engine;
pub mod errors;
pub mod events;
pub mod extract;
pub mod lifecycle;
pub mod models;
pub mod pipeline;
pub mod prompts;
pub mod recovery;
pub mod runstore;
pub mod status;
pub mod strutil;
pub mod templates;

use vstd::prelude::*;

verus! {

/// Upper bound on the number of consecutive automatic steps advanced by a
/// single advancement call.  A safety valve against template authoring
/// errors, not a normal outcome.
pub const MAX_AUTO_CHAIN_DEPTH: u32 = 10;

} // verus!
