//! Peer resolution and connection orchestration.
//!
//! The library turns a one-shot "find and connect to user X" command into a
//! deduplicated, asynchronous workflow: it tracks the lookups and dial
//! attempts that are in flight, decides which network operations to issue for
//! each incoming command or network event, and produces exactly one result per
//! accepted request. The surrounding process owns the actual network stack;
//! it feeds events in as plain values and carries the returned actions out.

pub mod addr;
pub mod command;
pub mod registry;
pub mod event;
pub mod orchestrator;
pub mod laws;
