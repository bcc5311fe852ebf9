//! Tool-hook subsystem: configuration, matcher, runner, manager, payload
//! building and router integration for operator-supplied hook programs.
//!
//! A hook is an external program that observes or vetoes a tool call. The
//! library holds the verified logic: which hooks apply, in what order they
//! run, how their output is interpreted, and what a blocking decision does.
//! Spawning the child process itself is I/O and is left to the embedding
//! application, which drives the step machines exposed here.

pub mod config;
pub mod events;
pub mod json;
pub mod manager;
pub mod matcher;
pub mod parse;
pub mod payload;
pub mod router;
pub mod runner;
pub mod text;

use vstd::prelude::*;

verus! {

/// Default timeout for a hook child process, in milliseconds.
pub const DEFAULT_HOOK_TIMEOUT_MS: u64 = 10_000;

} // verus!
