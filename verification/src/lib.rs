//! Verified core of a PTY session supervisor.
//!
//! The library models the lifecycle of interactive terminal sessions: the
//! argument vector built for each invocation, the byte-capped rolling buffer
//! of retained output, the per-session termination state machine, and the
//! registry that tracks live sessions and the exit records of finished ones.

pub mod buffer;
pub mod editors;
pub mod errors;
pub mod events;
pub mod invocation;
pub mod registry;
pub mod session;
pub mod text;

use vstd::prelude::*;

verus! {

/// Command-line request accepted at process start: an optional workspace
/// directory to open.
pub struct Cli {
    pub workspace: Option<String>,
}

} // verus!
