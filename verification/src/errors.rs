//! Error taxonomy of the session subsystem.

use vstd::prelude::*;

verus! {

/// Everything that can go wrong while creating or driving a session.
///
/// The first three variants arise while a session is being created; a
/// creation that fails with one of them registers nothing. `WriterClosed`
/// and `MasterClosed` are operation-time and recoverable. `NotFound` and
/// `Conflict` concern the registry's view of an id.
#[derive(Clone, Copy, Debug, PartialEq, Eq, Structural)]
pub enum PtyError {
    /// The OS refused to allocate a pty pair.
    PtyOpenFailed,
    /// The child process could not be started on the pty.
    SpawnFailed,
    /// The writer or reader stream could not be obtained from the pty.
    StreamAcquisitionFailed,
    /// The input stream was already torn down (the child has exited).
    WriterClosed,
    /// The pty's controlling handle was already released.
    MasterClosed,
    /// No live session exists under the given id.
    NotFound,
    /// A live session already exists under the given id.
    Conflict,
}

impl PtyError {
    /// A short, stable description of the error.
    pub fn describe(&self) -> (r: &'static str)
        ensures
            r@ == match *self {
                PtyError::PtyOpenFailed => "failed to open PTY"@,
                PtyError::SpawnFailed => "failed to spawn PTY command"@,
                PtyError::StreamAcquisitionFailed => "failed to acquire PTY streams"@,
                PtyError::WriterClosed => "PTY writer closed"@,
                PtyError::MasterClosed => "PTY master closed"@,
                PtyError::NotFound => "PTY not found"@,
                PtyError::Conflict => "PTY id already registered"@,
            },
    {
        match *self {
            PtyError::PtyOpenFailed => "failed to open PTY",
            PtyError::SpawnFailed => "failed to spawn PTY command",
            PtyError::StreamAcquisitionFailed => "failed to acquire PTY streams",
            PtyError::WriterClosed => "PTY writer closed",
            PtyError::MasterClosed => "PTY master closed",
            PtyError::NotFound => "PTY not found",
            PtyError::Conflict => "PTY id already registered",
        }
    }
}

} // verus!
