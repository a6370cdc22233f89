//! One pty session: its plain state, its termination state machine, and
//! the trace of what it has emitted.
//!
//! The OS side of a session (the pty pair, the child process, the raw
//! reader and writer) lives with the embedding program. This module holds
//! everything the protocol decides on: which streams are still open,
//! whether the child has exited, how a kill request escalates, what the
//! rolling buffer retains, and in which order data and exit events leave
//! the session.

use crate::buffer::concat_text;
use crate::buffer::stored;
use crate::buffer::RollingBuffer;
use crate::errors::PtyError;
use crate::events::ExitEventModel;
use crate::events::PtyExitEvent;
use crate::invocation::PtyInvocation;
use crate::text::decode_lossy;
use crate::text::elapsed_text;
use crate::text::format_elapsed;
use crate::text::lossy_text;
use vstd::prelude::*;
use vstd::string::StringExecFns;
use vstd::utf8::decode_utf8;
use vstd::utf8::valid_utf8;

verus! {

/// Seconds a graceful kill waits for the child before escalating.
pub const GRACE_PERIOD_SECS: u64 = 5;

/// Window, in bytes, of one blocking read from the pty.
pub const READ_CHUNK_BYTES: usize = 8192;

/// The single interrupt byte (ASCII ETX) a graceful kill writes to the
/// child's input.
pub const INTERRUPT_BYTE: u8 = 0x03;

/// How the child process was, or will have been, terminated.
#[derive(Clone, Copy, Debug, PartialEq, Eq, Structural)]
pub enum TerminationKind {
    /// The child exited on its own; the default until a kill is requested.
    Finished,
    /// The child was asked to stop with an interrupt byte.
    Stopped,
    /// The child ignored the interrupt and was forcibly terminated.
    Killed,
}

/// One entry of a session's emission trace.
pub enum EventMark {
    /// A data event carrying this text.
    Data(Seq<char>),
    /// The final exit event.
    Exit,
}

/// Plain state of one live session.
pub struct PtyHandle {
    pub id: String,
    pub invocation: PtyInvocation,
    /// Identifier of the spawned child, if the OS reported one; used only
    /// for forced termination.
    pub process_id: Option<u32>,
    pub termination: TerminationKind,
    pub buffer: RollingBuffer,
    /// Whether the completion signal has fired: set once, at teardown.
    pub exited: bool,
    pub writer_open: bool,
    pub master_open: bool,
    /// Trace of emitted events, in emission order.
    pub events: Ghost<Seq<EventMark>>,
}

/// The state after a kill request: a live session is marked stopped, a
/// finished one is left untouched.
pub open spec fn after_kill_request(s: PtyHandle) -> PtyHandle {
    if s.exited {
        s
    } else {
        PtyHandle { termination: TerminationKind::Stopped, ..s }
    }
}

/// The state after the grace period elapsed without an exit: the session
/// is marked killed.
pub open spec fn after_kill_escalation(s: PtyHandle) -> PtyHandle {
    PtyHandle { termination: TerminationKind::Killed, ..s }
}

/// Banner opening for each way a session can end.
pub open spec fn banner_prefix(kind: TerminationKind) -> Seq<char> {
    match kind {
        TerminationKind::Finished => "\r\n\n[Process finished after "@,
        TerminationKind::Stopped => "\r\n\n[Process stopped after "@,
        TerminationKind::Killed => "\r\n\n[Process killed after "@,
    }
}

/// The termination banner: how the session ended and how long it ran.
pub open spec fn banner_text(kind: TerminationKind, elapsed_secs: u64) -> Seq<char> {
    banner_prefix(kind) + elapsed_text(elapsed_secs) + "]\n\n\r"@
}

impl PtyHandle {
    /// The buffer accounts its bytes correctly, and the trace is a run of
    /// data marks, sealed by a single exit mark exactly when the session
    /// has exited.
    pub open spec fn wf(self) -> bool {
        &&& self.buffer.wf()
        &&& if self.exited {
            &&& self.events@.len() > 0
            &&& self.events@.last() is Exit
            &&& forall|i: int| 0 <= i < self.events@.len() - 1 ==> self.events@[i] is Data
        } else {
            forall|i: int| 0 <= i < self.events@.len() ==> self.events@[i] is Data
        }
    }

    /// A fresh session: streams open, child running, nothing emitted,
    /// termination defaulted to `Finished`.
    pub fn new(id: String, invocation: PtyInvocation, process_id: Option<u32>) -> (s: Self)
        ensures
            s.wf(),
            s.id == id,
            s.invocation == invocation,
            s.process_id == process_id,
            s.termination == TerminationKind::Finished,
            !s.exited,
            s.writer_open,
            s.master_open,
            s.buffer.chunks_seq() == Seq::<String>::empty(),
            s.buffer.total() == 0,
            s.events@ == Seq::<EventMark>::empty(),
    {
        PtyHandle {
            id,
            invocation,
            process_id,
            termination: TerminationKind::Finished,
            buffer: RollingBuffer::new(),
            exited: false,
            writer_open: true,
            master_open: true,
            events: Ghost(Seq::empty()),
        }
    }

    /// O(1) check of the completion signal.
    pub fn is_running(&self) -> (r: bool)
        ensures
            r == !self.exited,
    {
        !self.exited
    }

    /// Whether a write may proceed: fails exactly when the writer has
    /// already been torn down.
    pub fn check_write(&self) -> (r: Result<(), PtyError>)
        ensures
            r == if self.writer_open {
                Result::<(), PtyError>::Ok(())
            } else {
                Result::<(), PtyError>::Err(PtyError::WriterClosed)
            },
    {
        if self.writer_open {
            Ok(())
        } else {
            Err(PtyError::WriterClosed)
        }
    }

    /// Whether a resize may proceed: fails exactly when the controlling
    /// handle has already been released.
    pub fn check_resize(&self) -> (r: Result<(), PtyError>)
        ensures
            r == if self.master_open {
                Result::<(), PtyError>::Ok(())
            } else {
                Result::<(), PtyError>::Err(PtyError::MasterClosed)
            },
    {
        if self.master_open {
            Ok(())
        } else {
            Err(PtyError::MasterClosed)
        }
    }

    /// Tears down the writer and the controlling handle, the first step of
    /// teardown after the child exits.
    pub fn close_streams(&mut self)
        ensures
            *final(self) == (PtyHandle { writer_open: false, master_open: false, ..*old(self) }),
    {
        self.writer_open = false;
        self.master_open = false;
    }

    /// Takes one chunk of raw output read from the pty: decodes it
    /// lossily, retains it in the rolling buffer, and records its data
    /// event. Returns the decoded chunk for emission.
    pub fn ingest_chunk(&mut self, bytes: &[u8]) -> (chunk: String)
        requires
            old(self).wf(),
            !old(self).exited,
        ensures
            final(self).wf(),
            chunk@ == lossy_text(bytes@),
            valid_utf8(bytes@) ==> chunk@ == decode_utf8(bytes@),
            final(self).buffer.chunks_seq() == stored(old(self).buffer.chunks_seq(), chunk),
            final(self).events@ == old(self).events@.push(EventMark::Data(chunk@)),
            final(self).id == old(self).id,
            final(self).invocation == old(self).invocation,
            final(self).process_id == old(self).process_id,
            final(self).termination == old(self).termination,
            final(self).exited == old(self).exited,
            final(self).writer_open == old(self).writer_open,
            final(self).master_open == old(self).master_open,
    {
        let chunk = decode_lossy(bytes);
        self.buffer.store_chunk(chunk.clone());
        self.events = Ghost(self.events@.push(EventMark::Data(chunk@)));
        chunk
    }

    /// Seals the session once the child has exited and the reader has
    /// drained: appends the termination banner to the buffer, marks the
    /// session exited, and returns the banner together with the exit
    /// record. The caller emits the banner as the final data event, then
    /// the record as the exit event.
    pub fn finish(
        &mut self,
        exit_code: Option<u32>,
        signal: Option<String>,
        success: bool,
        elapsed_secs: u64,
    ) -> (r: (String, PtyExitEvent))
        requires
            old(self).wf(),
            !old(self).exited,
        ensures
            final(self).wf(),
            final(self).exited,
            r.0@ == banner_text(old(self).termination, elapsed_secs),
            final(self).buffer.chunks_seq() == stored(old(self).buffer.chunks_seq(), r.0),
            final(self).events@ == old(self).events@ + seq![
                EventMark::Data(r.0@),
                EventMark::Exit,
            ],
            r.1@ == (ExitEventModel {
                id: old(self).id@,
                invocation: old(self).invocation@,
                buffer: concat_text(final(self).buffer.chunks_seq()),
                exit_code,
                signal: crate::events::opt_text(signal),
                success,
            }),
            final(self).id == old(self).id,
            final(self).invocation == old(self).invocation,
            final(self).process_id == old(self).process_id,
            final(self).termination == old(self).termination,
            final(self).writer_open == old(self).writer_open,
            final(self).master_open == old(self).master_open,
    {
        let elapsed = format_elapsed(elapsed_secs);
        let mut banner = match self.termination {
            TerminationKind::Finished => "\r\n\n[Process finished after ".to_owned(),
            TerminationKind::Stopped => "\r\n\n[Process stopped after ".to_owned(),
            TerminationKind::Killed => "\r\n\n[Process killed after ".to_owned(),
        };
        banner.append(elapsed.as_str());
        banner.append("]\n\n\r");
        self.buffer.store_chunk(banner.clone());
        self.events = Ghost(
            self.events@ + seq![EventMark::Data(banner@), EventMark::Exit],
        );
        self.exited = true;
        let record = PtyExitEvent {
            id: self.id.clone(),
            invocation: self.invocation.clone(),
            buffer: self.buffer.buffered_output(),
            exit_code,
            signal,
            success,
        };
        (banner, record)
    }

    /// A kill request: on a live session, marks it stopped and asks the
    /// caller to write the interrupt byte; on a finished session, does
    /// nothing at all.
    pub fn kill_requested(&mut self) -> (interrupt: bool)
        requires
            old(self).wf(),
        ensures
            final(self).wf(),
            *final(self) == after_kill_request(*old(self)),
            interrupt == !old(self).exited,
    {
        if self.is_running() {
            self.termination = TerminationKind::Stopped;
            true
        } else {
            false
        }
    }

    /// Escalation after the grace period elapsed without an exit: marks
    /// the session killed and hands back the child's process identifier
    /// so the caller can terminate it unconditionally. Only to be called
    /// right after the grace-period timeout, while the child is confirmed
    /// not to have exited.
    pub fn kill_escalated(&mut self) -> (pid: Option<u32>)
        requires
            old(self).wf(),
            !old(self).exited,
            old(self).termination is Stopped,
        ensures
            final(self).wf(),
            *final(self) == after_kill_escalation(*old(self)),
            pid == old(self).process_id,
    {
        self.termination = TerminationKind::Killed;
        self.process_id
    }
}

/// Exactly-once, last-of-all law: a finished session's trace ends in its
/// single exit mark; every earlier mark is a data mark, kept in the order
/// the chunks were read.
pub proof fn lemma_exit_mark_once_and_last(s: PtyHandle)
    requires
        s.wf(),
        s.exited,
    ensures
        s.events@.len() >= 1,
        s.events@.last() is Exit,
        forall|i: int| 0 <= i < s.events@.len() - 1 ==> s.events@[i] is Data,
        forall|i: int|
            0 <= i < s.events@.len() && s.events@[i] is Exit ==> i == s.events@.len() - 1,
{
}

/// Idempotent-kill law: a kill request on a finished session changes
/// nothing, however often it is repeated.
pub proof fn lemma_kill_idempotent(s: PtyHandle)
    requires
        s.exited,
    ensures
        after_kill_request(s) == s,
        after_kill_request(after_kill_request(s)) == s,
{
}

/// Kill-escalation law: a kill request leaves a live session stopped; if
/// the child outlives the grace period, escalation leaves it killed.
pub proof fn lemma_kill_escalation(s: PtyHandle)
    requires
        !s.exited,
    ensures
        after_kill_request(s).termination is Stopped,
        after_kill_escalation(after_kill_request(s)).termination is Killed,
{
}

} // verus!
