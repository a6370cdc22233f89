//! Events a session emits towards the client, tagged with the session id.

use crate::invocation::InvocationModel;
use crate::invocation::PtyInvocation;
use vstd::prelude::*;

verus! {

/// Emitted once, before any data event, when a session starts.
pub struct PtyStartEvent {
    pub id: String,
    pub invocation: PtyInvocation,
}

/// One chunk of session output, lossily decoded to text.
pub struct PtyDataEvent {
    pub id: String,
    pub data: String,
}

/// Immutable snapshot taken once per session at termination.
pub struct PtyExitEvent {
    pub id: String,
    pub invocation: PtyInvocation,
    pub buffer: String,
    pub exit_code: Option<u32>,
    pub signal: Option<String>,
    pub success: bool,
}

/// Mathematical image of a [`PtyStartEvent`].
#[verifier::ext_equal]
pub struct StartEventModel {
    pub id: Seq<char>,
    pub invocation: InvocationModel,
}

/// Mathematical image of a [`PtyDataEvent`].
#[verifier::ext_equal]
pub struct DataEventModel {
    pub id: Seq<char>,
    pub data: Seq<char>,
}

/// Mathematical image of a [`PtyExitEvent`].
#[verifier::ext_equal]
pub struct ExitEventModel {
    pub id: Seq<char>,
    pub invocation: InvocationModel,
    pub buffer: Seq<char>,
    pub exit_code: Option<u32>,
    pub signal: Option<Seq<char>>,
    pub success: bool,
}

/// View of an optional string as an optional character sequence.
pub open spec fn opt_text(o: Option<String>) -> Option<Seq<char>> {
    match o {
        Some(s) => Some(s@),
        None => None,
    }
}

impl View for PtyStartEvent {
    type V = StartEventModel;

    open spec fn view(&self) -> StartEventModel {
        StartEventModel { id: self.id@, invocation: self.invocation@ }
    }
}

impl View for PtyDataEvent {
    type V = DataEventModel;

    open spec fn view(&self) -> DataEventModel {
        DataEventModel { id: self.id@, data: self.data@ }
    }
}

impl View for PtyExitEvent {
    type V = ExitEventModel;

    open spec fn view(&self) -> ExitEventModel {
        ExitEventModel {
            id: self.id@,
            invocation: self.invocation@,
            buffer: self.buffer@,
            exit_code: self.exit_code,
            signal: opt_text(self.signal),
            success: self.success,
        }
    }
}

impl Clone for PtyStartEvent {
    fn clone(&self) -> (r: Self)
        ensures
            r@ == self@,
    {
        PtyStartEvent { id: self.id.clone(), invocation: self.invocation.clone() }
    }
}

impl Clone for PtyDataEvent {
    fn clone(&self) -> (r: Self)
        ensures
            r@ == self@,
    {
        PtyDataEvent { id: self.id.clone(), data: self.data.clone() }
    }
}

impl Clone for PtyExitEvent {
    fn clone(&self) -> (r: Self)
        ensures
            r@ == self@,
    {
        PtyExitEvent {
            id: self.id.clone(),
            invocation: self.invocation.clone(),
            buffer: self.buffer.clone(),
            exit_code: self.exit_code,
            signal: match &self.signal {
                Some(s) => Some(s.clone()),
                None => None,
            },
            success: self.success,
        }
    }
}

} // verus!
