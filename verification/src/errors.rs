//! Error kinds of the core and their structured wire form.
//!
//! Every fallible operation of the core reports one of these kinds; the
//! service layer turns a kind into a `{code, message}` pair and never
//! lets a raw failure escape to a caller.

use vstd::prelude::*;

verus! {

/// The ways an operation on the core can fail.
#[derive(Clone, Copy, Debug, PartialEq, Eq, Structural)]
pub enum ErrorKind {
    /// An unknown session, breakpoint, thread, or frame id.
    NotFound,
    /// An attach asked for a session id that is already in use.
    AlreadyExists,
    /// A breakpoint target could not be resolved or instrumented.
    InvalidLocation,
    /// An optional session id was omitted while no session is active.
    NoActiveSession,
    /// A frame, step, or variable operation against a running thread.
    ThreadNotSuspended,
    /// An attach exceeded its deadline.
    Timeout,
    /// The runtime could not complete a requested step.
    StepFailed,
    /// The connection to the runtime bridge is gone for this session.
    BridgeUnavailable,
}

/// A structured error as reported over the wire: a stable code plus a
/// human-readable message.
pub struct ErrorInfo {
    pub code: String,
    pub message: String,
}

/// The wire code of each error kind, as a sequence of characters.
pub open spec fn error_code_view(kind: ErrorKind) -> Seq<char> {
    match kind {
        ErrorKind::NotFound => "NOT_FOUND"@,
        ErrorKind::AlreadyExists => "ALREADY_EXISTS"@,
        ErrorKind::InvalidLocation => "INVALID_LOCATION"@,
        ErrorKind::NoActiveSession => "NO_ACTIVE_SESSION"@,
        ErrorKind::ThreadNotSuspended => "THREAD_NOT_SUSPENDED"@,
        ErrorKind::Timeout => "TIMEOUT"@,
        ErrorKind::StepFailed => "STEP_FAILED"@,
        ErrorKind::BridgeUnavailable => "BRIDGE_UNAVAILABLE"@,
    }
}

/// The default message of each error kind, as a sequence of characters.
pub open spec fn error_message_view(kind: ErrorKind) -> Seq<char> {
    match kind {
        ErrorKind::NotFound => "no such session, breakpoint, thread, or frame"@,
        ErrorKind::AlreadyExists => "session id already in use"@,
        ErrorKind::InvalidLocation => "breakpoint location cannot be resolved"@,
        ErrorKind::NoActiveSession => "no session id given and no session is active"@,
        ErrorKind::ThreadNotSuspended => "thread is not suspended"@,
        ErrorKind::Timeout => "operation timed out"@,
        ErrorKind::StepFailed => "the runtime could not complete the step"@,
        ErrorKind::BridgeUnavailable => "runtime bridge connection lost"@,
    }
}

/// The stable wire code of an error kind.
pub fn error_code(kind: ErrorKind) -> (code: String)
    ensures
        code@ == error_code_view(kind),
{
    match kind {
        ErrorKind::NotFound => "NOT_FOUND".to_owned(),
        ErrorKind::AlreadyExists => "ALREADY_EXISTS".to_owned(),
        ErrorKind::InvalidLocation => "INVALID_LOCATION".to_owned(),
        ErrorKind::NoActiveSession => "NO_ACTIVE_SESSION".to_owned(),
        ErrorKind::ThreadNotSuspended => "THREAD_NOT_SUSPENDED".to_owned(),
        ErrorKind::Timeout => "TIMEOUT".to_owned(),
        ErrorKind::StepFailed => "STEP_FAILED".to_owned(),
        ErrorKind::BridgeUnavailable => "BRIDGE_UNAVAILABLE".to_owned(),
    }
}

/// A default message for an error kind, used when an operation has no
/// more specific wording.
pub fn error_message(kind: ErrorKind) -> (msg: String)
    ensures
        msg@ == error_message_view(kind),
{
    match kind {
        ErrorKind::NotFound => "no such session, breakpoint, thread, or frame".to_owned(),
        ErrorKind::AlreadyExists => "session id already in use".to_owned(),
        ErrorKind::InvalidLocation => "breakpoint location cannot be resolved".to_owned(),
        ErrorKind::NoActiveSession => "no session id given and no session is active".to_owned(),
        ErrorKind::ThreadNotSuspended => "thread is not suspended".to_owned(),
        ErrorKind::Timeout => "operation timed out".to_owned(),
        ErrorKind::StepFailed => "the runtime could not complete the step".to_owned(),
        ErrorKind::BridgeUnavailable => "runtime bridge connection lost".to_owned(),
    }
}

/// The structured wire form of an error kind: its code and its default
/// message.
pub fn error_info(kind: ErrorKind) -> (info: ErrorInfo)
    ensures
        info.code@ == error_code_view(kind),
        info.message@ == error_message_view(kind),
{
    ErrorInfo { code: error_code(kind), message: error_message(kind) }
}

/// What a mutating call reports back over the wire: a success flag,
/// plus the structured error exactly when it failed.
pub struct StatusResponse {
    pub success: bool,
    pub error: Option<ErrorInfo>,
}

/// Wrap an operation outcome for the wire: success carries no error;
/// failure carries the failed kind's code and message, and never a
/// raw failure.
pub fn status_response(outcome: Result<(), ErrorKind>) -> (r: StatusResponse)
    ensures
        r.success <==> outcome.is_ok(),
        outcome matches Err(k) ==> (r.error matches Some(info) && info.code@ == error_code_view(k)
            && info.message@ == error_message_view(k)),
        outcome.is_ok() ==> r.error.is_none(),
{
    match outcome {
        Ok(()) => StatusResponse { success: true, error: None },
        Err(k) => StatusResponse { success: false, error: Some(error_info(k)) },
    }
}

} // verus!
