//! Failures that the host reports.

use vstd::prelude::*;

verus! {

/// What kind of failure happened.
#[derive(Clone, Copy, Debug, PartialEq, Eq, Structural)]
pub enum ErrorKind {
    /// Input that breaks a rule.
    InvalidData,
    /// Something did not happen in time.
    TimedOut,
    /// A stream ended too early.
    UnexpectedEof,
    /// Anything else.
    Other,
}

/// A failure with its message.
#[derive(Clone, Debug)]
pub struct HostError {
    pub kind: ErrorKind,
    pub message: String,
}

impl HostError {
    /// A failure of the given kind with the given message.
    pub fn new(kind: ErrorKind, message: String) -> (error: HostError)
        ensures
            error.kind == kind,
            error.message == message,
    {
        HostError { kind, message }
    }
}

} // verus!
