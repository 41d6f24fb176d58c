use vstd::prelude::*;

verus! {

/// Why an operation on a timesheet or a session was refused.
///
/// Two severities exist. Most variants are recoverable: the operation
/// reports the refusal, leaves all state unchanged, and the caller may retry
/// with corrected input. `FatalTimestamp` is the fatal kind: an explicit
/// timestamp handed to session creation or finalization was not strictly
/// after everything already recorded. Callers are expected to stop the
/// interaction on a fatal error rather than retry.
#[derive(Clone, Copy, Debug, PartialEq, Eq, Structural)]
pub enum OpError {
    /// The session is already finalized and accepts no further events.
    NotRunning,
    /// An event timestamp was not strictly after the last event
    /// (or the session start), or too large to extend the session span.
    InvalidTimestamp,
    /// A pause was requested while a pause is already open.
    AlreadyPaused,
    /// A resume was requested while no pause is open.
    NotPaused,
    /// A new session was requested while the last one is still running.
    LastSessionRunning,
    /// The timesheet holds no session for the operation to act on.
    NoSession,
    /// Fatal: an invalid timestamp was handed to session creation or
    /// finalization.
    FatalTimestamp,
}

impl OpError {
    /// True for the errors on which the interaction should end rather than
    /// be retried.
    pub fn is_fatal(&self) -> (r: bool)
        ensures
            r == (*self is FatalTimestamp),
    {
        match self {
            OpError::FatalTimestamp => true,
            _ => false,
        }
    }
}

} // verus!
