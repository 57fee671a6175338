//! The error taxonomy: timer transition failures and storage-level
//! failures.  Each error renders itself as a message string; callers at
//! the process edge print or forward that.

use vstd::prelude::*;

verus! {

/// Failures of the live timer: a caller asked for a transition the
/// state machine forbids, the shared state's lock was poisoned, or an
/// event could not be delivered.
#[derive(Debug, Clone, PartialEq, Eq)]
pub enum TimerError {
    LockPoisoned,
    InvalidTransition { action: String, current_status: String },
    EventEmitFailed(String),
}

impl TimerError {
    /// The human-readable message of the error; an invalid transition
    /// names the attempted action and the current status.
    pub fn message(&self) -> (r: String)
        ensures
            *self == TimerError::LockPoisoned ==> r@ == "Timer state lock poisoned"@,
            self matches TimerError::InvalidTransition { action, current_status } ==> r@
                == "Invalid timer state transition: cannot "@ + action@ + " when status is "@
                + current_status@,
            self matches TimerError::EventEmitFailed(e) ==> r@ == "Failed to emit event: "@
                + e@,
    {
        match self {
            TimerError::LockPoisoned => String::from_str("Timer state lock poisoned"),
            TimerError::InvalidTransition { action, current_status } => {
                let mut s = String::from_str("Invalid timer state transition: cannot ");
                s.append(action.as_str());
                s.append(" when status is ");
                s.append(current_status.as_str());
                s
            },
            TimerError::EventEmitFailed(e) => {
                let mut s = String::from_str("Failed to emit event: ");
                s.append(e.as_str());
                s
            },
        }
    }
}

/// Failures of the persistence layer: file-system trouble, or stored
/// text that cannot be made sense of.
#[derive(Debug, Clone, PartialEq, Eq)]
pub enum AppError {
    StorageError(String),
    ParseError(String),
    IoError(String),
}

impl AppError {
    /// The human-readable message of the error.
    pub fn message(&self) -> (r: String)
        ensures
            self matches AppError::StorageError(e) ==> r@ == "Storage error: "@ + e@,
            self matches AppError::ParseError(e) ==> r@ == "Parse error: "@ + e@,
            self matches AppError::IoError(e) ==> r@ == "IO error: "@ + e@,
    {
        match self {
            AppError::StorageError(e) => {
                let mut s = String::from_str("Storage error: ");
                s.append(e.as_str());
                s
            },
            AppError::ParseError(e) => {
                let mut s = String::from_str("Parse error: ");
                s.append(e.as_str());
                s
            },
            AppError::IoError(e) => {
                let mut s = String::from_str("IO error: ");
                s.append(e.as_str());
                s
            },
        }
    }
}

} // verus!
