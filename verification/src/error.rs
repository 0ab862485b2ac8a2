//! Typed failures surfaced by the queue engine.

use vstd::prelude::*;

verus! {

broadcast use vstd::string::group_string_axioms;

/// The kinds of failure the queue engine can report to a caller.
#[derive(Debug, Clone, Copy, PartialEq, Eq, Structural)]
pub enum AppErrorType {
    /// A tenant, queue or track was absent.
    NotFound,
    /// Pause, resume or skip was asked of a queue with no current track.
    NotPlaying,
    /// A reorder index lay outside the queue.
    IndexOutOfRange,
    /// The external resolver could not supply a playable source.
    SourceUnavailable,
    /// The external transport failed.
    SessionError,
}

/// A typed failure, optionally carrying a cause and a caller-facing message.
#[derive(Debug, Clone, PartialEq, Eq)]
pub struct AppError {
    pub cause: Option<String>,
    pub message: Option<String>,
    pub error_type: AppErrorType,
}

impl AppError {
    /// The text `message` returns: the explicit message when one was set,
    /// otherwise a fixed text chosen by the error kind.
    pub open spec fn spec_message(self) -> Seq<char> {
        match self.message {
            Some(m) => m@,
            None => match self.error_type {
                AppErrorType::NotFound => "The requested item was not found"@,
                _ => "An unexpected error has occured"@,
            },
        }
    }

    /// A caller-facing description of the error.
    pub fn message(&self) -> (r: String)
        ensures
            r@ == self.spec_message(),
    {
        match &self.message {
            Some(message) => message.clone(),
            None => match self.error_type {
                AppErrorType::NotFound => "The requested item was not found".to_string(),
                _ => "An unexpected error has occured".to_string(),
            },
        }
    }

    /// An error of the given kind with no cause and no explicit message.
    pub fn of_type(error_type: AppErrorType) -> (r: Self)
        ensures
            r == (AppError { cause: None, message: None, error_type }),
    {
        AppError { cause: None, message: None, error_type }
    }

    /// The failure reported when a tenant, queue or track is absent.
    pub fn not_found() -> (r: Self)
        ensures
            r == (AppError { cause: None, message: None, error_type: AppErrorType::NotFound }),
    {
        AppError { cause: None, message: None, error_type: AppErrorType::NotFound }
    }
}

} // verus!
