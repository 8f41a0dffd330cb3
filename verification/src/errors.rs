//! The failure kinds of the note store and of the digest generator.

use vstd::prelude::*;

verus! {

/// Everything a store or digest operation can report instead of succeeding.
#[derive(Clone, Copy, Debug, PartialEq, Eq, Structural)]
pub enum StoreError {
    /// The configured notes root is absent or is not a directory.
    NotADirectory,
    /// The target path of the operation is absent.
    NotFound,
    /// A read, write or metadata step failed.
    IoError,
    /// The summarization backend is unreachable or rejected the request.
    Unavailable,
    /// The digest schedule condition is not met; expected, not exceptional.
    NotDueToday,
}

/// What each error reads as when reported to a person.
pub open spec fn spec_message(e: StoreError) -> Seq<char> {
    match e {
        StoreError::NotADirectory => "the configured notes path is not a directory"@,
        StoreError::NotFound => "the target path does not exist"@,
        StoreError::IoError => "a filesystem operation failed"@,
        StoreError::Unavailable => "the summarization backend is unavailable"@,
        StoreError::NotDueToday => "no digest is due today"@,
    }
}

impl StoreError {
    /// A human-readable description of the failure.
    pub fn message(&self) -> (r: &'static str)
        ensures
            r@ == spec_message(*self),
    {
        match self {
            StoreError::NotADirectory => "the configured notes path is not a directory",
            StoreError::NotFound => "the target path does not exist",
            StoreError::IoError => "a filesystem operation failed",
            StoreError::Unavailable => "the summarization backend is unavailable",
            StoreError::NotDueToday => "no digest is due today",
        }
    }
}

} // verus!
