use vstd::prelude::*;
use vstd::string::StringExecFns;

verus! {

/// The failures that the control plane reports to its callers.
#[derive(Clone, Copy, Debug, PartialEq, Eq, Structural)]
pub enum Error {
    /// A location, an active connection or a log watcher that was asked for is absent.
    NotFound,
    /// The interface daemon could not be reached or refused the request.
    InternalError,
    /// A timestamp could not be read.
    Datetime,
    /// The storage layer failed.
    Database,
    /// A lock was poisoned by a task that panicked while holding it.
    MutexError,
    /// The location already has a live tunnel.
    Conflict,
}

impl Error {
    /// What the user is told of a failure.
    pub open spec fn text(self) -> Seq<char> {
        match self {
            Error::NotFound => "Object not found"@,
            Error::InternalError => "Internal error"@,
            Error::Datetime => "Failed to parse timestamp"@,
            Error::Database => "Database error"@,
            Error::MutexError => "Failed to lock app state member"@,
            Error::Conflict => "Location is already connected"@,
        }
    }

    /// The message that tells the user of the failure.
    pub fn message(&self) -> (message: String)
        ensures
            message@ == self.text(),
    {
        match self {
            Error::NotFound => String::from_str("Object not found"),
            Error::InternalError => String::from_str("Internal error"),
            Error::Datetime => String::from_str("Failed to parse timestamp"),
            Error::Database => String::from_str("Database error"),
            Error::MutexError => String::from_str("Failed to lock app state member"),
            Error::Conflict => String::from_str("Location is already connected"),
        }
    }
}

} // verus!
