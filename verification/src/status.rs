//! The status that a run of the server reports to its host.

use vstd::prelude::*;

verus! {

/// How a run of the server ended.
#[derive(Clone, Copy, Debug, PartialEq, Eq, Structural)]
pub enum RustError {
    /// The server ran and shut down in good order.
    Success,
    /// The runtime could not be started, or the server failed.
    Error,
    /// The store could not be brought up to date before the start.
    MigrationError,
}

impl RustError {
    /// The number by which a host knows the status.
    pub open spec fn code_of(self) -> int {
        match self {
            RustError::Success => 0,
            RustError::Error => 1,
            RustError::MigrationError => 2,
        }
    }

    /// The status of a run, from how far it came.
    pub open spec fn outcome(started: bool, migrated: bool, served: bool) -> RustError {
        if !started {
            RustError::Error
        } else if !migrated {
            RustError::MigrationError
        } else if served {
            RustError::Success
        } else {
            RustError::Error
        }
    }

    /// The number by which a host knows the status: 0, 1 or 2.
    pub fn code(self) -> (code: i32)
        ensures
            code == self.code_of(),
    {
        match self {
            RustError::Success => 0,
            RustError::Error => 1,
            RustError::MigrationError => 2,
        }
    }

    /// The status of a run: `Error` where the runtime did not start,
    /// `MigrationError` where the migrations failed, and else `Success` or `Error`
    /// as the server ended.
    pub fn of_run(started: bool, migrated: bool, served: bool) -> (status: RustError)
        ensures
            status == RustError::outcome(started, migrated, served),
    {
        if !started {
            RustError::Error
        } else if !migrated {
            RustError::MigrationError
        } else if served {
            RustError::Success
        } else {
            RustError::Error
        }
    }
}

} // verus!
