//! The ways a run fails.

use vstd::prelude::*;

verus! {

/// Why a run stopped before its end.
#[derive(Clone, Copy, Debug, PartialEq, Eq, Structural)]
pub enum RunError {
    /// A request could not be completed: no address, no connection, no
    /// secure channel, or a transport that broke.
    NetworkError,
    /// The local file could not be created, written or opened.
    IOError,
    /// The catalog text is no JSON, or not of the catalog's shape.
    ParseError,
}

/// What went wrong outside, as the caller of a run tells it.
#[derive(Clone, Copy, Debug, PartialEq, Eq, Structural)]
pub enum Fault {
    /// A request got no answer, or its answer broke off.
    Request,
    /// The local file could not be created, written, opened or read.
    File,
}

impl Fault {
    /// The error that a fault stops a run with.
    pub open spec fn error_of(self) -> RunError {
        match self {
            Fault::Request => RunError::NetworkError,
            Fault::File => RunError::IOError,
        }
    }

    /// The error that this fault stops a run with: a request that failed is
    /// a `NetworkError`, a file that failed an `IOError`.
    pub fn error(self) -> (error: RunError)
        ensures
            error == self.error_of(),
    {
        match self {
            Fault::Request => RunError::NetworkError,
            Fault::File => RunError::IOError,
        }
    }
}

} // verus!
