//! Errors that the hosted process plumbing reports to its callers.
use vstd::prelude::*;

verus! {

/// The kernel-facing errors that hosted process management produces.
#[derive(Copy, Clone, Debug, PartialEq, Eq, Structural)]
pub enum Error {
    /// Something went wrong on this side of the link (for instance a
    /// child process could not be started or waited for).
    InternalError,
    /// The operation finished, but not successfully (for instance a
    /// child process exited with a failure status).
    UnknownError,
}

} // verus!
