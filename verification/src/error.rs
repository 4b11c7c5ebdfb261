//! The kinds of failure that end a run.

use vstd::prelude::*;

verus! {

/// What failed. Every failure is fatal: nothing is tried again.
#[derive(Clone, Copy, Debug, PartialEq, Eq, Structural)]
pub enum ErrorKind {
    /// An input stream could not be read.
    SourceIo,
    /// A staged file could not be written or flushed.
    StagingIo,
    /// The plotting command could not be started, or it did not exit with
    /// success.
    Invocation,
    /// A staged file could not be deleted.
    CleanupIo,
    /// The configuration is not one that a run can start from.
    Configuration,
}

} // verus!
