//! The ways a benchmark run can fail. Every one of them ends the run.

use vstd::prelude::*;

verus! {

/// Why a memory pool could not be created.
#[derive(Clone, Copy, Debug, PartialEq, Eq, Structural)]
pub enum AllocationError {
    /// The requested length is not a positive whole number of pages. Found
    /// before the system is asked for anything.
    InvalidSize,
    /// The system could not map the request onto huge pages, commonly because
    /// none are reserved.
    HugePageUnavailable,
    /// The aligned allocator did not deliver page-aligned memory of the
    /// requested length.
    AllocationFailed,
}

/// Why the target could not be made ready for writing.
#[derive(Clone, Copy, Debug, PartialEq, Eq, Structural)]
pub enum OpenError {
    /// The target could not be opened or created.
    Open,
    /// The target was opened but the starting offset could not be reached.
    Seek,
}

/// Why a write ended the run.
#[derive(Clone, Copy, Debug, PartialEq, Eq, Structural)]
pub enum WriteError {
    /// The write of block number `iteration` (counted from zero) failed.
    Failed { iteration: usize },
    /// The write of block number `iteration` moved `written` bytes, not the
    /// whole block.
    Partial { iteration: usize, written: usize },
}

/// Any failure of a run, by the stage it came from.
#[derive(Clone, Copy, Debug, PartialEq, Eq, Structural)]
pub enum RunError {
    Allocation(AllocationError),
    Open(OpenError),
    Write(WriteError),
}

} // verus!
