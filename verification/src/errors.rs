//! Error kinds of the collector core.

use vstd::prelude::*;

verus! {

/// An unrecoverable collection failure, surfaced to the embedder.
#[derive(Clone, Copy, PartialEq, Eq, Structural, Debug)]
pub enum GcError {
    /// A copy destination ran out of pages; the embedder's out-of-memory
    /// hook decides what happens next.
    OutOfMemory,
    /// An edge held a value that is not a reference to any object of the
    /// heap; a sanity trace aborts on it.
    InvalidReference,
    /// The work budget of the closure ran out before its queues drained;
    /// never seen on a heap the budget was computed for.
    Incomplete,
}

/// Why an allocation request was refused.
#[derive(Clone, Copy, PartialEq, Eq, Structural, Debug)]
pub enum AllocError {
    /// The requested alignment is not a power of two no larger than a page.
    AlignmentTooLarge,
    /// No space was left even after the permitted collection retries.
    OutOfMemory,
}

} // verus!
