//! Plan basics shared by every composition of spaces: the allocation
//! semantics, the allocator selectors, and the base bookkeeping every plan
//! carries.

use vstd::prelude::*;

verus! {

/// The closed enumeration of allocation semantics a runtime may request.
/// Unknown semantics collapse to `Default`.
#[derive(Clone, Copy, PartialEq, Eq, Structural, Debug)]
pub enum AllocationSemantics {
    Default,
    Immortal,
    LargeObject,
    Code,
    ReadOnly,
}

/// Which allocator a plan routes a semantic to; the payload selects the
/// allocator instance.
#[derive(Clone, Copy, PartialEq, Eq, Structural, Debug)]
pub enum AllocatorSelector {
    BumpPointer(u8),
    LargeObject(u8),
}

/// Bookkeeping shared by every plan.
#[derive(Clone, Copy, PartialEq, Eq, Structural, Debug)]
pub struct BasePlan {
    /// Heap budget in pages, fixed at initialization.
    pub total_pages: usize,
    /// Has `gc_init` run?
    pub initialized: bool,
    /// May collections run yet (the VM has finished booting)?
    pub collection_enabled: bool,
    /// Is a collection in flight right now?
    pub gc_in_progress: bool,
    /// Completed collections.
    pub gc_count: usize,
    /// User collection requests answered by an already in-flight collection.
    pub coalesced_requests: usize,
}

impl BasePlan {
    /// A fresh, uninitialized base.
    pub fn new() -> (r: BasePlan)
        ensures
            r.total_pages == 0,
            !r.initialized,
            !r.collection_enabled,
            !r.gc_in_progress,
            r.gc_count == 0,
            r.coalesced_requests == 0,
    {
        BasePlan {
            total_pages: 0,
            initialized: false,
            collection_enabled: false,
            gc_in_progress: false,
            gc_count: 0,
            coalesced_requests: 0,
        }
    }
}

} // verus!
