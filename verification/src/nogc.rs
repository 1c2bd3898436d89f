//! The no-op reference plan: an immortal space, a large-object space and a
//! VM-reserved immortal space.  Allocation never triggers collection and no
//! object ever moves or dies.

use crate::immortalspace::ImmortalSpace;
use crate::largeobjectspace::LargeObjectSpace;
use crate::layout::{
    bytes_to_pages, Address, ObjectReference, BYTES_IN_PAGE, HEAP_END, HEAP_START,
};
use crate::plan::{AllocationSemantics, AllocatorSelector, BasePlan};
use vstd::prelude::*;

verus! {

/// Pages set aside for the VM-reserved space, outside the heap budget.
pub const VM_SPACE_EXTENT: usize = 0x10_0000;

/// The spaces of the no-op plan.
#[derive(Clone, Copy, Debug)]
pub struct NoGCUnsync {
    /// Runtime metadata the VM itself installs.
    pub vm_space: ImmortalSpace,
    /// Where ordinary allocation lands.
    pub space: ImmortalSpace,
    /// Large objects.
    pub los: LargeObjectSpace,
}

/// The no-op plan.
#[derive(Clone, Copy, Debug)]
pub struct NoGC {
    pub unsync: NoGCUnsync,
    pub common: BasePlan,
}

impl NoGC {
    /// Spaces well formed, laid out one after the other inside the heap
    /// range, and the heap budget equal to the two heap spaces' capacity.
    pub open spec fn wf(self) -> bool {
        &&& self.unsync.vm_space.wf()
        &&& self.unsync.space.wf()
        &&& self.unsync.los.wf()
        &&& self.unsync.vm_space.common.start == HEAP_START
        &&& self.unsync.vm_space.common.extent == VM_SPACE_EXTENT
        &&& self.unsync.vm_space.common.start + self.unsync.vm_space.common.extent
            <= self.unsync.space.common.start
        &&& self.unsync.space.common.start + self.unsync.space.common.extent
            <= self.unsync.los.common.start
        &&& self.common.initialized ==> self.common.total_pages == self.unsync.space.common.pr.total
            + self.unsync.los.common.pr.total
    }

    /// An empty plan; `gc_init` lays the spaces out.
    pub fn new() -> (r: NoGC)
        ensures
            r.wf(),
            !r.common.initialized,
            r.common.gc_count == 0,
            !r.common.gc_in_progress,
            !r.common.collection_enabled,
            r.unsync.vm_space.common.name == "vm_space",
            r.unsync.space.common.name == "nogc_space",
            r.unsync.los.common.name == "los",
            r.unsync.vm_space.common.cursor == 0,
            r.unsync.space.common.cursor == 0,
            r.unsync.los.common.cursor == 0,
            r.unsync.vm_space.common.pr.committed == 0,
            r.unsync.space.common.pr.committed == 0,
            r.unsync.los.common.pr.committed == 0,
            r.spec_pages_used() == 0,
    {
        NoGC {
            unsync: NoGCUnsync {
                vm_space: ImmortalSpace::new("vm_space", true, HEAP_START, VM_SPACE_EXTENT),
                space: ImmortalSpace::new(
                    "nogc_space",
                    true,
                    HEAP_START + VM_SPACE_EXTENT,
                    0,
                ),
                los: LargeObjectSpace::new("los", true, HEAP_START + VM_SPACE_EXTENT, 0),
            },
            common: BasePlan::new(),
        }
    }

    /// Lay the spaces out for a heap of `heap_size` bytes: the immortal
    /// space takes half the budget (rounded down to pages), the large-object
    /// space the rest.
    pub fn gc_init(&mut self, heap_size: usize)
        requires
            old(self).wf(),
            !old(self).common.initialized,
            heap_size as int % (BYTES_IN_PAGE as int) == 0,
            2 * BYTES_IN_PAGE <= heap_size,
            HEAP_START + VM_SPACE_EXTENT + heap_size <= HEAP_END,
        ensures
            final(self).wf(),
            final(self).common.initialized,
            final(self).common.gc_count == old(self).common.gc_count,
            final(self).common.total_pages == spec_bytes_to_pages_total(heap_size),
            final(self).unsync.space.common.cursor == 0,
            final(self).unsync.los.common.cursor == 0,
            final(self).spec_pages_used() == 0,
            final(self).common.total_pages * BYTES_IN_PAGE <= heap_size,
    {
        let half = heap_size / 2;
        let space_extent = half - (half % BYTES_IN_PAGE);
        let los_extent = heap_size - space_extent;
        proof {
            let p = BYTES_IN_PAGE as int;
            vstd::arithmetic::div_mod::lemma_mod_bound(half as int, p);
            assert(space_extent as int % p == 0) by {
                vstd::arithmetic::div_mod::lemma_fundamental_div_mod(half as int, p);
                vstd::arithmetic::div_mod::lemma_mod_multiples_basic(half as int / p, p);
                vstd::arithmetic::mul::lemma_mul_is_commutative(half as int / p, p);
            };
            assert(los_extent as int % p == 0) by {
                vstd::arithmetic::div_mod::lemma_fundamental_div_mod(heap_size as int, p);
                vstd::arithmetic::div_mod::lemma_fundamental_div_mod(space_extent as int, p);
                let qa = heap_size as int / p;
                let qb = space_extent as int / p;
                assert(los_extent == p * (qa - qb)) by {
                    vstd::arithmetic::mul::lemma_mul_is_distributive_sub(p, qa, qb);
                };
                vstd::arithmetic::div_mod::lemma_mod_multiples_basic(qa - qb, p);
                vstd::arithmetic::mul::lemma_mul_is_commutative(qa - qb, p);
            };
        }
        let space_start = HEAP_START + VM_SPACE_EXTENT;
        let los_start = space_start + space_extent;
        self.unsync.space = ImmortalSpace::new("nogc_space", true, space_start, space_extent);
        self.unsync.los = LargeObjectSpace::new("los", true, los_start, los_extent);
        self.common.total_pages = bytes_to_pages(space_extent) + bytes_to_pages(los_extent);
        self.common.initialized = true;
        proof {
            crate::layout::lemma_aligned_extent_pages(space_extent);
            crate::layout::lemma_aligned_extent_pages(los_extent);
        }
    }

    /// Every object of the table lies wholly below its housing space's
    /// cursor, whichever of the plan's spaces that is.
    pub open spec fn all_bounded(self, heap: crate::object_model::ObjectTable) -> bool {
        &&& crate::copyspace::objects_bounded(heap, self.unsync.vm_space.common)
        &&& crate::copyspace::objects_bounded(heap, self.unsync.space.common)
        &&& crate::copyspace::objects_bounded(heap, self.unsync.los.common)
    }

    /// The heap budget in pages for a `heap_size`-byte heap, as `gc_init`
    /// computes it.
    pub open spec fn spec_total_pages_of(self) -> int {
        self.unsync.space.common.pr.total + self.unsync.los.common.pr.total
    }

    /// Pages currently counted against the budget.
    pub open spec fn spec_pages_used(self) -> int {
        self.unsync.space.common.pr.spec_reserved() + self.unsync.los.common.pr.spec_reserved()
    }

    pub fn get_pages_used(&self) -> (r: usize)
        requires
            self.wf(),
        ensures
            r == self.spec_pages_used(),
    {
        self.unsync.space.common.reserved_pages() + self.unsync.los.common.reserved_pages()
    }

    pub fn get_total_pages(&self) -> (r: usize)
        ensures
            r == self.common.total_pages,
    {
        self.common.total_pages
    }

    /// No object of the no-op plan ever moves.
    pub fn will_never_move(&self, object: ObjectReference) -> (r: bool)
        ensures
            r,
    {
        true
    }

    /// The no-op plan has no collection work in any phase.
    pub fn collection_phase(&self) {
    }

    /// Is the reference inside one of the plan's spaces?
    pub fn is_valid_ref(&self, object: ObjectReference) -> (r: bool)
        ensures
            r == (self.unsync.space.spec_in_space(object.0) || self.unsync.vm_space.spec_in_space(
                object.0,
            ) || self.unsync.los.spec_in_space(object.0)),
    {
        if self.unsync.space.in_space(object) {
            return true;
        }
        if self.unsync.vm_space.in_space(object) {
            return true;
        }
        if self.unsync.los.in_space(object) {
            return true;
        }
        false
    }

    /// No reference is ever bad under the no-op plan.
    pub fn is_bad_ref(&self, object: ObjectReference) -> (r: bool)
        ensures
            !r,
    {
        false
    }

    /// An address is mapped when a space's committed pages cover it.
    pub fn is_mapped_address(&self, address: Address) -> (r: bool)
        requires
            self.wf(),
        ensures
            r == (space_maps(self.unsync.space.common, address.0) || space_maps(
                self.unsync.vm_space.common,
                address.0,
            ) || space_maps_los(self.unsync.los.common, address.0)),
    {
        common_maps_address(&self.unsync.space.common, address.0) || common_maps_address(
            &self.unsync.vm_space.common,
            address.0,
        ) || common_maps_address(&self.unsync.los.common, address.0)
    }

    /// Whether the object could move: under the no-op plan, objects of
    /// every known space stay put.
    pub fn is_movable(&self, object: ObjectReference) -> (r: bool)
        ensures
            r == (!self.unsync.space.spec_in_space(object.0) && !self.unsync.vm_space.spec_in_space(
                object.0,
            ) && !self.unsync.los.spec_in_space(object.0)),
    {
        if self.unsync.space.in_space(object) {
            return self.unsync.space.is_movable();
        }
        if self.unsync.vm_space.in_space(object) {
            return self.unsync.vm_space.is_movable();
        }
        if self.unsync.los.in_space(object) {
            return self.unsync.los.is_movable();
        }
        true
    }

    pub fn get_immortal_space(&self) -> (r: &ImmortalSpace)
        ensures
            *r == self.unsync.space,
    {
        &self.unsync.space
    }

    pub fn get_los(&self) -> (r: &LargeObjectSpace)
        ensures
            *r == self.unsync.los,
    {
        &self.unsync.los
    }

    /// The allocator each semantic routes to under this plan.
    pub fn get_allocator_mapping(&self, semantics: AllocationSemantics) -> (r: AllocatorSelector)
        ensures
            r == (match semantics {
                AllocationSemantics::LargeObject => AllocatorSelector::LargeObject(0u8),
                _ => AllocatorSelector::BumpPointer(0u8),
            }),
    {
        match semantics {
            AllocationSemantics::LargeObject => AllocatorSelector::LargeObject(0),
            _ => AllocatorSelector::BumpPointer(0),
        }
    }
}

/// A space's committed pages cover `addr`.
pub open spec fn space_maps(cs: crate::space::CommonSpace, addr: usize) -> bool {
    cs.start <= addr && (addr - cs.start) < cs.pr.committed * BYTES_IN_PAGE
}

/// Same predicate; the large-object space maps addresses the same way.
pub open spec fn space_maps_los(cs: crate::space::CommonSpace, addr: usize) -> bool {
    space_maps(cs, addr)
}

/// The pages a `gc_init` budget of `heap_size` bytes yields.
pub open spec fn spec_bytes_to_pages_total(heap_size: usize) -> int {
    let half = heap_size as int / 2;
    let space_extent = half - (half % (BYTES_IN_PAGE as int));
    let los_extent = heap_size - space_extent;
    crate::layout::spec_bytes_to_pages(space_extent as usize) + crate::layout::spec_bytes_to_pages(
        los_extent as usize,
    )
}

/// Runtime check of `space_maps`.
pub fn common_maps_address(cs: &crate::space::CommonSpace, addr: usize) -> (r: bool)
    requires
        cs.wf(),
    ensures
        r == space_maps(*cs, addr),
{
    cs.start <= addr && (addr - cs.start) < cs.pr.committed * BYTES_IN_PAGE
}



/// The whole effect of one successful allocation of `size` bytes at `a`
/// under the no-op plan: the routed space's cursor and page accounts
/// advance exactly, and every other part of the plan is untouched.
pub open spec fn spec_alloc_effect(
    pre: NoGC,
    post: NoGC,
    a: usize,
    size: usize,
    align: usize,
    offset: usize,
    semantics: AllocationSemantics,
) -> bool {
    let route = pre.spec_alloc_common(semantics);
    &&& post.common == pre.common
    &&& post.unsync.vm_space == pre.unsync.vm_space
    &&& a == crate::layout::spec_align_up((route.start + route.cursor) as usize, align, offset)
    &&& (a + offset) % (align as int) == 0
    &&& route.spec_in_range(a)
    &&& a + size <= route.start + route.extent
    &&& (match semantics {
        AllocationSemantics::LargeObject => {
            &&& post.unsync.space == pre.unsync.space
            &&& post.unsync.los.mark_state == pre.unsync.los.mark_state
            &&& crate::space::common_bumped(route, post.unsync.los.common, a, size)
        },
        _ => {
            &&& post.unsync.los == pre.unsync.los
            &&& post.unsync.space.mark_state == pre.unsync.space.mark_state
            &&& crate::space::common_bumped(route, post.unsync.space.common, a, size)
        },
    })
}

impl NoGC {
    /// The space an allocation semantic routes to under the no-op plan.
    pub open spec fn spec_alloc_common(self, semantics: AllocationSemantics) -> crate::space::CommonSpace {
        match semantics {
            AllocationSemantics::LargeObject => self.unsync.los.common,
            _ => self.unsync.space.common,
        }
    }

    /// Bump-allocate in the space the semantic routes to; allocation under
    /// the no-op plan never triggers a collection.
    pub fn alloc_in(&mut self, size: usize, align: usize, offset: usize, semantics: AllocationSemantics) -> (r: Option<usize>)
        requires
            old(self).wf(),
            crate::layout::spec_align_legal(align),
            offset < BYTES_IN_PAGE,
            1 <= size,
        ensures
            final(self).wf(),
            final(self).common == old(self).common,
            final(self).unsync.vm_space == old(self).unsync.vm_space,
            final(self).unsync.space.common.start == old(self).unsync.space.common.start,
            final(self).unsync.space.common.extent == old(self).unsync.space.common.extent,
            final(self).unsync.space.common.cursor >= old(self).unsync.space.common.cursor,
            final(self).unsync.space.mark_state == old(self).unsync.space.mark_state,
            final(self).unsync.los.common.start == old(self).unsync.los.common.start,
            final(self).unsync.los.common.extent == old(self).unsync.los.common.extent,
            final(self).unsync.los.common.cursor >= old(self).unsync.los.common.cursor,
            final(self).unsync.los.mark_state == old(self).unsync.los.mark_state,
            match r {
                Some(a) => {
                    let route = old(self).spec_alloc_common(semantics);
                    let route_post = final(self).spec_alloc_common(semantics);
                    &&& spec_alloc_effect(*old(self), *final(self), a, size, align, offset, semantics)
                    &&& route.start + route.cursor <= a
                    &&& a + size <= route_post.start + route_post.cursor
                },
                None => {
                    &&& *final(self) == *old(self)
                    &&& crate::layout::spec_align_up(
                        (old(self).spec_alloc_common(semantics).start + old(
                            self,
                        ).spec_alloc_common(semantics).cursor) as usize,
                        align,
                        offset,
                    ) + size > old(self).spec_alloc_common(semantics).start + old(
                        self,
                    ).spec_alloc_common(semantics).extent
                },
            },
    {
        match semantics {
            AllocationSemantics::LargeObject => self.unsync.los.common.bump_alloc(
                size,
                align,
                offset,
            ),
            _ => self.unsync.space.common.bump_alloc(size, align, offset),
        }
    }

    /// The bump-cursor line of the space holding `addr`, when one does.
    pub open spec fn spec_bound_line(self, addr: usize) -> Option<int> {
        if self.unsync.vm_space.common.spec_in_range(addr) {
            Some(self.unsync.vm_space.common.start + self.unsync.vm_space.common.cursor)
        } else if self.unsync.space.common.spec_in_range(addr) {
            Some(self.unsync.space.common.start + self.unsync.space.common.cursor)
        } else if self.unsync.los.common.spec_in_range(addr) {
            Some(self.unsync.los.common.start + self.unsync.los.common.cursor)
        } else {
            None
        }
    }

    /// Runtime check of `spec_bound_line`.
    pub fn bound_line(&self, addr: usize) -> (r: Option<usize>)
        requires
            self.wf(),
        ensures
            match r {
                Some(line) => self.spec_bound_line(addr) == Some(line as int),
                None => self.spec_bound_line(addr) is None,
            },
    {
        if self.unsync.vm_space.common.in_range(addr) {
            Some(self.unsync.vm_space.common.start + self.unsync.vm_space.common.cursor)
        } else if self.unsync.space.common.in_range(addr) {
            Some(self.unsync.space.common.start + self.unsync.space.common.cursor)
        } else if self.unsync.los.common.in_range(addr) {
            Some(self.unsync.los.common.start + self.unsync.los.common.cursor)
        } else {
            None
        }
    }

    /// The mark bit a fresh object starts with in the space holding `addr`.
    pub fn fresh_mark(&self, addr: usize) -> (r: bool)
        ensures
            r == (if self.unsync.los.spec_in_space(addr) {
                self.unsync.los.mark_state
            } else if self.unsync.space.spec_in_space(addr) {
                self.unsync.space.mark_state
            } else if self.unsync.vm_space.spec_in_space(addr) {
                self.unsync.vm_space.mark_state
            } else {
                false
            }),
    {
        if self.unsync.los.common.in_range(addr) {
            self.unsync.los.mark_state
        } else if self.unsync.space.common.in_range(addr) {
            self.unsync.space.mark_state
        } else if self.unsync.vm_space.common.in_range(addr) {
            self.unsync.vm_space.mark_state
        } else {
            false
        }
    }
}

} // verus!
