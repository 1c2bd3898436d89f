//! The generational copying reference plan.  A nursery `CopySpace` plus a
//! tospace/fromspace pair whose roles alternate across mature collections,
//! over the common immortal, large-object and VM-reserved spaces.
//!
//! A collection is either a nursery collection (the default) or a full-heap
//! collection.  Nursery survivors, and in a full collection fromspace
//! survivors, are copied into the tospace.

use crate::copyspace::{
    all_words_published, fw_targets_ok, objects_bounded, dest_unforwarded, CopySpace,
};
use crate::forwarding_word::ForwardingState;
use crate::immortalspace::ImmortalSpace;
use crate::largeobjectspace::LargeObjectSpace;
use crate::layout::{bytes_to_pages, ObjectReference, BYTES_IN_PAGE, HEAP_END, HEAP_START};
use crate::object_model::{HeapObject, ObjectTable};
use crate::plan::{AllocationSemantics, AllocatorSelector, BasePlan};
use crate::nogc::VM_SPACE_EXTENT;
use vstd::prelude::*;

verus! {

/// The generational copying plan.
#[derive(Clone, Copy, Debug)]
pub struct GenCopy {
    /// Selects which copy space is the tospace: `copyspace1` when set.
    pub hi: bool,
    /// The young generation; allocations land here.
    pub nursery: CopySpace,
    pub copyspace0: CopySpace,
    pub copyspace1: CopySpace,
    pub vm_space: ImmortalSpace,
    pub immortal: ImmortalSpace,
    pub los: LargeObjectSpace,
    pub common: BasePlan,
    /// Is the collection in flight a nursery collection?
    pub in_nursery_gc: bool,
}

impl GenCopy {
    /// The current copy destination.
    pub open spec fn spec_tospace(self) -> CopySpace {
        if self.hi {
            self.copyspace1
        } else {
            self.copyspace0
        }
    }

    /// The half under collection in a full-heap cycle.
    pub open spec fn spec_fromspace(self) -> CopySpace {
        if self.hi {
            self.copyspace0
        } else {
            self.copyspace1
        }
    }

    /// Spaces well formed and laid out one after the other; the tospace is
    /// never the half under collection.
    pub open spec fn wf(self) -> bool {
        &&& self.vm_space.wf()
        &&& self.immortal.wf()
        &&& self.los.wf()
        &&& self.nursery.wf()
        &&& self.copyspace0.wf()
        &&& self.copyspace1.wf()
        &&& self.vm_space.common.start == HEAP_START
        &&& self.vm_space.common.extent == VM_SPACE_EXTENT
        &&& self.vm_space.common.start + self.vm_space.common.extent
            <= self.immortal.common.start
        &&& self.immortal.common.start + self.immortal.common.extent <= self.los.common.start
        &&& self.los.common.start + self.los.common.extent <= self.nursery.common.start
        &&& self.nursery.common.start + self.nursery.common.extent
            <= self.copyspace0.common.start
        &&& self.copyspace0.common.start + self.copyspace0.common.extent
            <= self.copyspace1.common.start
        &&& !self.spec_tospace().from_space
        &&& self.common.initialized ==> self.common.total_pages == self.spec_heap_pages()
    }

    /// The heap budget: every space but the VM-reserved one.
    pub open spec fn spec_heap_pages(self) -> int {
        self.immortal.common.pr.total + self.los.common.pr.total + self.nursery.common.pr.total
            + self.copyspace0.common.pr.total + self.copyspace1.common.pr.total
    }

    /// Pages holding data.
    pub open spec fn spec_pages_committed(self) -> int {
        self.immortal.common.pr.committed + self.los.common.pr.committed
            + self.nursery.common.pr.committed + self.copyspace0.common.pr.committed
            + self.copyspace1.common.pr.committed
    }

    /// Pages counted against the budget, pending reservations included.
    pub open spec fn spec_pages_reserved(self) -> int {
        self.immortal.common.pr.spec_reserved() + self.los.common.pr.spec_reserved()
            + self.nursery.common.pr.spec_reserved() + self.copyspace0.common.pr.spec_reserved()
            + self.copyspace1.common.pr.spec_reserved()
    }

    /// An empty plan; `gc_init` lays the spaces out.
    pub fn new() -> (r: GenCopy)
        ensures
            r.wf(),
            !r.common.initialized,
            r.common.gc_count == 0,
            !r.hi,
            !r.common.gc_in_progress,
            !r.common.collection_enabled,
            !r.nursery.from_space,
            !r.copyspace0.from_space,
            !r.copyspace1.from_space,
            r.nursery.common.cursor == 0,
            r.copyspace0.common.cursor == 0,
            r.copyspace1.common.cursor == 0,
    {
        let upper = HEAP_START + VM_SPACE_EXTENT;
        GenCopy {
            hi: false,
            nursery: CopySpace::new("nursery", false, true, upper, 0),
            copyspace0: CopySpace::new("copyspace0", false, true, upper, 0),
            copyspace1: CopySpace::new("copyspace1", false, true, upper, 0),
            vm_space: ImmortalSpace::new("vm_space", true, HEAP_START, VM_SPACE_EXTENT),
            immortal: ImmortalSpace::new("immortal", true, upper, 0),
            los: LargeObjectSpace::new("los", true, upper, 0),
            common: BasePlan::new(),
            in_nursery_gc: true,
        }
    }

    /// Lay the spaces out for a heap of `heap_size` bytes with a nursery of
    /// `nursery_size` bytes: an eighth each for the immortal and
    /// large-object spaces, the nursery as asked, and the rest split evenly
    /// between the two copy spaces.
    pub fn gc_init(&mut self, heap_size: usize, nursery_size: usize)
        requires
            old(self).wf(),
            !old(self).common.initialized,
            heap_size as int % (BYTES_IN_PAGE as int) == 0,
            nursery_size as int % (BYTES_IN_PAGE as int) == 0,
            BYTES_IN_PAGE <= nursery_size,
            2 * nursery_size <= heap_size,
            8 * BYTES_IN_PAGE <= heap_size,
            HEAP_START + VM_SPACE_EXTENT + heap_size <= HEAP_END,
        ensures
            final(self).wf(),
            final(self).common.initialized,
            final(self).common.gc_count == old(self).common.gc_count,
            final(self).hi == old(self).hi,
            final(self).nursery.common.extent == nursery_size,
            final(self).common.total_pages * BYTES_IN_PAGE == heap_size,
            final(self).common.total_pages == crate::layout::spec_bytes_to_pages(heap_size),
            final(self).spec_pages_reserved() == 0,
            final(self).spec_pages_committed() == 0,
            !final(self).nursery.from_space,
            !final(self).copyspace0.from_space,
            !final(self).copyspace1.from_space,
    {
        let p = BYTES_IN_PAGE;
        let eighth = heap_size / 8;
        let side_extent = eighth - (eighth % p);
        proof {
            vstd::arithmetic::div_mod::lemma_fundamental_div_mod(heap_size as int, 8);
            vstd::arithmetic::div_mod::lemma_mod_bound(heap_size as int, 8);
            assert(2 * side_extent + nursery_size <= heap_size);
        }
        let rest = heap_size - side_extent - side_extent - nursery_size;
        let half_rest = rest / 2;
        let copy0_extent = half_rest - (half_rest % p);
        // the second half takes the remainder, so the extents sum exactly
        // to the requested heap size
        let copy1_extent = rest - copy0_extent;
        proof {
            let pi = p as int;
            vstd::arithmetic::div_mod::lemma_mod_bound(eighth as int, pi);
            vstd::arithmetic::div_mod::lemma_mod_bound(half_rest as int, pi);
            lemma_round_down_aligned(eighth, p);
            lemma_round_down_aligned(half_rest, p);
            assert(rest as int % pi == 0) by {
                vstd::arithmetic::div_mod::lemma_fundamental_div_mod(heap_size as int, pi);
                vstd::arithmetic::div_mod::lemma_fundamental_div_mod(side_extent as int, pi);
                vstd::arithmetic::div_mod::lemma_fundamental_div_mod(nursery_size as int, pi);
                let q = heap_size as int / pi - 2 * (side_extent as int / pi) - nursery_size as int
                    / pi;
                assert(rest == pi * q) by {
                    vstd::arithmetic::mul::lemma_mul_is_distributive_sub(
                        pi,
                        heap_size as int / pi - 2 * (side_extent as int / pi),
                        nursery_size as int / pi,
                    );
                    vstd::arithmetic::mul::lemma_mul_is_distributive_sub(
                        pi,
                        heap_size as int / pi,
                        2 * (side_extent as int / pi),
                    );
                    vstd::arithmetic::mul::lemma_mul_is_associative(
                        pi,
                        2,
                        side_extent as int / pi,
                    );
                };
                vstd::arithmetic::div_mod::lemma_mod_multiples_basic(q, pi);
                vstd::arithmetic::mul::lemma_mul_is_commutative(q, pi);
            };
            assert(copy1_extent as int % pi == 0) by {
                vstd::arithmetic::div_mod::lemma_fundamental_div_mod(rest as int, pi);
                vstd::arithmetic::div_mod::lemma_fundamental_div_mod(copy0_extent as int, pi);
                let q2 = rest as int / pi - copy0_extent as int / pi;
                assert(copy1_extent == pi * q2) by {
                    vstd::arithmetic::mul::lemma_mul_is_distributive_sub(
                        pi,
                        rest as int / pi,
                        copy0_extent as int / pi,
                    );
                };
                vstd::arithmetic::div_mod::lemma_mod_multiples_basic(q2, pi);
                vstd::arithmetic::mul::lemma_mul_is_commutative(q2, pi);
            };
        }
        let immortal_start = HEAP_START + VM_SPACE_EXTENT;
        let los_start = immortal_start + side_extent;
        let nursery_start = los_start + side_extent;
        let copy0_start = nursery_start + nursery_size;
        let copy1_start = copy0_start + copy0_extent;
        self.immortal = ImmortalSpace::new("immortal", true, immortal_start, side_extent);
        self.los = LargeObjectSpace::new("los", true, los_start, side_extent);
        self.nursery = CopySpace::new("nursery", false, true, nursery_start, nursery_size);
        self.copyspace0 = CopySpace::new("copyspace0", false, true, copy0_start, copy0_extent);
        self.copyspace1 = CopySpace::new("copyspace1", false, true, copy1_start, copy1_extent);
        self.common.total_pages = bytes_to_pages(side_extent) + bytes_to_pages(side_extent)
            + bytes_to_pages(nursery_size) + bytes_to_pages(copy0_extent) + bytes_to_pages(
            copy1_extent,
        );
        self.common.initialized = true;
        proof {
            crate::layout::lemma_aligned_extent_pages(side_extent);
            crate::layout::lemma_aligned_extent_pages(nursery_size);
            crate::layout::lemma_aligned_extent_pages(copy0_extent);
            crate::layout::lemma_aligned_extent_pages(copy1_extent);
            // the extents sum to heap_size, so the page budget is exactly
            // the requested bytes
            assert(self.common.total_pages * BYTES_IN_PAGE == heap_size) by {
                let pi = BYTES_IN_PAGE as int;
                let t = self.common.total_pages as int;
                assert(2 * side_extent + nursery_size + copy0_extent + copy1_extent == heap_size);
                vstd::arithmetic::div_mod::lemma_fundamental_div_mod(side_extent as int, pi);
                vstd::arithmetic::div_mod::lemma_fundamental_div_mod(nursery_size as int, pi);
                vstd::arithmetic::div_mod::lemma_fundamental_div_mod(copy0_extent as int, pi);
                vstd::arithmetic::div_mod::lemma_fundamental_div_mod(copy1_extent as int, pi);
                assert(t * pi == 2 * (pi * (side_extent as int / pi)) + pi * (nursery_size as int
                    / pi) + pi * (copy0_extent as int / pi) + pi * (copy1_extent as int / pi))
                    by (nonlinear_arith)
                    requires
                        t == 2 * (side_extent as int / pi) + nursery_size as int / pi
                            + copy0_extent as int / pi + copy1_extent as int / pi,
                ;
            };
        }
    }

    pub fn tospace(&self) -> (r: &CopySpace)
        ensures
            *r == self.spec_tospace(),
    {
        if self.hi {
            &self.copyspace1
        } else {
            &self.copyspace0
        }
    }

    pub fn fromspace(&self) -> (r: &CopySpace)
        ensures
            *r == self.spec_fromspace(),
    {
        if self.hi {
            &self.copyspace0
        } else {
            &self.copyspace1
        }
    }

    /// Is the collection in flight a nursery collection?
    pub fn in_nursery(&self) -> (r: bool)
        ensures
            r == self.in_nursery_gc,
    {
        self.in_nursery_gc
    }

    pub fn get_pages_used(&self) -> (r: usize)
        requires
            self.wf(),
        ensures
            r == self.spec_pages_committed(),
    {
        self.immortal.common.pr.committed + self.los.common.pr.committed
            + self.nursery.common.pr.committed + self.copyspace0.common.pr.committed
            + self.copyspace1.common.pr.committed
    }

    pub fn get_pages_reserved(&self) -> (r: usize)
        requires
            self.wf(),
        ensures
            r == self.spec_pages_reserved(),
    {
        self.immortal.common.reserved_pages() + self.los.common.reserved_pages()
            + self.nursery.common.reserved_pages() + self.copyspace0.common.reserved_pages()
            + self.copyspace1.common.reserved_pages()
    }

    pub fn get_total_pages(&self) -> (r: usize)
        ensures
            r == self.common.total_pages,
    {
        self.common.total_pages
    }

    /// Only objects outside every moving space are sure never to move.
    pub fn will_never_move(&self, object: ObjectReference) -> (r: bool)
        ensures
            r == (!self.nursery.spec_in_space(object.0) && !self.copyspace0.spec_in_space(object.0)
                && !self.copyspace1.spec_in_space(object.0)),
    {
        !self.nursery.in_space(object) && !self.copyspace0.in_space(object)
            && !self.copyspace1.in_space(object)
    }

    /// The allocator each semantic routes to under this plan.
    pub fn get_allocator_mapping(&self, semantics: AllocationSemantics) -> (r: AllocatorSelector)
        ensures
            r == (match semantics {
                AllocationSemantics::LargeObject => AllocatorSelector::LargeObject(0u8),
                AllocationSemantics::Immortal => AllocatorSelector::BumpPointer(1u8),
                AllocationSemantics::Code => AllocatorSelector::BumpPointer(1u8),
                AllocationSemantics::ReadOnly => AllocatorSelector::BumpPointer(1u8),
                AllocationSemantics::Default => AllocatorSelector::BumpPointer(0u8),
            }),
    {
        match semantics {
            AllocationSemantics::LargeObject => AllocatorSelector::LargeObject(0),
            AllocationSemantics::Immortal => AllocatorSelector::BumpPointer(1),
            AllocationSemantics::Code => AllocatorSelector::BumpPointer(1),
            AllocationSemantics::ReadOnly => AllocatorSelector::BumpPointer(1),
            AllocationSemantics::Default => AllocatorSelector::BumpPointer(0),
        }
    }

    /// Swap which half is the copy destination.
    pub fn flip_roles(&mut self)
        requires
            old(self).wf(),
            !old(self).copyspace0.from_space,
            !old(self).copyspace1.from_space,
        ensures
            final(self).wf(),
            final(self).hi == !old(self).hi,
            final(self).spec_tospace() == old(self).spec_fromspace(),
            final(self).spec_fromspace() == old(self).spec_tospace(),
            final(self).nursery == old(self).nursery,
            final(self).copyspace0 == old(self).copyspace0,
            final(self).copyspace1 == old(self).copyspace1,
            final(self).immortal == old(self).immortal,
            final(self).los == old(self).los,
            final(self).vm_space == old(self).vm_space,
            final(self).common == old(self).common,
    {
        self.hi = !self.hi;
    }

    /// The collector's invariant while a collection is in flight: every
    /// forwarding word is published, every object sits below its space's
    /// cursor, objects outside the collected halves are unforwarded, and
    /// every forwarded object of a collected half points at a real copy in
    /// the tospace.
    pub open spec fn gc_inv(self, heap: ObjectTable) -> bool {
        &&& all_words_published(heap)
        &&& objects_bounded(heap, self.spec_tospace().common)
        &&& dest_unforwarded(heap, self.spec_tospace())
        &&& fw_targets_ok(heap, self.nursery, self.spec_tospace())
        &&& fw_targets_ok(heap, self.spec_fromspace(), self.spec_tospace())
        &&& forall|k: int|
            0 <= k < heap.objs.len() && !self.nursery.spec_in_space(
                (#[trigger] heap.objs[k]).addr,
            ) && !self.spec_fromspace().spec_in_space(heap.objs[k].addr)
                ==> heap.objs[k].forwarding == ForwardingState::Unforwarded
    }

    /// Every object of the table lies wholly below its housing space's
    /// cursor, whichever of the plan's spaces that is.
    pub open spec fn all_bounded(self, heap: ObjectTable) -> bool {
        &&& objects_bounded(heap, self.vm_space.common)
        &&& objects_bounded(heap, self.immortal.common)
        &&& objects_bounded(heap, self.los.common)
        &&& objects_bounded(heap, self.nursery.common)
        &&& objects_bounded(heap, self.copyspace0.common)
        &&& objects_bounded(heap, self.copyspace1.common)
    }

    /// The resting invariant between collections: no word is forwarded at
    /// all.
    pub open spec fn quiescent(heap: ObjectTable) -> bool {
        forall|k: int|
            0 <= k < heap.objs.len() ==> (#[trigger] heap.objs[k]).forwarding
                == ForwardingState::Unforwarded
    }

    /// At rest the collector's invariant holds trivially.
    pub proof fn lemma_quiescent_inv(self, heap: ObjectTable)
        requires
            Self::quiescent(heap),
            objects_bounded(heap, self.spec_tospace().common),
        ensures
            self.gc_inv(heap),
    {
    }
}

/// Flipping the tospace/fromspace roles twice restores the original space
/// topology: the same halves serve the same roles, with every space field
/// unchanged.
pub proof fn lemma_flip_roles_twice(a: GenCopy, b: GenCopy, c: GenCopy)
    requires
        b.hi == !a.hi,
        c.hi == !b.hi,
        b.copyspace0 == a.copyspace0,
        b.copyspace1 == a.copyspace1,
        c.copyspace0 == b.copyspace0,
        c.copyspace1 == b.copyspace1,
    ensures
        c.hi == a.hi,
        c.spec_tospace() == a.spec_tospace(),
        c.spec_fromspace() == a.spec_fromspace(),
{
}

/// Rounding `n` down to a multiple of `p` leaves a multiple of `p` no
/// larger than `n`.
proof fn lemma_round_down_aligned(n: usize, p: usize)
    requires
        p == BYTES_IN_PAGE,
    ensures
        (n - (n as int % p as int)) as int % (p as int) == 0,
        0 <= n - (n as int % p as int) <= n,
{
    let pi = p as int;
    vstd::arithmetic::div_mod::lemma_mod_bound(n as int, pi);
    vstd::arithmetic::div_mod::lemma_fundamental_div_mod(n as int, pi);
    let q = n as int / pi;
    assert(n - (n as int % pi) == pi * q);
    vstd::arithmetic::div_mod::lemma_mod_multiples_basic(q, pi);
    vstd::arithmetic::mul::lemma_mul_is_commutative(q, pi);
}



/// The whole effect of one successful allocation of `size` bytes at `a`
/// under the given semantics: the routed space's cursor and page accounts
/// advance exactly, and every other part of the plan is untouched.
pub open spec fn spec_alloc_effect(
    pre: GenCopy,
    post: GenCopy,
    a: usize,
    size: usize,
    align: usize,
    offset: usize,
    semantics: AllocationSemantics,
) -> bool {
    let route = pre.spec_alloc_common(semantics);
    &&& post.hi == pre.hi
    &&& post.common == pre.common
    &&& post.in_nursery_gc == pre.in_nursery_gc
    &&& post.copyspace0 == pre.copyspace0
    &&& post.copyspace1 == pre.copyspace1
    &&& post.vm_space == pre.vm_space
    &&& a == crate::layout::spec_align_up((route.start + route.cursor) as usize, align, offset)
    &&& (a + offset) % (align as int) == 0
    &&& route.spec_in_range(a)
    &&& a + size <= route.start + route.extent
    &&& (match semantics {
        AllocationSemantics::Default => {
            &&& post.immortal == pre.immortal
            &&& post.los == pre.los
            &&& post.nursery.from_space == pre.nursery.from_space
            &&& crate::space::common_bumped(route, post.nursery.common, a, size)
        },
        AllocationSemantics::LargeObject => {
            &&& post.nursery == pre.nursery
            &&& post.immortal == pre.immortal
            &&& post.los.mark_state == pre.los.mark_state
            &&& crate::space::common_bumped(route, post.los.common, a, size)
        },
        _ => {
            &&& post.nursery == pre.nursery
            &&& post.los == pre.los
            &&& post.immortal.mark_state == pre.immortal.mark_state
            &&& crate::space::common_bumped(route, post.immortal.common, a, size)
        },
    })
}

impl GenCopy {
    /// The space an allocation semantic routes to: `Default` to the
    /// nursery, `LargeObject` to the large-object space, everything else to
    /// the immortal space.
    pub open spec fn spec_alloc_common(self, semantics: AllocationSemantics) -> crate::space::CommonSpace {
        match semantics {
            AllocationSemantics::Default => self.nursery.common,
            AllocationSemantics::LargeObject => self.los.common,
            _ => self.immortal.common,
        }
    }

    /// Bump-allocate in the space the semantic routes to.  Only that
    /// space's cursor and page accounts change; the copy spaces are never
    /// an allocation target.
    pub fn alloc_in(&mut self, size: usize, align: usize, offset: usize, semantics: AllocationSemantics) -> (r: Option<usize>)
        requires
            old(self).wf(),
            crate::layout::spec_align_legal(align),
            offset < BYTES_IN_PAGE,
            1 <= size,
        ensures
            final(self).wf(),
            final(self).hi == old(self).hi,
            final(self).common == old(self).common,
            final(self).in_nursery_gc == old(self).in_nursery_gc,
            final(self).copyspace0 == old(self).copyspace0,
            final(self).copyspace1 == old(self).copyspace1,
            final(self).vm_space == old(self).vm_space,
            final(self).nursery.from_space == old(self).nursery.from_space,
            final(self).nursery.common.start == old(self).nursery.common.start,
            final(self).nursery.common.extent == old(self).nursery.common.extent,
            final(self).nursery.common.cursor >= old(self).nursery.common.cursor,
            final(self).immortal.common.start == old(self).immortal.common.start,
            final(self).immortal.common.extent == old(self).immortal.common.extent,
            final(self).immortal.common.cursor >= old(self).immortal.common.cursor,
            final(self).immortal.mark_state == old(self).immortal.mark_state,
            final(self).los.common.start == old(self).los.common.start,
            final(self).los.common.extent == old(self).los.common.extent,
            final(self).los.common.cursor >= old(self).los.common.cursor,
            final(self).los.mark_state == old(self).los.mark_state,
            match r {
                Some(a) => {
                    let route = old(self).spec_alloc_common(semantics);
                    let route_post = final(self).spec_alloc_common(semantics);
                    &&& spec_alloc_effect(*old(self), *final(self), a, size, align, offset, semantics)
                    &&& route.start + route.cursor <= a
                    &&& a + size <= route_post.start + route_post.cursor
                },
                None => {
                    &&& *final(self) == *old(self)
                    &&& crate::layout::spec_align_up(
                        (old(self).spec_alloc_common(semantics).start + old(
                            self,
                        ).spec_alloc_common(semantics).cursor) as usize,
                        align,
                        offset,
                    ) + size > old(self).spec_alloc_common(semantics).start + old(
                        self,
                    ).spec_alloc_common(semantics).extent
                },
            },
    {
        match semantics {
            AllocationSemantics::Default => self.nursery.common.bump_alloc(size, align, offset),
            AllocationSemantics::LargeObject => self.los.common.bump_alloc(size, align, offset),
            _ => self.immortal.common.bump_alloc(size, align, offset),
        }
    }

    /// The bump-cursor line of the space holding `addr`, when one does.
    pub open spec fn spec_bound_line(self, addr: usize) -> Option<int> {
        if self.vm_space.common.spec_in_range(addr) {
            Some(self.vm_space.common.start + self.vm_space.common.cursor)
        } else if self.immortal.common.spec_in_range(addr) {
            Some(self.immortal.common.start + self.immortal.common.cursor)
        } else if self.los.common.spec_in_range(addr) {
            Some(self.los.common.start + self.los.common.cursor)
        } else if self.nursery.common.spec_in_range(addr) {
            Some(self.nursery.common.start + self.nursery.common.cursor)
        } else if self.copyspace0.common.spec_in_range(addr) {
            Some(self.copyspace0.common.start + self.copyspace0.common.cursor)
        } else if self.copyspace1.common.spec_in_range(addr) {
            Some(self.copyspace1.common.start + self.copyspace1.common.cursor)
        } else {
            None
        }
    }

    /// Runtime check of `spec_bound_line`.
    pub fn bound_line(&self, addr: usize) -> (r: Option<usize>)
        requires
            self.wf(),
        ensures
            match r {
                Some(line) => self.spec_bound_line(addr) == Some(line as int),
                None => self.spec_bound_line(addr) is None,
            },
    {
        if self.vm_space.common.in_range(addr) {
            Some(self.vm_space.common.start + self.vm_space.common.cursor)
        } else if self.immortal.common.in_range(addr) {
            Some(self.immortal.common.start + self.immortal.common.cursor)
        } else if self.los.common.in_range(addr) {
            Some(self.los.common.start + self.los.common.cursor)
        } else if self.nursery.common.in_range(addr) {
            Some(self.nursery.common.start + self.nursery.common.cursor)
        } else if self.copyspace0.common.in_range(addr) {
            Some(self.copyspace0.common.start + self.copyspace0.common.cursor)
        } else if self.copyspace1.common.in_range(addr) {
            Some(self.copyspace1.common.start + self.copyspace1.common.cursor)
        } else {
            None
        }
    }

    /// The mark bit a fresh object starts with in the space holding `addr`.
    pub fn fresh_mark(&self, addr: usize) -> (r: bool)
        ensures
            r == (if self.los.spec_in_space(addr) {
                self.los.mark_state
            } else if self.immortal.spec_in_space(addr) {
                self.immortal.mark_state
            } else if self.vm_space.spec_in_space(addr) {
                self.vm_space.mark_state
            } else {
                false
            }),
    {
        if self.los.common.in_range(addr) {
            self.los.mark_state
        } else if self.immortal.common.in_range(addr) {
            self.immortal.mark_state
        } else if self.vm_space.common.in_range(addr) {
            self.vm_space.mark_state
        } else {
            false
        }
    }
}

} // verus!
