//! `CommonSpace`: a named region of the heap with uniform collection policy,
//! built atop a monotone page resource.
//!
//! Every space owns a contiguous byte range `[start, start + extent)` inside
//! the fixed heap range, allocates by bumping a cursor through it, and keeps
//! its page accounts in step with the cursor: the committed page count is
//! always exactly the pages the cursor has touched.

use crate::layout::{
    align_allocation, bytes_to_pages, spec_align_legal, spec_align_up, spec_bytes_to_pages,
    ObjectReference, BYTES_IN_PAGE, HEAP_END, HEAP_START,
};
use crate::page_resource::PageResource;
use vstd::prelude::*;

verus! {

/// State shared by every space policy.
#[derive(Clone, Copy, Debug)]
pub struct CommonSpace {
    /// The space's name, fixed at construction.
    pub name: &'static str,
    /// First address of the space's range.
    pub start: usize,
    /// Length of the range in bytes; a multiple of the page size.
    pub extent: usize,
    /// Bump cursor: bytes of the range already handed out.
    pub cursor: usize,
    /// May objects in this space move?
    pub movable: bool,
    /// Is the backing range contiguous?
    pub contiguous: bool,
    /// Are fresh pages zeroed?
    pub zeroed: bool,
    /// Is the range currently protected against access?
    pub protected: bool,
    /// The page accounts.
    pub pr: PageResource,
}

impl CommonSpace {
    /// Well-formedness: the range lies inside the heap, the cursor inside
    /// the range, and the page accounts in step with the cursor.
    pub open spec fn wf(self) -> bool {
        &&& HEAP_START <= self.start
        &&& self.start + self.extent <= HEAP_END
        &&& self.extent as int % (BYTES_IN_PAGE as int) == 0
        &&& self.cursor <= self.extent
        &&& self.pr.wf()
        &&& self.pr.total * BYTES_IN_PAGE == self.extent
        &&& self.pr.committed == spec_bytes_to_pages(self.cursor)
    }

    /// Does this space's range contain `addr`?
    pub open spec fn spec_in_range(self, addr: usize) -> bool {
        self.start <= addr < self.start + self.extent
    }

    /// Two spaces' ranges are disjoint.
    pub open spec fn spec_disjoint(self, other: CommonSpace) -> bool {
        self.start + self.extent <= other.start || other.start + other.extent <= self.start
    }

    /// A fresh space over `[start, start + extent)`.
    pub fn new(
        name: &'static str,
        start: usize,
        extent: usize,
        movable: bool,
        contiguous: bool,
        zeroed: bool,
    ) -> (r: CommonSpace)
        requires
            HEAP_START <= start,
            start + extent <= HEAP_END,
            extent as int % (BYTES_IN_PAGE as int) == 0,
        ensures
            r.wf(),
            r.name == name,
            r.start == start,
            r.extent == extent,
            r.cursor == 0,
            r.movable == movable,
            r.contiguous == contiguous,
            r.zeroed == zeroed,
            !r.protected,
            r.pr.committed == 0,
            r.pr.pending == 0,
    {
        let total = extent / BYTES_IN_PAGE;
        proof {
            vstd::arithmetic::div_mod::lemma_fundamental_div_mod(
                extent as int,
                BYTES_IN_PAGE as int,
            );
            assert(spec_bytes_to_pages(0) == 0) by {
                vstd::arithmetic::div_mod::lemma_basic_div_specific_divisor(
                    BYTES_IN_PAGE as int,
                );
            };
        }
        CommonSpace {
            name,
            start,
            extent,
            cursor: 0,
            movable,
            contiguous,
            zeroed,
            protected: false,
            pr: PageResource::new(total),
        }
    }

    pub fn in_range(&self, addr: usize) -> (r: bool)
        ensures
            r == self.spec_in_range(addr),
    {
        self.start <= addr && addr - self.start < self.extent
    }

    /// Does this space contain the given object?
    pub fn in_space(&self, object: ObjectReference) -> (r: bool)
        ensures
            r == self.spec_in_range(object.0),
    {
        self.in_range(object.0)
    }

    /// Pages this space counts against the heap.
    pub fn reserved_pages(&self) -> (r: usize)
        requires
            self.wf(),
        ensures
            r == self.pr.spec_reserved(),
    {
        self.pr.reserved_pages()
    }

    /// The aligned address the next bump allocation of `size` bytes would
    /// return, or `None` when the request does not fit in what is left of
    /// the range.
    pub fn fit_check(&self, size: usize, align: usize, offset: usize) -> (r: Option<usize>)
        requires
            self.wf(),
            spec_align_legal(align),
            offset < BYTES_IN_PAGE,
            1 <= size,
        ensures
            match r {
                Some(a) => {
                    &&& a == spec_align_up((self.start + self.cursor) as usize, align, offset)
                    &&& self.start + self.cursor <= a
                    &&& a + size <= self.start + self.extent
                    &&& (a + offset) % (align as int) == 0
                },
                None => spec_align_up((self.start + self.cursor) as usize, align, offset) + size
                    > self.start + self.extent,
            },
    {
        let base = self.start + self.cursor;
        let a_opt = align_allocation(base, align, offset);
        match a_opt {
            Some(a) => {
                if size <= self.extent && a <= self.start + (self.extent - size) {
                    Some(a)
                } else {
                    None
                }
            },
            None => None,
        }
    }

    /// Bump-allocate `size` bytes aligned so that the result plus `offset`
    /// is a multiple of `align`.  Commits the pages the new cursor touches.
    /// Returns `None`, changing nothing, when the request does not fit.
    pub fn bump_alloc(&mut self, size: usize, align: usize, offset: usize) -> (r: Option<usize>)
        requires
            old(self).wf(),
            old(self).pr.pending == 0,
            spec_align_legal(align),
            offset < BYTES_IN_PAGE,
            1 <= size,
        ensures
            final(self).wf(),
            final(self).pr.pending == 0,
            final(self).name == old(self).name,
            final(self).start == old(self).start,
            final(self).extent == old(self).extent,
            final(self).movable == old(self).movable,
            final(self).contiguous == old(self).contiguous,
            final(self).zeroed == old(self).zeroed,
            final(self).protected == old(self).protected,
            final(self).pr.total == old(self).pr.total,
            match r {
                Some(a) => {
                    &&& a == spec_align_up(
                        (old(self).start + old(self).cursor) as usize,
                        align,
                        offset,
                    )
                    &&& old(self).start + old(self).cursor <= a
                    &&& a + size <= old(self).start + old(self).extent
                    &&& (a + offset) % (align as int) == 0
                    &&& final(self).cursor == a - old(self).start + size
                    &&& final(self).cursor >= old(self).cursor
                    &&& old(self).spec_in_range(a)
                },
                None => {
                    &&& *final(self) == *old(self)
                    &&& spec_align_up((old(self).start + old(self).cursor) as usize, align, offset)
                        + size > old(self).start + old(self).extent
                },
            },
    {
        let a_opt = self.fit_check(size, align, offset);
        match a_opt {
            Some(a) => {
                let new_cursor = a - self.start + size;
                let needed = bytes_to_pages(new_cursor);
                proof {
                    lemma_pages_monotone(self.cursor, new_cursor);
                    lemma_pages_within_total(new_cursor, self.extent, self.pr.total as int);
                }
                let delta = needed - self.pr.committed;
                let ok = self.pr.reserve_pages(delta);
                proof {
                    assert(ok);
                }
                self.pr.commit_pages(delta);
                self.cursor = new_cursor;
                Some(a)
            },
            None => None,
        }
    }

    /// Reset the bump cursor and return every page at once.
    pub fn reset(&mut self)
        requires
            old(self).wf(),
        ensures
            final(self).wf(),
            final(self).cursor == 0,
            final(self).pr.committed == 0,
            final(self).pr.pending == 0,
            final(self).pr.spec_reserved() == 0,
            final(self).name == old(self).name,
            final(self).start == old(self).start,
            final(self).extent == old(self).extent,
            final(self).movable == old(self).movable,
            final(self).contiguous == old(self).contiguous,
            final(self).zeroed == old(self).zeroed,
            final(self).protected == old(self).protected,
            final(self).pr.total == old(self).pr.total,
    {
        self.pr.release_all();
        self.cursor = 0;
        proof {
            assert(spec_bytes_to_pages(0) == 0) by {
                vstd::arithmetic::div_mod::lemma_basic_div_specific_divisor(
                    BYTES_IN_PAGE as int,
                );
            };
        }
    }
}

/// Rounding bytes up to pages is monotone.
proof fn lemma_pages_monotone(a: usize, b: usize)
    requires
        a <= b,
    ensures
        spec_bytes_to_pages(a) <= spec_bytes_to_pages(b),
{
    vstd::arithmetic::div_mod::lemma_div_is_ordered(
        a + BYTES_IN_PAGE - 1,
        b + BYTES_IN_PAGE - 1,
        BYTES_IN_PAGE as int,
    );
}

/// A cursor inside the range never needs more pages than the capacity.
proof fn lemma_pages_within_total(cursor: usize, extent: usize, total: int)
    requires
        cursor <= extent,
        total * BYTES_IN_PAGE == extent,
    ensures
        spec_bytes_to_pages(cursor) <= total,
{
    assert(spec_bytes_to_pages(extent) == total) by {
        vstd::arithmetic::div_mod::lemma_fundamental_div_mod_converse(
            extent + BYTES_IN_PAGE - 1,
            BYTES_IN_PAGE as int,
            total,
            (BYTES_IN_PAGE - 1) as int,
        );
    };
    lemma_pages_monotone(cursor, extent);
}


/// What one bump allocation does to a space's common state: the cursor
/// advances to the end of the placed block, the committed pages follow it
/// exactly, and every other field stays put.
pub open spec fn common_bumped(pre: CommonSpace, post: CommonSpace, a: usize, size: usize) -> bool {
    &&& post.name == pre.name
    &&& post.start == pre.start
    &&& post.extent == pre.extent
    &&& post.movable == pre.movable
    &&& post.contiguous == pre.contiguous
    &&& post.zeroed == pre.zeroed
    &&& post.protected == pre.protected
    &&& post.pr.total == pre.pr.total
    &&& post.pr.pending == 0
    &&& post.cursor == a - pre.start + size
    &&& post.pr.committed == spec_bytes_to_pages(post.cursor)
}

} // verus!
