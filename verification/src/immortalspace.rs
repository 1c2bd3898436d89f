//! `ImmortalSpace`: holds never-reclaimed objects (runtime metadata, class
//! data).  Objects are marked live during a trace but never move and are
//! never freed; an immortal object's address is stable across any number of
//! collections.

use crate::copyspace::{table_evolves, all_words_published};
use crate::layout::ObjectReference;
use crate::object_model::ObjectTable;
use crate::space::CommonSpace;
use vstd::prelude::*;

verus! {

/// A non-moving, never-reclaimed space with a flipping mark state.
#[derive(Clone, Copy, Debug)]
pub struct ImmortalSpace {
    pub common: CommonSpace,
    /// The value of the mark bit that means "seen in the current trace".
    pub mark_state: bool,
}

impl ImmortalSpace {
    pub open spec fn wf(self) -> bool {
        &&& self.common.wf()
        &&& self.common.pr.pending == 0
    }

    pub open spec fn spec_in_space(self, addr: usize) -> bool {
        self.common.spec_in_range(addr)
    }

    /// A fresh immortal space over `[start, start + extent)`.
    pub fn new(name: &'static str, zeroed: bool, start: usize, extent: usize) -> (r:
        ImmortalSpace)
        requires
            crate::layout::HEAP_START <= start,
            start + extent <= crate::layout::HEAP_END,
            extent as int % (crate::layout::BYTES_IN_PAGE as int) == 0,
        ensures
            r.wf(),
            r.common.name == name,
            r.common.start == start,
            r.common.extent == extent,
            r.common.cursor == 0,
            r.common.pr.spec_reserved() == 0,
    {
        ImmortalSpace {
            common: CommonSpace::new(name, start, extent, false, true, zeroed),
            mark_state: true,
        }
    }

    pub fn in_space(&self, object: ObjectReference) -> (r: bool)
        ensures
            r == self.spec_in_space(object.0),
    {
        self.common.in_space(object)
    }

    /// Flip the meaning of the mark bit for the coming trace, so that every
    /// object starts the trace unmarked.
    pub fn prepare(&mut self)
        requires
            old(self).wf(),
        ensures
            final(self).wf(),
            final(self).common == old(self).common,
            final(self).mark_state == !old(self).mark_state,
    {
        self.mark_state = !self.mark_state;
    }

    /// Objects of an immortal space are always live.
    pub fn is_live(&self, object: ObjectReference) -> (r: bool)
        ensures
            r,
    {
        true
    }

    /// Objects of an immortal space never move.
    pub fn is_movable(&self) -> (r: bool)
        ensures
            !r,
    {
        false
    }

    /// The marking trace of a non-moving space: the object itself is
    /// returned unchanged — an immortal object's address never changes —
    /// and on first visit its mark bit is set and it is enqueued for
    /// scanning.
    pub fn trace_object(
        &self,
        heap: &mut ObjectTable,
        scan_queue: &mut Vec<usize>,
        object: ObjectReference,
    ) -> (r: ObjectReference)
        requires
            old(heap).wf(),
            self.wf(),
            object.0 != 0 ==> self.spec_in_space(object.0) && old(heap).spec_has(object.0),
        ensures
            final(heap).wf(),
            r == object,
            table_evolves(*old(heap), *final(heap)),
            final(heap).objs@.len() == old(heap).objs@.len(),
            all_words_published(*old(heap)) ==> all_words_published(*final(heap)),
            forall|k: int|
                0 <= k < old(heap).objs.len() ==> (#[trigger] final(heap).objs[k]).forwarding == (
                #[trigger] old(heap).objs[k]).forwarding,
            object.0 != 0 ==> {
                &&& final(heap).spec_has(object.0)
                &&& final(heap).spec_at(object.0).mark == self.mark_state
                &&& (final(scan_queue)@ == old(scan_queue)@ || final(scan_queue)@ == old(
                    scan_queue,
                )@.push(object.0))
            },
            object.0 == 0 ==> final(heap).objs@ == old(heap).objs@ && final(scan_queue)@ == old(
                scan_queue,
            )@,
    {
        if object.is_null() {
            return object;
        }
        let found = heap.find_unique(object.value());
        match found {
            Some(idx) => {
                if heap.objs[idx].mark != self.mark_state {
                    heap.objs[idx].mark = self.mark_state;
                    scan_queue.push(object.value());
                    proof {
                        heap.lemma_index_unique(object.0, idx as int);
                    }
                } else {
                    proof {
                        heap.lemma_index_unique(object.0, idx as int);
                        assert(heap.objs@ =~= old(heap).objs@);
                    }
                }
                object
            },
            None => {
                proof {
                    assert(false);
                }
                object
            },
        }
    }
}

} // verus!
