//! `LargeObjectSpace`: page-granular allocation for large objects.  Objects
//! never move; a trace marks them live, and liveness is read off the mark
//! bit.

use crate::copyspace::{all_words_published, table_evolves};
use crate::layout::ObjectReference;
use crate::object_model::ObjectTable;
use crate::space::CommonSpace;
use vstd::prelude::*;

verus! {

/// A non-moving space for large objects, with a flipping mark state.
#[derive(Clone, Copy, Debug)]
pub struct LargeObjectSpace {
    pub common: CommonSpace,
    /// The value of the mark bit that means "seen in the current trace".
    pub mark_state: bool,
}

impl LargeObjectSpace {
    pub open spec fn wf(self) -> bool {
        &&& self.common.wf()
        &&& self.common.pr.pending == 0
    }

    pub open spec fn spec_in_space(self, addr: usize) -> bool {
        self.common.spec_in_range(addr)
    }

    /// A fresh large-object space over `[start, start + extent)`.
    pub fn new(name: &'static str, zeroed: bool, start: usize, extent: usize) -> (r:
        LargeObjectSpace)
        requires
            crate::layout::HEAP_START <= start,
            start + extent <= crate::layout::HEAP_END,
            extent as int % (crate::layout::BYTES_IN_PAGE as int) == 0,
        ensures
            r.wf(),
            r.common.name == name,
            r.common.start == start,
            r.common.extent == extent,
            r.common.cursor == 0,
            r.common.pr.spec_reserved() == 0,
    {
        LargeObjectSpace {
            common: CommonSpace::new(name, start, extent, false, false, zeroed),
            mark_state: true,
        }
    }

    pub fn in_space(&self, object: ObjectReference) -> (r: bool)
        ensures
            r == self.spec_in_space(object.0),
    {
        self.common.in_space(object)
    }

    /// Flip the meaning of the mark bit for the coming trace.
    pub fn prepare(&mut self)
        requires
            old(self).wf(),
        ensures
            final(self).wf(),
            final(self).common == old(self).common,
            final(self).mark_state == !old(self).mark_state,
    {
        self.mark_state = !self.mark_state;
    }

    /// A large object is live when the current trace has marked it.
    pub fn is_live(&self, heap: &ObjectTable, object: ObjectReference) -> (r: bool)
        requires
            heap.wf(),
        ensures
            r == (heap.spec_has(object.0) && heap.spec_at(object.0).mark == self.mark_state),
    {
        let found = heap.find_unique(object.0);
        match found {
            Some(i) => heap.objs[i].mark == self.mark_state,
            None => false,
        }
    }

    /// Large objects never move.
    pub fn is_movable(&self) -> (r: bool)
        ensures
            !r,
    {
        false
    }

    /// The marking trace: return the object unchanged, and on first visit
    /// set its mark bit and enqueue it for scanning.
    pub fn trace_object(
        &self,
        heap: &mut ObjectTable,
        scan_queue: &mut Vec<usize>,
        object: ObjectReference,
    ) -> (r: ObjectReference)
        requires
            old(heap).wf(),
            self.wf(),
            object.0 != 0 ==> self.spec_in_space(object.0) && old(heap).spec_has(object.0),
        ensures
            final(heap).wf(),
            r == object,
            table_evolves(*old(heap), *final(heap)),
            final(heap).objs@.len() == old(heap).objs@.len(),
            all_words_published(*old(heap)) ==> all_words_published(*final(heap)),
            forall|k: int|
                0 <= k < old(heap).objs.len() ==> (#[trigger] final(heap).objs[k]).forwarding == (
                #[trigger] old(heap).objs[k]).forwarding,
            object.0 != 0 ==> {
                &&& final(heap).spec_has(object.0)
                &&& final(heap).spec_at(object.0).mark == self.mark_state
                &&& (final(scan_queue)@ == old(scan_queue)@ || final(scan_queue)@ == old(
                    scan_queue,
                )@.push(object.0))
            },
            object.0 == 0 ==> final(heap).objs@ == old(heap).objs@ && final(scan_queue)@ == old(
                scan_queue,
            )@,
    {
        if object.is_null() {
            return object;
        }
        let found = heap.find_unique(object.value());
        match found {
            Some(idx) => {
                if heap.objs[idx].mark != self.mark_state {
                    heap.objs[idx].mark = self.mark_state;
                    scan_queue.push(object.value());
                    proof {
                        heap.lemma_index_unique(object.0, idx as int);
                    }
                } else {
                    proof {
                        heap.lemma_index_unique(object.0, idx as int);
                        assert(heap.objs@ =~= old(heap).objs@);
                    }
                }
                object
            },
            None => {
                proof {
                    assert(false);
                }
                object
            },
        }
    }

    /// Sweep the space: free, per the mark bits, every large object the
    /// last trace did not reach.  Survivors keep their address, size,
    /// payload, slots and word.  The monotone page resource keeps the
    /// space's pages for reuse; the freed identities are gone.
    #[verifier::rlimit(40)]
    pub fn sweep(&self, heap: &mut ObjectTable)
        requires
            self.wf(),
            old(heap).wf(),
        ensures
            final(heap).wf(),
            spec_swept(*self, *old(heap), *final(heap)),
    {
        let n = heap.objs.len();
        let mut kept: Vec<crate::object_model::HeapObject> = Vec::new();
        let mut i: usize = 0;
        while i < n
            invariant
                n == heap.objs@.len(),
                old(heap).objs@ == heap.objs@,
                old(heap).wf(),
                self.wf(),
                i <= n,
                forall|j: int|
                    0 <= j < kept@.len() ==> !(self.common.spec_in_range(
                        (#[trigger] kept@[j]).addr,
                    ) && kept@[j].mark != self.mark_state),
                forall|j: int|
                    0 <= j < kept@.len() ==> exists|k: int|
                        0 <= k < i && crate::object_model::obj_like(
                            old(heap).objs@[k],
                            #[trigger] kept@[j],
                        ),
                forall|k: int|
                    0 <= k < i && !(self.common.spec_in_range(
                        (#[trigger] old(heap).objs@[k]).addr,
                    ) && old(heap).objs@[k].mark != self.mark_state) ==> exists|j: int|
                        0 <= j < kept@.len() && crate::object_model::obj_like(
                            kept@[j],
                            old(heap).objs@[k],
                        ),
                forall|j1: int, j2: int|
                    0 <= j1 < j2 < kept@.len() ==> (#[trigger] kept@[j1]).addr != (
                    #[trigger] kept@[j2]).addr,
                forall|j: int| 0 <= j < kept@.len() ==> (#[trigger] kept@[j]).wf(),
            decreases n - i,
        {
            let dead = self.common.in_range(heap.objs[i].addr) && heap.objs[i].mark
                != self.mark_state;
            if !dead {
                let ghost pre_kept = kept@;
                let o = crate::copyspace::clone_object(&heap.objs[i]);
                kept.push(o);
                proof {
                    assert(crate::object_model::obj_like(
                        kept@[kept@.len() - 1],
                        old(heap).objs@[i as int],
                    ));
                    assert forall|j1: int, j2: int| 0 <= j1 < j2 < kept@.len() implies (
                    #[trigger] kept@[j1]).addr != (#[trigger] kept@[j2]).addr by {
                        if j2 == kept@.len() - 1 {
                            let k1 = choose|k: int|
                                0 <= k < i && crate::object_model::obj_like(
                                    old(heap).objs@[k],
                                    pre_kept[j1],
                                );
                            assert(old(heap).objs@[k1].addr != old(heap).objs@[i as int].addr);
                        }
                    }
                    assert forall|k: int|
                        0 <= k < i + 1 && !(self.common.spec_in_range(
                            (#[trigger] old(heap).objs@[k]).addr,
                        ) && old(heap).objs@[k].mark != self.mark_state) implies exists|j: int|
                        0 <= j < kept@.len() && crate::object_model::obj_like(
                            kept@[j],
                            old(heap).objs@[k],
                        ) by {
                        if k == i {
                            assert(crate::object_model::obj_like(
                                kept@[kept@.len() - 1],
                                old(heap).objs@[k],
                            ));
                        } else {
                            let j = choose|j: int|
                                0 <= j < pre_kept.len() && crate::object_model::obj_like(
                                    pre_kept[j],
                                    old(heap).objs@[k],
                                );
                            assert(crate::object_model::obj_like(kept@[j], old(heap).objs@[k]));
                        }
                    }
                }
            } else {
                proof {
                    assert forall|k: int|
                        0 <= k < i + 1 && !(self.common.spec_in_range(
                            (#[trigger] old(heap).objs@[k]).addr,
                        ) && old(heap).objs@[k].mark != self.mark_state) implies exists|j: int|
                        0 <= j < kept@.len() && crate::object_model::obj_like(
                            kept@[j],
                            old(heap).objs@[k],
                        ) by {
                        if k < i {
                            let j = choose|j: int|
                                0 <= j < kept@.len() && crate::object_model::obj_like(
                                    kept@[j],
                                    old(heap).objs@[k],
                                );
                        }
                    }
                }
            }
            i = i + 1;
        }
        heap.objs = kept;
        proof {
            assert forall|addr: usize|
                old(heap).spec_has(addr) && !(self.common.spec_in_range(addr) && old(
                    heap,
                ).spec_at(addr).mark != self.mark_state) implies {
                &&& #[trigger] heap.spec_has(addr)
                &&& crate::object_model::obj_like(heap.spec_at(addr), old(heap).spec_at(addr))
            } by {
                let k = choose|k: int|
                    0 <= k < old(heap).objs@.len() && (#[trigger] old(heap).objs@[k]).addr == addr;
                old(heap).lemma_index_unique(addr, k);
                let j = choose|j: int|
                    0 <= j < heap.objs@.len() && crate::object_model::obj_like(
                        heap.objs@[j],
                        old(heap).objs@[k],
                    );
                heap.lemma_index_unique(addr, j);
            }
            assert forall|addr: usize| #[trigger] heap.spec_has(addr) implies old(heap).spec_has(
                addr,
            ) && crate::object_model::obj_like(heap.spec_at(addr), old(heap).spec_at(addr)) by {
                let j = heap.spec_index_of(addr);
                let k = choose|k: int|
                    0 <= k < old(heap).objs@.len() && crate::object_model::obj_like(
                        old(heap).objs@[k],
                        heap.objs@[j],
                    );
                old(heap).lemma_index_unique(addr, k);
                heap.lemma_index_unique(addr, j);
            }
        }
    }
}

/// What a sweep leaves behind: everything the space still houses is marked
/// live; every object that was live, or outside this space, survives with
/// all its fields; and nothing else appears.
pub open spec fn spec_swept(los: LargeObjectSpace, pre: ObjectTable, post: ObjectTable) -> bool {
    &&& (forall|k: int|
        0 <= k < post.objs@.len() && los.common.spec_in_range(
            (#[trigger] post.objs@[k]).addr,
        ) ==> post.objs@[k].mark == los.mark_state)
    &&& (forall|addr: usize|
        pre.spec_has(addr) && !(los.common.spec_in_range(addr) && pre.spec_at(addr).mark
            != los.mark_state) ==> {
            &&& #[trigger] post.spec_has(addr)
            &&& crate::object_model::obj_like(post.spec_at(addr), pre.spec_at(addr))
        })
    &&& (forall|addr: usize|
        #[trigger] post.spec_has(addr) ==> pre.spec_has(addr) && crate::object_model::obj_like(
            post.spec_at(addr),
            pre.spec_at(addr),
        ))
}

} // verus!
