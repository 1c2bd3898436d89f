//! The collection driver: the controller's choreography of one
//! stop-the-world collection over the generational plan.
//!
//! A collection prepares the spaces (flipping the copy halves on a
//! full-heap cycle), seeds the closure with the root edges and, on a
//! nursery cycle, the write barrier's buffers, drains the closure bucket,
//! scans the reference tables, and releases the collected halves.

use crate::errors::GcError;
use crate::gc_works::{
    space_empty, GenCopyMatureProcessEdges, GenCopyNurseryProcessEdges, GenCopyProcessModBuf,
    Slot,
};
use crate::gencopy::GenCopy;
use crate::object_model::ObjectTable;
use crate::reference_processor::ReferenceProcessors;
use crate::scheduler::{ControllerState, Scheduler, WorkPacket};
use vstd::prelude::*;

verus! {

/// Saturating addition, for work budgets.
fn sat_add(a: usize, b: usize) -> (r: usize)
    ensures
        r >= a,
        r >= b,
{
    if a <= usize::MAX - b {
        a + b
    } else {
        usize::MAX
    }
}

/// A work budget that covers any closure over the current heap: every
/// object is copied at most once, every packet either retires an edge
/// queue or scans freshly copied objects, so packets are bounded by a small
/// multiple of the object count.
pub fn compute_fuel(heap: &ObjectTable, roots_len: usize, extra: usize) -> (r: usize) {
    let n = heap.len();
    let scaled: usize = if n <= usize::MAX / 8 {
        8 * n
    } else {
        usize::MAX
    };
    sat_add(sat_add(sat_add(64, roots_len), extra), scaled)
}

/// Every object outside the collected halves survives untouched: an
/// address outside the nursery, outside the half a full cycle evacuates and
/// outside the (empty) fromspace keeps its object, with the same size and
/// the same payload bytes.
pub open spec fn survivors_preserved(
    pre_plan: GenCopy,
    pre_heap: ObjectTable,
    post_heap: ObjectTable,
    full: bool,
) -> bool {
    forall|addr: usize|
        pre_heap.spec_has(addr) && !pre_plan.nursery.spec_in_space(addr) && !(full
            && pre_plan.spec_tospace().spec_in_space(addr))
            && !pre_plan.spec_fromspace().spec_in_space(addr) ==> {
            &&& #[trigger] post_heap.spec_has(addr)
            &&& post_heap.spec_at(addr).size == pre_heap.spec_at(addr).size
            &&& post_heap.spec_at(addr).payload@ == pre_heap.spec_at(addr).payload@
        }
}


/// What one scanned referent may become, seen from the collection's entry
/// state: a null referent stays null; a referent outside the collected
/// halves is kept as is; a referent of a collected half is cleared or
/// moved to its copy in the collection's destination half.
pub open spec fn scan_value_ok(
    pre_plan: GenCopy,
    v0: usize,
    v: usize,
    full: bool,
) -> bool {
    &&& (v0 == 0 ==> v == 0)
    &&& (v0 != 0 && !pre_plan.nursery.spec_in_space(v0) && !(full
        && pre_plan.spec_tospace().spec_in_space(v0)) ==> v == v0)
    &&& (v == 0 || v == v0 || (if full {
        pre_plan.spec_fromspace().spec_in_space(v)
    } else {
        pre_plan.spec_tospace().spec_in_space(v)
    }))
}

/// The whole effect of the release-phase reference scan, table by table:
/// lengths and reference objects are kept, every referent obeys
/// `scan_value_ok`, and the enqueued list only grows.
pub open spec fn spec_tables_scanned(
    pre_plan: GenCopy,
    pre: ReferenceProcessors,
    post: ReferenceProcessors,
    full: bool,
) -> bool {
    &&& post.soft@.len() == pre.soft@.len()
    &&& post.weak@.len() == pre.weak@.len()
    &&& post.phantom@.len() == pre.phantom@.len()
    &&& post.enqueued@.len() >= pre.enqueued@.len()
    &&& (forall|i: int|
        0 <= i < pre.enqueued@.len() ==> #[trigger] post.enqueued@[i] == pre.enqueued@[i])
    &&& (forall|i: int|
        0 <= i < pre.soft@.len() ==> (#[trigger] post.soft@[i]).reff == pre.soft@[i].reff
            && scan_value_ok(pre_plan, pre.soft@[i].referent, post.soft@[i].referent, full))
    &&& (forall|i: int|
        0 <= i < pre.weak@.len() ==> (#[trigger] post.weak@[i]).reff == pre.weak@[i].reff
            && scan_value_ok(pre_plan, pre.weak@[i].referent, post.weak@[i].referent, full))
    &&& (forall|i: int|
        0 <= i < pre.phantom@.len() ==> (#[trigger] post.phantom@[i]).reff == pre.phantom@[i].reff
            && scan_value_ok(pre_plan, pre.phantom@[i].referent, post.phantom@[i].referent, full))
}

/// Run one stop-the-world collection.  On success the heap is quiescent
/// again: the collected halves are empty with no pages reserved, every
/// surviving word is unforwarded, and every object outside the collected
/// halves keeps its address, size and payload.  On failure the collection
/// stays marked in progress: the instance is wedged and the embedder's
/// out-of-memory handling decides.
#[verifier::rlimit(100)]
pub fn collect(
    plan: &mut GenCopy,
    heap: &mut ObjectTable,
    roots: &mut Vec<usize>,
    sched: &mut Scheduler,
    refproc: &mut ReferenceProcessors,
    modbuf_nodes: Vec<usize>,
    modbuf_edges: Vec<Slot>,
    full: bool,
) -> (r: Result<(), GcError>)
    requires
        old(plan).wf(),
        old(plan).common.initialized,
        !old(plan).common.gc_in_progress,
        old(plan).common.gc_count < usize::MAX,
        old(heap).wf(),
        GenCopy::quiescent(*old(heap)),
        old(plan).all_bounded(*old(heap)),
        !old(plan).nursery.from_space,
        !old(plan).copyspace0.from_space,
        !old(plan).copyspace1.from_space,
        space_empty(*old(heap), old(plan).spec_fromspace()),
    ensures
        final(plan).wf(),
        final(heap).wf(),
        final(plan).common.initialized,
        final(roots)@.len() == old(roots)@.len(),
        r is Ok ==> GenCopy::quiescent(*final(heap)),
        r is Ok ==> final(plan).all_bounded(*final(heap)),
        r is Ok ==> !final(plan).nursery.from_space && !final(plan).copyspace0.from_space
            && !final(plan).copyspace1.from_space,
        r is Ok ==> space_empty(*final(heap), final(plan).spec_fromspace()),
        r is Ok ==> !final(plan).common.gc_in_progress,
        r is Ok ==> final(plan).common.gc_count == old(plan).common.gc_count + 1,
        r is Ok ==> final(plan).nursery.common.pr.spec_reserved() == 0,
        r is Ok ==> final(plan).nursery.common.cursor == 0,
        r is Ok && full ==> final(plan).spec_fromspace().common.cursor == 0,
        r is Ok && !full ==> final(plan).spec_fromspace() == old(plan).spec_fromspace(),
        r is Ok && full ==> final(plan).spec_fromspace().common.pr.spec_reserved() == 0,
        r is Ok && full ==> final(plan).hi == !old(plan).hi,
        r is Ok && !full ==> final(plan).hi == old(plan).hi,
        r is Ok ==> survivors_preserved(*old(plan), *old(heap), *final(heap), full),
        r is Ok ==> forall|ri: int|
            0 <= ri < final(roots)@.len() ==> crate::gc_works::ref_clear(
                *final(plan),
                final(roots)@[ri],
            ),
        // the reference tables were scanned, soft then weak then phantom
        r is Ok ==> spec_tables_scanned(*old(plan), *old(refproc), *final(refproc), full),
        // every root's successor: a null root stays null; a root that
        // named an object at the start names an object with the same size
        // and the same payload bytes at the end
        r is Ok ==> forall|ri: int|
            0 <= ri < final(roots)@.len() ==> crate::gc_works::root_successor_ok(
                *old(heap),
                old(roots)@[ri],
                *final(heap),
                final(roots)@[ri],
            ),
        r is Err ==> final(plan).common.gc_in_progress,
        r is Err ==> final(plan).common.gc_count == old(plan).common.gc_count,
        // a failed collection is recognizably mid-pause: the nursery is in
        // its collected role, and an out-of-memory failure names a real
        // survivor the tospace cannot take
        r is Err ==> final(plan).nursery.from_space,
        r is Err && r->Err_0 == GcError::OutOfMemory ==> crate::gc_works::unfit_survivor(
            *final(plan),
            *final(heap),
        ),
        // a failure is one of: the tospace filled during copying, an edge
        // held a non-reference, or the work budget ran out
        r is Err ==> r->Err_0 == GcError::OutOfMemory || r->Err_0 == GcError::InvalidReference
            || r->Err_0 == GcError::Incomplete,
{
    let ghost plan0 = *plan;
    let ghost heap0 = *heap;
    plan.common.gc_in_progress = true;
    plan.in_nursery_gc = !full;
    sched.state = ControllerState::Preparing;
    if full {
        plan.flip_roles();
        if plan.hi {
            plan.copyspace0.prepare(true);
        } else {
            plan.copyspace1.prepare(true);
        }
        plan.immortal.prepare();
        plan.los.prepare();
        plan.vm_space.prepare();
    }
    plan.nursery.prepare(true);
    proof {
        plan.lemma_quiescent_inv(*heap);
    }
    let mut root_edges: Vec<Slot> = Vec::new();
    let nroots = roots.len();
    let mut i: usize = 0;
    while i < nroots
        invariant
            i <= nroots,
            root_edges@.len() == i,
            forall|j: int|
                0 <= j < i ==> #[trigger] root_edges@[j] == (Slot::Root { index: j as usize }),
        decreases nroots - i,
    {
        root_edges.push(Slot::Root { index: i });
        i = i + 1;
    }
    sched.state = ControllerState::Closure;
    let n_mod = modbuf_nodes.len();
    let n_edges_mod = modbuf_edges.len();
    let fuel = compute_fuel(heap, nroots, sat_add(n_mod, n_edges_mod));
    let ghost root_slots = root_edges@;
    // the roots packet runs first; what it spawns, and on a nursery cycle
    // the barrier's buffers, drain through the closure bucket
    let drained: Result<(), GcError> = if full {
        let root_packet = GenCopyMatureProcessEdges::new(root_edges, true);
        let worked = root_packet.do_work(plan, heap, roots);
        match worked {
            Ok(nodes) => {
                sched.credit_packet();
                sched.credit_edges(nroots);
                if nodes.len() > 0 {
                    sched.closure_stage.add(
                        WorkPacket::Scan(crate::gc_works::ScanObjectsPacket::new(nodes)),
                    );
                }
                let ghost heap_mid = *heap;
                let ghost plan_mid = *plan;
                let ghost roots_mid = roots@;
                let d = sched.drain_closure_full(plan, heap, roots, fuel);
                proof {
                    crate::gc_works::lemma_loose_trans(heap0, heap_mid, *heap);
                    assert forall|ri: int|
                        0 <= ri < old(roots)@.len()
                            implies crate::gc_works::root_successor_ok(
                            heap0,
                            old(roots)@[ri],
                            *heap,
                            roots@[ri],
                        ) by {
                        crate::gc_works::lemma_successor_trans(
                            heap0,
                            old(roots)@[ri],
                            heap_mid,
                            roots_mid[ri],
                            *heap,
                            roots@[ri],
                        );
                    }
                    assert forall|k: int|
                        heap0.objs@.len() <= k < heap.objs@.len()
                            implies plan.spec_tospace().common.spec_in_range(
                            (#[trigger] heap.objs@[k]).addr,
                        ) by {
                        if k < heap_mid.objs@.len() {
                            assert(heap.objs@[k].addr == heap_mid.objs@[k].addr);
                            assert(plan_mid.spec_tospace().common.spec_in_range(
                                heap_mid.objs@[k].addr,
                            ));
                        }
                    }
                }
                d
            },
            Err(e) => Err(e),
        }
    } else {
        sched.closure_stage.add(
            WorkPacket::ModBuf(
                GenCopyProcessModBuf { modified_nodes: modbuf_nodes, modified_edges: modbuf_edges },
            ),
        );
        let root_packet = GenCopyNurseryProcessEdges::new(root_edges, true);
        let worked = root_packet.do_work(plan, heap, roots);
        match worked {
            Ok(nodes) => {
                sched.credit_packet();
                sched.credit_edges(nroots);
                if nodes.len() > 0 {
                    sched.closure_stage.add(
                        WorkPacket::Scan(crate::gc_works::ScanObjectsPacket::new(nodes)),
                    );
                }
                let ghost heap_mid = *heap;
                let ghost plan_mid = *plan;
                let ghost roots_mid = roots@;
                let d = sched.drain_closure_nursery(plan, heap, roots, fuel);
                proof {
                    crate::gc_works::lemma_loose_trans(heap0, heap_mid, *heap);
                    assert forall|ri: int|
                        0 <= ri < old(roots)@.len()
                            implies crate::gc_works::root_successor_ok(
                            heap0,
                            old(roots)@[ri],
                            *heap,
                            roots@[ri],
                        ) by {
                        crate::gc_works::lemma_successor_trans(
                            heap0,
                            old(roots)@[ri],
                            heap_mid,
                            roots_mid[ri],
                            *heap,
                            roots@[ri],
                        );
                    }
                    assert forall|k: int|
                        heap0.objs@.len() <= k < heap.objs@.len()
                            implies plan.spec_tospace().common.spec_in_range(
                            (#[trigger] heap.objs@[k]).addr,
                        ) by {
                        if k < heap_mid.objs@.len() {
                            assert(heap.objs@[k].addr == heap_mid.objs@[k].addr);
                            assert(plan_mid.spec_tospace().common.spec_in_range(
                                heap_mid.objs@[k].addr,
                            ));
                        }
                    }
                }
                d
            },
            Err(e) => Err(e),
        }
    };
    match drained {
        Ok(u) => {},
        Err(e) => {
            return Err(e);
        },
    }
    proof {
        // after the closure every root slot holds a clear reference: the
        // roots packet wrote one back into each, and every later write-back
        // was clear too
        assert forall|ri: int| 0 <= ri < roots@.len() implies crate::gc_works::ref_clear(
            *plan,
            roots@[ri],
        ) by {
            assert(root_slots[ri] == (Slot::Root { index: ri as usize }));
        }
    }
    sched.state = ControllerState::Releasing;
    refproc.scan_soft_refs(plan, heap);
    refproc.scan_weak_refs(plan, heap);
    refproc.scan_phantom_refs(plan, heap);
    let ghost plan2 = *plan;
    let ghost heap2 = *heap;
    plan.nursery.release(heap);
    let ghost heap3 = *heap;
    if full {
        if plan.hi {
            plan.copyspace0.release(heap);
        } else {
            plan.copyspace1.release(heap);
        }
    }
    let ghost heap4 = *heap;
    plan.common.gc_count = plan.common.gc_count + 1;
    plan.common.gc_in_progress = false;
    sched.state = ControllerState::Idle;
    proof {
        // every root's successor survives the releases: the closure left it
        // clear of both collected halves, whose releases are all that
        // removes objects
        assert forall|ri: int|
            0 <= ri < roots@.len() implies crate::gc_works::root_successor_ok(
            heap0,
            old(roots)@[ri],
            *heap,
            roots@[ri],
        ) by {
            let v0 = old(roots)@[ri];
            let v = roots@[ri];
            if v0 != 0 && heap0.spec_has(v0) {
                assert(heap2.spec_has(v));
                assert(crate::gc_works::ref_clear(plan2, v));
                assert(v != 0);
                assert(!plan2.nursery.common.spec_in_range(v));
                assert(!plan2.spec_fromspace().common.spec_in_range(v));
                assert(heap2.spec_has(v) && !plan2.nursery.common.spec_in_range(v));
                assert(heap3.spec_has(v));
                assert(obj_like_of(heap3.spec_at(v), heap2.spec_at(v)));
                if full {
                    assert(heap4.spec_has(v));
                    assert(obj_like_of(heap4.spec_at(v), heap3.spec_at(v)));
                }
            }
        }
        // every survivor sits outside both collected halves, so by the
        // collector's invariant its word is unforwarded
        assert forall|k: int| 0 <= k < heap.objs@.len() implies (
        #[trigger] heap.objs@[k]).forwarding
            == crate::forwarding_word::ForwardingState::Unforwarded by {
            let addr = heap.objs@[k].addr;
            heap.lemma_index_unique(addr, k);
            if full {
                assert(heap3.spec_has(addr) && obj_like_of(heap4.spec_at(addr), heap3.spec_at(addr)));
                let k3 = heap3.spec_index_of(addr);
                assert(!plan2.nursery.common.spec_in_range(heap3.objs@[k3].addr));
                assert(heap2.spec_has(addr) && obj_like_of(heap3.spec_at(addr), heap2.spec_at(addr)));
            } else {
                assert(heap2.spec_has(addr) && obj_like_of(heap3.spec_at(addr), heap2.spec_at(addr)));
            }
            let k2 = heap2.spec_index_of(addr);
            assert(heap2.objs@[k2].addr == addr);
            assert(!plan2.nursery.spec_in_space(addr));
            assert(!plan2.spec_fromspace().spec_in_space(addr));
            assert(heap2.objs@[k2].forwarding
                == crate::forwarding_word::ForwardingState::Unforwarded);
        }
        // survivors keep their address, size and payload
        assert forall|addr: usize|
            heap0.spec_has(addr) && !plan0.nursery.spec_in_space(addr) && !(full
                && plan0.spec_tospace().spec_in_space(addr)) && !plan0.spec_fromspace().spec_in_space(
                addr,
            ) implies {
            &&& #[trigger] heap.spec_has(addr)
            &&& heap.spec_at(addr).size == heap0.spec_at(addr).size
            &&& heap.spec_at(addr).payload@ == heap0.spec_at(addr).payload@
        } by {
            crate::gc_works::lemma_loose_preserves_lookup(heap0, heap2, addr);
            assert(heap3.spec_has(addr) && obj_like_of(heap3.spec_at(addr), heap2.spec_at(addr)));
            if full {
                let k3 = heap3.spec_index_of(addr);
                assert(heap3.objs@[k3].addr == addr);
                assert(heap4.spec_has(addr) && obj_like_of(heap4.spec_at(addr), heap3.spec_at(addr)));
            }
        }
        // the collected halves are empty and every object stays below its
        // space's cursor
        assert forall|k: int| 0 <= k < heap.objs@.len() implies {
            let o = #[trigger] heap.objs@[k];
            &&& !plan.nursery.common.spec_in_range(o.addr)
            &&& !plan.spec_fromspace().common.spec_in_range(o.addr)
            &&& o.addr + o.size <= bound_of(*plan, *heap, k)
        } by {
            let addr = heap.objs@[k].addr;
            heap.lemma_index_unique(addr, k);
            if full {
                assert(heap3.spec_has(addr) && obj_like_of(heap4.spec_at(addr), heap3.spec_at(addr)));
                let k3 = heap3.spec_index_of(addr);
                assert(!plan2.nursery.common.spec_in_range(heap3.objs@[k3].addr));
                assert(heap2.spec_has(addr) && obj_like_of(heap3.spec_at(addr), heap2.spec_at(addr)));
            } else {
                assert(heap2.spec_has(addr) && obj_like_of(heap3.spec_at(addr), heap2.spec_at(addr)));
            }
            let k2 = heap2.spec_index_of(addr);
            assert(heap2.objs@[k2].addr == addr);
            let o2 = heap2.objs@[k2];
            if k2 < heap0.objs@.len() {
                assert(heap0.objs@[k2].addr == o2.addr && heap0.objs@[k2].size == o2.size);
            } else {
                assert(plan2.spec_tospace().common.spec_in_range(o2.addr));
            }
        }
    }
    Ok(())
}

/// Field-wise object agreement, as the release of a space promises it.
pub open spec fn obj_like_of(a: crate::object_model::HeapObject, b: crate::object_model::HeapObject) -> bool {
    crate::object_model::obj_like(a, b)
}

/// The cursor line of the space housing the `k`th object.
pub open spec fn bound_of(plan: GenCopy, heap: ObjectTable, k: int) -> int {
    let a = heap.objs@[k].addr;
    if plan.vm_space.common.spec_in_range(a) {
        plan.vm_space.common.start + plan.vm_space.common.cursor
    } else if plan.immortal.common.spec_in_range(a) {
        plan.immortal.common.start + plan.immortal.common.cursor
    } else if plan.los.common.spec_in_range(a) {
        plan.los.common.start + plan.los.common.cursor
    } else if plan.nursery.common.spec_in_range(a) {
        plan.nursery.common.start + plan.nursery.common.cursor
    } else if plan.copyspace0.common.spec_in_range(a) {
        plan.copyspace0.common.start + plan.copyspace0.common.cursor
    } else if plan.copyspace1.common.spec_in_range(a) {
        plan.copyspace1.common.start + plan.copyspace1.common.cursor
    } else {
        a + heap.objs@[k].size
    }
}


/// One collection's effect on an address outside every moving space: if an
/// object sits there, it still does afterwards, with the same size and
/// payload.  This is exactly what `collect` promises of such addresses.
pub open spec fn step_preserves_at(pre: ObjectTable, post: ObjectTable, addr: usize) -> bool {
    pre.spec_has(addr) ==> {
        &&& post.spec_has(addr)
        &&& post.spec_at(addr).size == pre.spec_at(addr).size
        &&& post.spec_at(addr).payload@ == pre.spec_at(addr).payload@
    }
}

/// An object of a non-moving space — the immortal, VM-reserved or
/// large-object space — keeps its address, size and payload across any
/// number of collections: along any chain of heaps in which every step
/// preserves the address (as every collection does for addresses outside
/// the collected halves), the first and last heap agree on it.
pub proof fn lemma_immortal_address_stable(chain: Seq<ObjectTable>, addr: usize)
    requires
        chain.len() >= 1,
        forall|i: int|
            0 <= i < chain.len() - 1 ==> step_preserves_at(
                #[trigger] chain[i],
                chain[i + 1],
                addr,
            ),
        chain[0].spec_has(addr),
    ensures
        chain[chain.len() - 1].spec_has(addr),
        chain[chain.len() - 1].spec_at(addr).size == chain[0].spec_at(addr).size,
        chain[chain.len() - 1].spec_at(addr).payload@ == chain[0].spec_at(addr).payload@,
    decreases chain.len(),
{
    if chain.len() > 1 {
        assert(step_preserves_at(chain[0], chain[1], addr));
        let tail = chain.subrange(1, chain.len() as int);
        assert forall|i: int|
            0 <= i < tail.len() - 1 implies step_preserves_at(
            #[trigger] tail[i],
            tail[i + 1],
            addr,
        ) by {
            assert(tail[i] == chain[i + 1]);
            assert(tail[i + 1] == chain[i + 2]);
            assert(step_preserves_at(chain[i + 1], chain[i + 2], addr));
        }
        lemma_immortal_address_stable(tail, addr);
        assert(tail[tail.len() - 1] == chain[chain.len() - 1]);
    }
}

} // verus!
