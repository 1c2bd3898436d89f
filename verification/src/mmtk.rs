//! The top-level instance: one plan, one scheduler, one set of reference
//! processors, one options record, the model heap and root table, and the
//! runtime's thread-control state.

use crate::collection::collect;
use crate::errors::{AllocError, GcError};
use crate::gc_works::{space_empty, Slot};
use crate::gencopy::GenCopy;
use crate::layout::{Address, BYTES_IN_PAGE, HEAP_END, HEAP_START};
use crate::mutator::Mutator;
use crate::nogc::NoGC;
use crate::object_model::ObjectTable;
use crate::options::Options;
use crate::reference_processor::ReferenceProcessors;
use crate::scheduler::Scheduler;
use crate::vm::VMCollection;
use vstd::prelude::*;

verus! {

/// The plan an instance runs: the no-op plan or the generational copying
/// plan.
pub enum SelectedPlan {
    NoGC(NoGC),
    GenCopy(GenCopy),
}

/// One memory-management instance.
pub struct MMTK {
    pub plan: SelectedPlan,
    pub heap: ObjectTable,
    /// The runtime's root slots.
    pub roots: Vec<usize>,
    pub scheduler: Scheduler,
    pub reference_processors: ReferenceProcessors,
    pub options: Options,
    pub mutators: Vec<Mutator>,
    pub collection: VMCollection,
    pub inside_harness: bool,
    /// Bytes requested from the allocator since the last stress-driven
    /// collection; drives the `stress_factor` cadence.
    pub stress_allocated: usize,
}

impl MMTK {
    /// The instance invariant: the heap table is well formed, the plan is,
    /// every object sits below its space's cursor, and between collections
    /// no word is forwarded, no space is in the fromspace role, and the
    /// fromspace half is empty.
    pub open spec fn wf(self) -> bool {
        &&& self.heap.wf()
        &&& match self.plan {
            SelectedPlan::NoGC(p) => {
                &&& p.wf()
                &&& p.all_bounded(self.heap)
                &&& GenCopy::quiescent(self.heap)
            },
            SelectedPlan::GenCopy(g) => {
                &&& g.wf()
                &&& (!g.common.gc_in_progress ==> {
                    &&& GenCopy::quiescent(self.heap)
                    &&& g.all_bounded(self.heap)
                    &&& !g.nursery.from_space
                    &&& !g.copyspace0.from_space
                    &&& !g.copyspace1.from_space
                    &&& space_empty(self.heap, g.spec_fromspace())
                    &&& g.spec_fromspace().common.cursor == 0
                })
            },
        }
    }

    /// Is the instance initialized?
    pub open spec fn spec_initialized(self) -> bool {
        match self.plan {
            SelectedPlan::NoGC(p) => p.common.initialized,
            SelectedPlan::GenCopy(g) => g.common.initialized,
        }
    }

    /// Completed collections.
    pub open spec fn spec_gc_count(self) -> int {
        match self.plan {
            SelectedPlan::NoGC(p) => p.common.gc_count as int,
            SelectedPlan::GenCopy(g) => g.common.gc_count as int,
        }
    }

    /// A fresh, uninitialized instance over the chosen plan.
    pub fn new(options: Options, gencopy: bool) -> (r: MMTK)
        ensures
            r.wf(),
            !r.spec_initialized(),
            r.spec_gc_count() == 0,
            r.options == options,
            r.roots@.len() == 0,
            r.heap.objs@.len() == 0,
            r.mutators@.len() == 0,
            gencopy <==> r.plan is GenCopy,
            r.reference_processors.soft@.len() == 0,
            r.reference_processors.weak@.len() == 0,
            r.reference_processors.phantom@.len() == 0,
            r.reference_processors.enqueued@.len() == 0,
            !r.inside_harness,
            !r.spec_gc_in_progress(),
            !r.spec_collection_enabled(),
            r.scheduler.num_workers == 0,
            r.collection.threads@.len() == 0,
    {
        let plan = if gencopy {
            SelectedPlan::GenCopy(GenCopy::new())
        } else {
            SelectedPlan::NoGC(NoGC::new())
        };
        MMTK {
            plan,
            heap: ObjectTable::new(),
            roots: Vec::new(),
            scheduler: Scheduler::new(),
            reference_processors: ReferenceProcessors::new(),
            options,
            mutators: Vec::new(),
            collection: VMCollection::new(),
            inside_harness: false,
            stress_allocated: 0,
        }
    }

    /// One-time initialization: lay the spaces out for a heap of
    /// `heap_size` bytes (with the given nursery size under the
    /// generational plan).  Returns false, changing nothing, when the
    /// instance is already initialized: the one-time check is enforced.
    pub fn gc_init(&mut self, heap_size: usize, nursery_size: usize) -> (r: bool)
        requires
            old(self).wf(),
            heap_size as int % (BYTES_IN_PAGE as int) == 0,
            nursery_size as int % (BYTES_IN_PAGE as int) == 0,
            BYTES_IN_PAGE <= nursery_size,
            2 * nursery_size <= heap_size,
            8 * BYTES_IN_PAGE <= heap_size,
            HEAP_START + crate::nogc::VM_SPACE_EXTENT + heap_size <= HEAP_END,
            old(self).heap.objs@.len() == 0,
        ensures
            final(self).wf(),
            r == !old(self).spec_initialized(),
            r ==> final(self).spec_initialized(),
            !r ==> *final(self) == *old(self),
            final(self).heap.objs@.len() == 0,
            final(self).roots@ == old(self).roots@,
            final(self).spec_gc_count() == old(self).spec_gc_count(),
            // the layout effect: the budget is exactly the requested heap
            // size (the extents sum to it), nothing is committed or
            // reserved yet, and under the generational plan the nursery has
            // exactly the asked size
            r ==> final(self).spec_total_pages() == crate::layout::spec_bytes_to_pages(heap_size),
            r ==> final(self).spec_total_pages() * BYTES_IN_PAGE == heap_size,
            r ==> final(self).spec_pages_committed() == 0 && final(self).spec_pages_reserved()
                == 0,
            r && final(self).plan is GenCopy
                ==> final(self).plan->GenCopy_0.nursery.common.extent == nursery_size,
    {
        match &mut self.plan {
            SelectedPlan::NoGC(p) => {
                if p.common.initialized {
                    return false;
                }
                p.gc_init(heap_size);
                true
            },
            SelectedPlan::GenCopy(g) => {
                if g.common.initialized {
                    return false;
                }
                g.gc_init(heap_size, nursery_size);
                true
            },
        }
    }

    /// Attach a VM thread: create its mutator and register the thread.
    pub fn bind_mutator(&mut self, tls: usize) -> (r: usize)
        requires
            old(self).wf(),
        ensures
            final(self).wf(),
            r == old(self).mutators@.len(),
            final(self).mutators@.len() == old(self).mutators@.len() + 1,
            final(self).mutators@[r as int].tls == tls,
            final(self).mutators@[r as int].modified_nodes@.len() == 0,
            final(self).mutators@[r as int].modified_edges@.len() == 0,
            final(self).heap.objs@ == old(self).heap.objs@,
            final(self).plan == old(self).plan,
            final(self).roots@ == old(self).roots@,
    {
        let id = self.mutators.len();
        self.mutators.push(Mutator::new(tls));
        self.collection.register_thread(tls);
        id
    }

    /// Detach a mutator: its barrier buffers are discarded.
    pub fn destroy_mutator(&mut self, mutator_id: usize)
        requires
            old(self).wf(),
            mutator_id < old(self).mutators@.len(),
        ensures
            final(self).wf(),
            final(self).mutators@.len() == old(self).mutators@.len(),
            final(self).mutators@[mutator_id as int].modified_nodes@.len() == 0,
            final(self).mutators@[mutator_id as int].modified_edges@.len() == 0,
            final(self).heap.objs@ == old(self).heap.objs@,
            final(self).plan == old(self).plan,
    {
        let m = &mut self.mutators[mutator_id];
        let discarded = m.flush();
    }

    /// Retire a mutator's local state: hand back its barrier buffers.
    pub fn flush_mutator(&mut self, mutator_id: usize) -> (r: (Vec<usize>, Vec<Slot>))
        requires
            old(self).wf(),
            mutator_id < old(self).mutators@.len(),
        ensures
            final(self).wf(),
            final(self).mutators@.len() == old(self).mutators@.len(),
            r.0@ == old(self).mutators@[mutator_id as int].modified_nodes@,
            r.1@ == old(self).mutators@[mutator_id as int].modified_edges@,
            final(self).mutators@[mutator_id as int].modified_nodes@.len() == 0,
            final(self).mutators@[mutator_id as int].modified_edges@.len() == 0,
            final(self).heap.objs@ == old(self).heap.objs@,
            final(self).plan == old(self).plan,
    {
        let m = &mut self.mutators[mutator_id];
        m.flush()
    }

    /// Gather every mutator's barrier buffers for a collection.
    fn flush_all_mutators(&mut self) -> (r: (Vec<usize>, Vec<Slot>))
        requires
            old(self).wf(),
        ensures
            final(self).wf(),
            final(self).heap == old(self).heap,
            final(self).plan == old(self).plan,
            final(self).roots == old(self).roots,
            final(self).scheduler == old(self).scheduler,
            final(self).reference_processors == old(self).reference_processors,
            final(self).mutators@.len() == old(self).mutators@.len(),
            forall|mi: int|
                0 <= mi < final(self).mutators@.len() ==> (
                #[trigger] final(self).mutators@[mi]).modified_nodes@.len() == 0
                    && final(self).mutators@[mi].modified_edges@.len() == 0,
    {
        let mut nodes: Vec<usize> = Vec::new();
        let mut edges: Vec<Slot> = Vec::new();
        let n = self.mutators.len();
        let mut i: usize = 0;
        while i < n
            invariant
                i <= n,
                n == self.mutators@.len(),
                self.heap == old(self).heap,
                self.plan == old(self).plan,
                self.roots == old(self).roots,
                self.scheduler == old(self).scheduler,
                self.reference_processors == old(self).reference_processors,
                self.heap.wf(),
                old(self).wf(),
                self.wf(),
                forall|mi: int|
                    0 <= mi < i ==> (#[trigger] self.mutators@[mi]).modified_nodes@.len() == 0
                        && self.mutators@[mi].modified_edges@.len() == 0,
            decreases n - i,
        {
            let m = &mut self.mutators[i];
            let (mut mn, mut me) = m.flush();
            nodes.append(&mut mn);
            edges.append(&mut me);
            i = i + 1;
        }
        (nodes, edges)
    }

    /// Allow collections to run: spawn the worker pool and the controller.
    pub fn enable_collection(&mut self, tls: usize)
        requires
            old(self).wf(),
            1 <= old(self).options.threads,
        ensures
            final(self).wf(),
            final(self).scheduler.num_workers == old(self).options.threads,
            final(self).heap.objs@ == old(self).heap.objs@,
            final(self).spec_gc_count() == old(self).spec_gc_count(),
            final(self).spec_collection_enabled(),
            old(self).collection.workers_spawned < usize::MAX
                ==> final(self).collection.workers_spawned == old(self).collection.workers_spawned
                + 1,
    {
        let threads = self.options.threads;
        self.scheduler.initialize(threads, tls);
        if self.collection.workers_spawned < usize::MAX {
            self.collection.spawn_worker_thread(tls);
        }
        match &mut self.plan {
            SelectedPlan::NoGC(p) => {
                p.common.collection_enabled = true;
            },
            SelectedPlan::GenCopy(g) => {
                g.common.collection_enabled = true;
            },
        }
    }

    /// Run one stop-the-world collection under the generational plan: stop
    /// the mutators, flush their barrier buffers into the closure, collect,
    /// and resume.  Under the no-op plan nothing happens.
    pub fn trigger_collection(&mut self, tls: usize, full: bool) -> (r: Result<(), GcError>)
        requires
            old(self).wf(),
        ensures
            final(self).wf(),
            final(self).roots@.len() == old(self).roots@.len(),
            old(self).plan is NoGC ==> *final(self) == *old(self) && r is Ok,
            final(self).plan is GenCopy <==> old(self).plan is GenCopy,
            // when a collection may run, success means one completed with
            // its full effect; failure leaves the pause in place, wedged
            old(self).plan is GenCopy && !old(self).spec_can_collect()
                ==> *final(self) == *old(self) && r is Ok,
            old(self).spec_can_collect() && r is Ok ==> spec_collection_completed(
                *old(self),
                *final(self),
                full,
            ),
            final(self).spec_gc_count() >= old(self).spec_gc_count(),
            old(self).spec_can_collect() && r is Err ==> spec_collection_failed(
                *old(self),
                *final(self),
            ) && (r->Err_0 == GcError::OutOfMemory || r->Err_0 == GcError::InvalidReference
                || r->Err_0 == GcError::Incomplete),
            old(self).spec_can_collect() && r is Err && r->Err_0 == GcError::OutOfMemory
                ==> crate::gc_works::unfit_survivor(
                final(self).plan->GenCopy_0,
                final(self).heap,
            ),
    {
        match &self.plan {
            SelectedPlan::NoGC(p) => Ok(()),
            SelectedPlan::GenCopy(g) => {
                if !g.common.initialized || g.common.gc_in_progress || g.common.gc_count
                    == usize::MAX {
                    return Ok(());
                }
                self.collection.stop_all_mutators(tls);
                let (nodes, edges) = self.flush_all_mutators();
                let mut plan_taken = SelectedPlan::NoGC(NoGC::new());
                core::mem::swap(&mut self.plan, &mut plan_taken);
                let (outcome, plan_back) = match plan_taken {
                    SelectedPlan::GenCopy(mut g2) => {
                        let oc = collect(
                            &mut g2,
                            &mut self.heap,
                            &mut self.roots,
                            &mut self.scheduler,
                            &mut self.reference_processors,
                            nodes,
                            edges,
                            full,
                        );
                        (oc, SelectedPlan::GenCopy(g2))
                    },
                    SelectedPlan::NoGC(p2) => (
                        Ok(()),
                        SelectedPlan::NoGC(p2),
                    ),
                };
                self.plan = plan_back;
                match outcome {
                    Ok(u) => {
                        // with the sanity option set, run the validation
                        // trace over the roots before the world restarts;
                        // the collection's own guarantees prove it passes
                        if self.options.sanity {
                            let mut sanity_edges: Vec<Slot> = Vec::new();
                            let nroots = self.roots.len();
                            let mut i: usize = 0;
                            while i < nroots
                                invariant
                                    i <= nroots,
                                    sanity_edges@.len() == i,
                                    forall|j: int|
                                        0 <= j < i ==> #[trigger] sanity_edges@[j]
                                            == (Slot::Root { index: j as usize }),
                                decreases nroots - i,
                            {
                                sanity_edges.push(Slot::Root { index: i });
                                i = i + 1;
                            }
                            let ghost sanity_slots = sanity_edges@;
                            let checker = crate::gc_works::SanityGCProcessEdges::new(
                                sanity_edges,
                                true,
                            );
                            let verdict = match &self.plan {
                                SelectedPlan::GenCopy(g4) => checker.do_work(
                                    g4,
                                    &self.heap,
                                    &self.roots,
                                ),
                                SelectedPlan::NoGC(p4) => Ok(()),
                            };
                            match verdict {
                                Ok(u2) => {},
                                Err(e2) => {
                                    // unreachable: every root is clear of
                                    // the collected halves
                                    proof {
                                        let j = choose|j: int|
                                            0 <= j < sanity_slots.len()
                                                && !crate::gc_works::slot_points_clear(
                                                self.plan->GenCopy_0,
                                                self.heap,
                                                self.roots@,
                                                sanity_slots[j],
                                            );
                                        assert(sanity_slots[j] == (Slot::Root {
                                            index: j as usize,
                                        }));
                                        assert(crate::gc_works::ref_clear(
                                            self.plan->GenCopy_0,
                                            self.roots@[j],
                                        ));
                                        assert(false);
                                    }
                                },
                            }
                        }
                        self.collection.resume_mutators(tls);
                        proof {
                            if old(self).spec_can_collect() {
                                let pre = *old(self);
                                assert(self.plan is GenCopy);
                                assert(self.spec_gc_count() == pre.spec_gc_count() + 1);
                                assert(!self.spec_gc_in_progress());
                                assert(GenCopy::quiescent(self.heap));
                                assert(self.plan->GenCopy_0.nursery.common.pr.spec_reserved()
                                    == 0);
                                assert(self.roots@.len() == pre.roots@.len());
                                assert(forall|ri: int|
                                    0 <= ri < self.roots@.len()
                                        ==> crate::gc_works::ref_clear(
                                        self.plan->GenCopy_0,
                                        #[trigger] self.roots@[ri],
                                    ));
                                assert(forall|ri: int|
                                    0 <= ri < self.roots@.len()
                                        ==> crate::gc_works::root_successor_ok(
                                        pre.heap,
                                        pre.roots@[ri],
                                        self.heap,
                                        #[trigger] self.roots@[ri],
                                    ));
                                assert(forall|mi: int|
                                    0 <= mi < self.mutators@.len() ==> (
                                    #[trigger] self.mutators@[mi]).modified_nodes@.len() == 0
                                        && self.mutators@[mi].modified_edges@.len() == 0);
                                assert(crate::collection::survivors_preserved(
                                    pre.plan->GenCopy_0,
                                    pre.heap,
                                    self.heap,
                                    full,
                                ));
                            }
                        }
                        Ok(())
                    },
                    Err(e) => {
                        // the collection is wedged; report and leave the
                        // pause in place, as a fatal scheduler error
                        self.collection.out_of_memory(tls);
                        Err(e)
                    },
                }
            },
        }
    }

    /// Serve a user's collection request.  A request that arrives while a
    /// collection is in flight coalesces: it is answered by the in-flight
    /// collection and triggers no second one.
    pub fn handle_user_collection_request(&mut self, tls: usize, force_full: bool)
        requires
            old(self).wf(),
        ensures
            final(self).wf(),
            old(self).spec_gc_in_progress() ==> final(self).spec_gc_count() == old(
                self,
            ).spec_gc_count(),
            old(self).plan is NoGC ==> final(self).spec_gc_count() == old(self).spec_gc_count(),
            // when the instance is ready, the request is served: either a
            // collection completed with its full effect, or the collection
            // failed and the instance is left wedged in its pause
            old(self).spec_request_ready() ==> spec_collection_completed(
                *old(self),
                *final(self),
                force_full || old(self).spec_residency_trigger(),
            ) || spec_collection_failed(*old(self), *final(self)),
    {
        match &mut self.plan {
            SelectedPlan::NoGC(p) => {},
            SelectedPlan::GenCopy(g) => {
                if !g.common.initialized || !g.common.collection_enabled {
                    return;
                }
                if g.common.gc_in_progress {
                    // coalesce: the in-flight collection answers this
                    // request once it completes
                    if g.common.coalesced_requests < usize::MAX {
                        g.common.coalesced_requests = g.common.coalesced_requests + 1;
                    }
                    return;
                }
                let pct: usize = if self.options.gc_trigger_percent <= 100 {
                    self.options.gc_trigger_percent
                } else {
                    100
                };
                proof {
                    let to = g.spec_tospace().common;
                    assert(to.pr.total <= 0x10_0000) by (nonlinear_arith)
                        requires
                            to.pr.total * BYTES_IN_PAGE == to.extent,
                            to.extent <= 0x7000_0000,
                            BYTES_IN_PAGE == 4096,
                    ;
                }
                let full = force_full || mature_residency_high(
                    g.tospace().common.pr.committed,
                    g.tospace().common.pr.total,
                    pct,
                );
                let outcome = self.trigger_collection(tls, full);
            },
        }
    }

    /// Is a collection in flight?
    pub open spec fn spec_gc_in_progress(self) -> bool {
        match self.plan {
            SelectedPlan::NoGC(p) => p.common.gc_in_progress,
            SelectedPlan::GenCopy(g) => g.common.gc_in_progress,
        }
    }

    /// Has the VM allowed collections to run?
    pub open spec fn spec_collection_enabled(self) -> bool {
        match self.plan {
            SelectedPlan::NoGC(p) => p.common.collection_enabled,
            SelectedPlan::GenCopy(g) => g.common.collection_enabled,
        }
    }

    /// May `trigger_collection` run a collection right now?
    pub open spec fn spec_can_collect(self) -> bool {
        &&& self.plan is GenCopy
        &&& self.plan->GenCopy_0.common.initialized
        &&& !self.plan->GenCopy_0.common.gc_in_progress
        &&& self.plan->GenCopy_0.common.gc_count < usize::MAX
    }

    /// Will a user request be served by a fresh collection?
    pub open spec fn spec_request_ready(self) -> bool {
        self.spec_can_collect() && self.spec_collection_enabled()
    }

    /// Has the mature space's residency crossed the collection trigger
    /// (the trigger percentage clamped to one hundred)?
    pub open spec fn spec_residency_trigger(self) -> bool {
        self.plan is GenCopy && {
            let g = self.plan->GenCopy_0;
            let pct = if self.options.gc_trigger_percent <= 100 {
                self.options.gc_trigger_percent
            } else {
                100
            };
            g.spec_tospace().common.pr.committed * 100 >= pct * g.spec_tospace().common.pr.total
        }
    }

    /// Begin a harnessed run: force a full-heap collection, then record.
    pub fn harness_begin(&mut self, tls: usize)
        requires
            old(self).wf(),
        ensures
            final(self).wf(),
            final(self).inside_harness,
            // the forced full-heap collection happened, with its full
            // effect, unless the collection failed and wedged the instance
            old(self).spec_request_ready() ==> spec_collection_completed(
                *old(self),
                *final(self),
                true,
            ) || spec_collection_failed(*old(self), *final(self)),
    {
        self.handle_user_collection_request(tls, true);
        self.inside_harness = true;
    }

    /// End a harnessed run.
    pub fn harness_end(&mut self)
        requires
            old(self).wf(),
        ensures
            final(self).wf(),
            !final(self).inside_harness,
            final(self).heap.objs@ == old(self).heap.objs@,
            final(self).plan == old(self).plan,
    {
        self.inside_harness = false;
    }

    /// Pages holding allocated data.
    pub fn get_pages_used(&self) -> (r: usize)
        requires
            self.wf(),
        ensures
            r == self.spec_pages_committed(),
    {
        match &self.plan {
            SelectedPlan::NoGC(p) => {
                p.unsync.space.common.pr.committed + p.unsync.los.common.pr.committed
            },
            SelectedPlan::GenCopy(g) => g.get_pages_used(),
        }
    }

    /// Pages counted against the budget, pending reservations included.
    pub fn get_pages_reserved(&self) -> (r: usize)
        requires
            self.wf(),
        ensures
            r == self.spec_pages_reserved(),
    {
        match &self.plan {
            SelectedPlan::NoGC(p) => p.get_pages_used(),
            SelectedPlan::GenCopy(g) => g.get_pages_reserved(),
        }
    }

    /// The heap budget in pages.
    pub fn get_total_pages(&self) -> (r: usize)
        ensures
            r == self.spec_total_pages(),
    {
        match &self.plan {
            SelectedPlan::NoGC(p) => p.get_total_pages(),
            SelectedPlan::GenCopy(g) => g.get_total_pages(),
        }
    }

    pub open spec fn spec_pages_committed(self) -> int {
        match self.plan {
            SelectedPlan::NoGC(p) => p.unsync.space.common.pr.committed
                + p.unsync.los.common.pr.committed,
            SelectedPlan::GenCopy(g) => g.spec_pages_committed(),
        }
    }

    pub open spec fn spec_pages_reserved(self) -> int {
        match self.plan {
            SelectedPlan::NoGC(p) => p.spec_pages_used(),
            SelectedPlan::GenCopy(g) => g.spec_pages_reserved(),
        }
    }

    pub open spec fn spec_total_pages(self) -> int {
        match self.plan {
            SelectedPlan::NoGC(p) => p.common.total_pages as int,
            SelectedPlan::GenCopy(g) => g.common.total_pages as int,
        }
    }

    /// Pages promised to in-flight requests but not yet holding data.
    pub open spec fn spec_pages_pending(self) -> int {
        self.spec_pages_reserved() - self.spec_pages_committed()
    }
}

/// What one completed collection promises the embedder, pre-state to
/// post-state: one more collection finished, the heap quiescent with the
/// collected halves emptied and released, the roles flipped exactly on a
/// full-heap cycle, every object outside the collected halves preserved
/// byte for byte, every root left clear of the collected halves with its
/// successor carrying the original payload bytes, and every mutator's
/// barrier buffers flushed.
pub open spec fn spec_collection_completed(pre: MMTK, post: MMTK, full: bool) -> bool {
    &&& pre.plan is GenCopy
    &&& post.plan is GenCopy
    &&& post.spec_gc_count() == pre.spec_gc_count() + 1
    &&& !post.spec_gc_in_progress()
    &&& GenCopy::quiescent(post.heap)
    &&& post.plan->GenCopy_0.nursery.common.pr.spec_reserved() == 0
    &&& post.plan->GenCopy_0.nursery.common.cursor == 0
    &&& (full ==> post.plan->GenCopy_0.spec_fromspace().common.pr.spec_reserved() == 0)
    &&& (full ==> post.plan->GenCopy_0.hi == !pre.plan->GenCopy_0.hi)
    &&& (!full ==> post.plan->GenCopy_0.hi == pre.plan->GenCopy_0.hi)
    &&& post.roots@.len() == pre.roots@.len()
    &&& (forall|ri: int|
        0 <= ri < post.roots@.len() ==> crate::gc_works::ref_clear(
            post.plan->GenCopy_0,
            #[trigger] post.roots@[ri],
        ))
    &&& (forall|ri: int|
        0 <= ri < post.roots@.len() ==> crate::gc_works::root_successor_ok(
            pre.heap,
            pre.roots@[ri],
            post.heap,
            #[trigger] post.roots@[ri],
        ))
    &&& crate::collection::survivors_preserved(pre.plan->GenCopy_0, pre.heap, post.heap, full)
    &&& (forall|mi: int|
        0 <= mi < post.mutators@.len() ==> (#[trigger] post.mutators@[mi]).modified_nodes@.len()
            == 0 && post.mutators@[mi].modified_edges@.len() == 0)
    &&& crate::collection::spec_tables_scanned(
        pre.plan->GenCopy_0,
        pre.reference_processors,
        post.reference_processors,
        full,
    )
}

/// What a failed collection leaves: the instance wedged mid-pause (the
/// collection still marked in flight, the nursery in its collected role,
/// the count unchanged), and, when the failure was out-of-memory, a real
/// survivor the tospace cannot take.
pub open spec fn spec_collection_failed(pre: MMTK, post: MMTK) -> bool {
    &&& post.plan is GenCopy
    &&& post.spec_gc_in_progress()
    &&& post.plan->GenCopy_0.nursery.from_space
    &&& post.spec_gc_count() == pre.spec_gc_count()
}

/// Has the mature space's residency crossed the collection trigger?
pub fn mature_residency_high(committed: usize, total: usize, percent: usize) -> (r: bool)
    requires
        committed <= total,
        total <= 0x10_0000,
        percent <= 100,
    ensures
        r == (committed * 100 >= percent * total),
{
    proof {
        assert(percent * total <= 100 * 0x10_0000) by (nonlinear_arith)
            requires
                percent <= 100,
                total <= 0x10_0000,
        ;
    }
    committed * 100 >= percent * total
}

/// The heap accounting law: used plus free bytes never exceed the total,
/// with equality exactly when no page reservation is pending.
pub proof fn lemma_used_free_total(m: MMTK)
    requires
        m.wf(),
        m.spec_initialized(),
        m.spec_pages_reserved() <= m.spec_total_pages(),
    ensures
        m.spec_pages_committed() * BYTES_IN_PAGE + (m.spec_total_pages()
            - m.spec_pages_reserved()) * BYTES_IN_PAGE <= m.spec_total_pages() * BYTES_IN_PAGE,
        (m.spec_pages_committed() * BYTES_IN_PAGE + (m.spec_total_pages()
            - m.spec_pages_reserved()) * BYTES_IN_PAGE == m.spec_total_pages() * BYTES_IN_PAGE)
            <==> m.spec_pages_pending() == 0,
{
    let c = m.spec_pages_committed();
    let v = m.spec_pages_reserved();
    let t = m.spec_total_pages();
    let p = BYTES_IN_PAGE as int;
    assert(c <= v) by {
        match m.plan {
            SelectedPlan::NoGC(pl) => {},
            SelectedPlan::GenCopy(g) => {},
        }
    };
    assert(c * p + (t - v) * p == (c + t - v) * p) by (nonlinear_arith);
    assert((c + t - v) * p <= t * p) by {
        vstd::arithmetic::mul::lemma_mul_inequality(c + t - v, t, p);
    };
    if m.spec_pages_pending() == 0 {
        assert(c == v);
    } else {
        assert(c < v);
        assert((c + t - v) * p < t * p) by {
            vstd::arithmetic::mul::lemma_mul_strict_inequality(c + t - v, t, p);
        };
    }
}


/// Is an alignment request legal: a power of two no larger than a page,
/// with an offset inside a page?
pub open spec fn spec_alignment_ok(align: usize, offset: usize) -> bool {
    crate::layout::spec_align_legal(align) && offset < BYTES_IN_PAGE
}

impl MMTK {
    /// Allocate `size` bytes so that the result plus `offset` is a multiple
    /// of `align`.  A zero-sized request returns the distinguished non-null
    /// sentinel.  An illegal alignment is refused outright.  Page
    /// exhaustion under the generational plan drives up to three
    /// collections (first a nursery cycle, then full-heap ones) before the
    /// request is given up as out of memory; the no-op plan never collects.
    #[verifier::rlimit(100)]
    pub fn allocate(
        &mut self,
        mutator_id: usize,
        size: usize,
        align: usize,
        offset: usize,
        semantics: crate::plan::AllocationSemantics,
    ) -> (r: Result<Address, AllocError>)
        requires
            old(self).wf(),
        ensures
            final(self).wf(),
            (r == Err::<Address, AllocError>(AllocError::AlignmentTooLarge)) == !spec_alignment_ok(
                align,
                offset,
            ),
            spec_alignment_ok(align, offset) && size == 0 ==> r == Ok::<Address, AllocError>(
                Address(crate::layout::ZERO_SIZE_SENTINEL),
            ),
            old(self).plan is NoGC ==> final(self).spec_gc_count() == old(self).spec_gc_count()
                && final(self).heap.objs@ == old(self).heap.objs@,
            (old(self).plan is NoGC <==> final(self).plan is NoGC),
            // an illegal alignment and the zero-size sentinel leave the
            // instance untouched: no pages are reserved for either
            !spec_alignment_ok(align, offset) ==> *final(self) == *old(self),
            spec_alignment_ok(align, offset) && size == 0 ==> *final(self) == *old(self),
            // a successful allocation is fresh: no object's header sits at
            // the returned address
            size >= 1 && !old(self).spec_gc_in_progress() && r is Ok
                ==> !final(self).heap.spec_has(r->Ok_0.0),
            // when no collection intervened, the allocation's whole effect
            // is exact: the routed space's cursor and pages advance by just
            // this block, and nothing else moves
            r is Ok && size >= 1 && final(self).spec_gc_count() == old(self).spec_gc_count()
                ==> {
                &&& final(self).heap == old(self).heap
                &&& final(self).roots == old(self).roots
                &&& (old(self).plan is NoGC ==> crate::nogc::spec_alloc_effect(
                    old(self).plan->NoGC_0,
                    final(self).plan->NoGC_0,
                    r->Ok_0.0,
                    size,
                    align,
                    offset,
                    semantics,
                ))
                &&& (old(self).plan is GenCopy ==> crate::gencopy::spec_alloc_effect(
                    old(self).plan->GenCopy_0,
                    final(self).plan->GenCopy_0,
                    r->Ok_0.0,
                    size,
                    align,
                    offset,
                    semantics,
                ))
            },
            match r {
                Ok(a) => size >= 1 ==> {
                    &&& a.0 >= HEAP_START
                    &&& (a.0 + offset) % (align as int) == 0
                    &&& alloc_landed(*final(self), a.0, size, semantics)
                },
                Err(e) => e == AllocError::AlignmentTooLarge || e == AllocError::OutOfMemory,
            },
            // out of memory only when the routed space truly cannot fit
            // the request, or an attempted collection wedged the instance
            r == Err::<Address, AllocError>(AllocError::OutOfMemory) ==> no_fit(
                *final(self),
                size,
                align,
                offset,
                semantics,
            ) || final(self).spec_gc_in_progress(),
            // under the no-op plan no collection can intervene, so the
            // refusal's cause stands in the pre-state: the routed space
            // already could not fit the request
            r == Err::<Address, AllocError>(AllocError::OutOfMemory) && old(self).plan is NoGC
                ==> no_fit(*old(self), size, align, offset, semantics),
    {
        if !(crate::layout::align_legal(align) && offset < BYTES_IN_PAGE) {
            return Err(AllocError::AlignmentTooLarge);
        }
        if size == 0 {
            return Ok(Address(crate::layout::ZERO_SIZE_SENTINEL));
        }
        let tls: usize = if mutator_id < self.mutators.len() {
            self.mutators[mutator_id].tls
        } else {
            0
        };
        // the stress cadence: after stress_factor requested bytes, force a
        // full-heap collection before allocating
        if self.stress_allocated <= usize::MAX - size {
            self.stress_allocated = self.stress_allocated + size;
        }
        let stress_due = match &self.plan {
            SelectedPlan::GenCopy(g) => g.common.initialized && g.common.collection_enabled
                && !g.common.gc_in_progress && self.options.stress_factor > 0
                && self.stress_allocated >= self.options.stress_factor,
            SelectedPlan::NoGC(p) => false,
        };
        if stress_due {
            self.stress_allocated = 0;
            let stress_outcome = self.trigger_collection(tls, true);
            if stress_outcome.is_err() {
                // the forced collection wedged the instance
                self.collection.out_of_memory(tls);
                return Err(AllocError::OutOfMemory);
            }
        }
        let ghost at_alloc = *self;
        match &mut self.plan {
            SelectedPlan::NoGC(p) => {
                proof {
                    assert(*p == old(self).plan->NoGC_0);
                    assert(*p == at_alloc.plan->NoGC_0);
                }
                let got = p.alloc_in(size, align, offset, semantics);
                match got {
                    Some(a) => Ok(Address(a)),
                    None => {
                        self.collection.out_of_memory(tls);
                        Err(AllocError::OutOfMemory)
                    },
                }
            },
            SelectedPlan::GenCopy(g) => {
                proof {
                    assert(*g == at_alloc.plan->GenCopy_0);
                }
                let got = g.alloc_in(size, align, offset, semantics);
                if let Some(a) = got {
                    return Ok(Address(a));
                }
                let mut attempt: usize = 0;
                while attempt < 3
                    invariant
                        self.wf(),
                        self.plan is GenCopy,
                        old(self).plan is GenCopy,
                        attempt <= 3,
                        spec_alignment_ok(align, offset),
                        1 <= size,
                        no_fit(*self, size, align, offset, semantics)
                            || self.spec_gc_in_progress(),
                        self.spec_gc_count() >= old(self).spec_gc_count(),
                        self.spec_gc_count() == old(self).spec_gc_count()
                            && !self.spec_gc_in_progress() ==> self.plan == old(self).plan
                            && self.heap == old(self).heap && self.roots == old(self).roots,
                    decreases 3 - attempt,
                {
                    let can_gc = match &self.plan {
                        SelectedPlan::GenCopy(g2) => g2.common.initialized
                            && g2.common.collection_enabled && !g2.common.gc_in_progress,
                        SelectedPlan::NoGC(p2) => false,
                    };
                    if !can_gc {
                        break;
                    }
                    let full = attempt > 0;
                    let outcome = self.trigger_collection(tls, full);
                    if outcome.is_err() {
                        // the collection is wedged; no allocation can be
                        // satisfied any more
                        break;
                    }
                    let ghost heap_now = self.heap;
                    let retried = match &mut self.plan {
                        SelectedPlan::GenCopy(g3) => {
                            let ghost gpre = *g3;
                            proof {
                                assert(gpre.all_bounded(heap_now));
                            }
                            let got_again = g3.alloc_in(size, align, offset, semantics);
                            proof {
                                if let Some(a) = got_again {
                                    match semantics {
                                        crate::plan::AllocationSemantics::Default => {
                                            lemma_fresh_address(heap_now, gpre.nursery.common, a);
                                        },
                                        crate::plan::AllocationSemantics::LargeObject => {
                                            lemma_fresh_address(heap_now, gpre.los.common, a);
                                        },
                                        _ => {
                                            lemma_fresh_address(heap_now, gpre.immortal.common, a);
                                        },
                                    }
                                }
                            }
                            got_again
                        },
                        SelectedPlan::NoGC(p3) => None,
                    };
                    if let Some(a) = retried {
                        return Ok(Address(a));
                    }
                    attempt = attempt + 1;
                }
                self.collection.out_of_memory(tls);
                Err(AllocError::OutOfMemory)
            },
        }
    }

    /// The bump-cursor line of the space holding `addr`, whichever plan
    /// runs.
    pub open spec fn spec_bound_line(self, addr: usize) -> Option<int> {
        match self.plan {
            SelectedPlan::NoGC(p) => p.spec_bound_line(addr),
            SelectedPlan::GenCopy(g) => g.spec_bound_line(addr),
        }
    }

    /// Install the metadata of a freshly allocated object: its table entry,
    /// with a zeroed payload, no reference slots, a cleared mark and an
    /// unforwarded word.  A no-op for the zero-size sentinel.  Accepted
    /// exactly when the address is non-null and fresh, and the extent
    /// `[refer, refer + bytes)` lies below the cursor of the space that
    /// allocated it.
    pub fn post_alloc(
        &mut self,
        refer: crate::layout::ObjectReference,
        type_refer: crate::layout::ObjectReference,
        bytes: usize,
        semantics: crate::plan::AllocationSemantics,
    ) -> (r: bool)
        requires
            old(self).wf(),
        ensures
            final(self).wf(),
            final(self).plan == old(self).plan,
            r == (refer.0 == crate::layout::ZERO_SIZE_SENTINEL || {
                &&& refer.0 != 0
                &&& 1 <= bytes
                &&& refer.0 + bytes <= usize::MAX
                &&& !old(self).heap.spec_has(refer.0)
                &&& (match old(self).spec_bound_line(refer.0) {
                    Some(line) => refer.0 + bytes <= line,
                    None => false,
                })
            }),
            refer.0 == crate::layout::ZERO_SIZE_SENTINEL ==> r && *final(self) == *old(self),
            !r ==> *final(self) == *old(self),
            r && refer.0 != crate::layout::ZERO_SIZE_SENTINEL ==> {
                &&& final(self).heap.objs@.len() == old(self).heap.objs@.len() + 1
                &&& final(self).heap.spec_has(refer.0)
                &&& final(self).heap.spec_at(refer.0).size == bytes
                &&& final(self).heap.spec_at(refer.0).payload@ == Seq::<u8>::new(
                    bytes as nat,
                    |i: int| 0u8,
                )
                &&& final(self).heap.spec_at(refer.0).fields@.len() == 0
                &&& final(self).heap.spec_at(refer.0).forwarding
                    == crate::forwarding_word::ForwardingState::Unforwarded
                &&& final(self).plan == old(self).plan
                &&& !old(self).heap.spec_has(refer.0)
            },
    {
        if refer.value() == crate::layout::ZERO_SIZE_SENTINEL {
            return true;
        }
        if refer.is_null() || bytes == 0 {
            return false;
        }
        let line = match &self.plan {
            SelectedPlan::NoGC(p) => p.bound_line(refer.value()),
            SelectedPlan::GenCopy(g) => g.bound_line(refer.value()),
        };
        let line = match line {
            Some(l) => l,
            None => {
                return false;
            },
        };
        if !(bytes <= usize::MAX - refer.value() && refer.value() + bytes <= line) {
            return false;
        }
        let found = self.heap.find(refer.value());
        if found.is_some() {
            return false;
        }
        let mark = match &self.plan {
            SelectedPlan::NoGC(p) => p.fresh_mark(refer.value()),
            SelectedPlan::GenCopy(g) => g.fresh_mark(refer.value()),
        };
        let mut payload: Vec<u8> = Vec::new();
        let mut i: usize = 0;
        while i < bytes
            invariant
                i <= bytes,
                payload@ =~= Seq::<u8>::new(i as nat, |j: int| 0u8),
            decreases bytes - i,
        {
            payload.push(0u8);
            proof {
                assert(payload@ =~= Seq::<u8>::new((i + 1) as nat, |j: int| 0u8));
            }
            i = i + 1;
        }
        let obj = crate::object_model::HeapObject {
            addr: refer.value(),
            size: bytes,
            forwarding: crate::forwarding_word::ForwardingState::Unforwarded,
            mark,
            payload,
            fields: Vec::new(),
        };
        self.heap.objs.push(obj);
        proof {
            let n = self.heap.objs@.len() - 1;
            self.heap.lemma_index_unique(refer.0, n);
        }
        true
    }
}

/// The result of a non-zero-sized allocation lies in the space its
/// semantic routes to, wholly below that space's cursor.
pub open spec fn alloc_landed(m: MMTK, a: usize, size: usize, semantics: crate::plan::AllocationSemantics) -> bool {
    let route = match m.plan {
        SelectedPlan::NoGC(p) => p.spec_alloc_common(semantics),
        SelectedPlan::GenCopy(g) => g.spec_alloc_common(semantics),
    };
    route.spec_in_range(a) && a + size <= route.start + route.cursor
}

/// The routed space cannot fit the request: the aligned allocation point
/// plus the size overruns the space.
pub open spec fn no_fit(m: MMTK, size: usize, align: usize, offset: usize, semantics: crate::plan::AllocationSemantics) -> bool {
    let route = match m.plan {
        SelectedPlan::NoGC(p) => p.spec_alloc_common(semantics),
        SelectedPlan::GenCopy(g) => g.spec_alloc_common(semantics),
    };
    crate::layout::spec_align_up((route.start + route.cursor) as usize, align, offset) + size
        > route.start + route.extent
}


impl MMTK {
    /// Register a runtime root slot holding `value`; returns its index.
    pub fn add_root(&mut self, value: usize) -> (r: usize)
        requires
            old(self).wf(),
        ensures
            final(self).wf(),
            final(self).roots@ == old(self).roots@.push(value),
            r == old(self).roots@.len(),
            final(self).heap.objs@ == old(self).heap.objs@,
            final(self).plan == old(self).plan,
    {
        let i = self.roots.len();
        self.roots.push(value);
        i
    }

    /// Read a root slot.
    pub fn get_root(&self, index: usize) -> (r: Option<usize>)
        ensures
            match r {
                Some(v) => index < self.roots@.len() && v == self.roots@[index as int],
                None => index >= self.roots@.len(),
            },
    {
        if index < self.roots.len() {
            Some(self.roots[index])
        } else {
            None
        }
    }

    /// Append a reference slot to an object.  Fails when the object does
    /// not exist.
    pub fn add_field(&mut self, obj: crate::layout::ObjectReference, value: usize) -> (r: bool)
        requires
            old(self).wf(),
        ensures
            final(self).wf(),
            r == old(self).heap.spec_has(obj.0),
            !r ==> *final(self) == *old(self),
            r ==> {
                &&& final(self).heap.spec_has(obj.0)
                &&& final(self).heap.spec_at(obj.0).fields@ == old(self).heap.spec_at(
                    obj.0,
                ).fields@.push(value)
                &&& final(self).plan == old(self).plan
                &&& final(self).roots@ == old(self).roots@
                &&& final(self).heap.objs@.len() == old(self).heap.objs@.len()
            },
    {
        let found = self.heap.find_unique(obj.value());
        match found {
            Some(i) => {
                self.heap.objs[i].fields.push(value);
                proof {
                    self.heap.lemma_index_unique(obj.0, i as int);
                    assert forall|k: int| 0 <= k < self.heap.objs@.len() implies (
                    #[trigger] self.heap.objs@[k]).wf() by {
                        assert(old(self).heap.objs@[k].wf());
                    }
                }
                true
            },
            None => false,
        }
    }

    /// Read a reference slot of an object.
    pub fn read_field(&self, obj: crate::layout::ObjectReference, field: usize) -> (r: Option<
        usize,
    >)
        requires
            self.wf(),
        ensures
            match r {
                Some(v) => self.heap.spec_has(obj.0) && field < self.heap.spec_at(
                    obj.0,
                ).fields@.len() && v == self.heap.spec_at(obj.0).fields@[field as int],
                None => !self.heap.spec_has(obj.0) || field >= self.heap.spec_at(
                    obj.0,
                ).fields@.len(),
            },
    {
        let found = self.heap.find_unique(obj.value());
        match found {
            Some(i) => {
                if field < self.heap.objs[i].fields.len() {
                    Some(self.heap.objs[i].fields[field])
                } else {
                    None
                }
            },
            None => None,
        }
    }

    /// Store a reference into an object's slot, running the generational
    /// write barrier: a store of a nursery object into a mature one is
    /// recorded in the mutator's buffers for the next nursery collection.
    /// Accepted exactly when the object and the slot exist.
    pub fn store_reference(
        &mut self,
        mutator_id: usize,
        src: crate::layout::ObjectReference,
        field: usize,
        target: crate::layout::ObjectReference,
    ) -> (r: bool)
        requires
            old(self).wf(),
            mutator_id < old(self).mutators@.len(),
        ensures
            final(self).wf(),
            r == (old(self).heap.spec_has(src.0) && field < old(self).heap.spec_at(
                src.0,
            ).fields@.len()),
            // the barrier's contract: a mature-to-nursery store is recorded
            // in the storing mutator's buffers, and only then
            r && spec_needs_barrier(*old(self), src.0, target.0) ==> {
                &&& final(self).mutators@[mutator_id as int].modified_nodes@ == old(
                    self,
                ).mutators@[mutator_id as int].modified_nodes@.push(src.0)
                &&& final(self).mutators@[mutator_id as int].modified_edges@ == old(
                    self,
                ).mutators@[mutator_id as int].modified_edges@.push(
                    (Slot::Field { object: src.0, field }),
                )
                &&& forall|mi: int|
                    0 <= mi < old(self).mutators@.len() && mi != mutator_id
                        ==> old(self).mutators@[mi] == #[trigger] final(self).mutators@[mi]
            },
            !(r && spec_needs_barrier(*old(self), src.0, target.0)) ==> final(self).mutators@
                == old(self).mutators@,
            r ==> {
                &&& final(self).heap.spec_has(src.0)
                &&& final(self).heap.spec_at(src.0).fields@ == old(self).heap.spec_at(
                    src.0,
                ).fields@.update(field as int, target.0)
                &&& final(self).plan == old(self).plan
                &&& final(self).roots@ == old(self).roots@
            },
            !r ==> final(self).heap.objs@ == old(self).heap.objs@,
    {
        let found = self.heap.find_unique(src.value());
        let i = match found {
            Some(i) => i,
            None => {
                return false;
            },
        };
        if field >= self.heap.objs[i].fields.len() {
            return false;
        }
        self.heap.objs[i].fields[field] = target.value();
        proof {
            self.heap.lemma_index_unique(src.0, i as int);
            assert forall|k: int| 0 <= k < self.heap.objs@.len() implies (
            #[trigger] self.heap.objs@[k]).wf() by {
                assert(old(self).heap.objs@[k].wf());
            }
        }
        let needs_barrier = match &self.plan {
            SelectedPlan::NoGC(p) => false,
            SelectedPlan::GenCopy(g) => !g.nursery.common.in_range(src.value())
                && g.nursery.common.in_range(target.value()),
        };
        if needs_barrier {
            let m = &mut self.mutators[mutator_id];
            m.barrier(src.value(), Slot::Field { object: src.value(), field });
        }
        true
    }

    /// Read one payload byte of an object.
    pub fn read_payload_byte(&self, obj: crate::layout::ObjectReference, index: usize) -> (r:
        Option<u8>)
        requires
            self.wf(),
        ensures
            match r {
                Some(v) => self.heap.spec_has(obj.0) && index < self.heap.spec_at(
                    obj.0,
                ).payload@.len() && v == self.heap.spec_at(obj.0).payload@[index as int],
                None => !self.heap.spec_has(obj.0) || index >= self.heap.spec_at(
                    obj.0,
                ).payload@.len(),
            },
    {
        let found = self.heap.find_unique(obj.value());
        match found {
            Some(i) => {
                if index < self.heap.objs[i].payload.len() {
                    Some(self.heap.objs[i].payload[index])
                } else {
                    None
                }
            },
            None => None,
        }
    }

    /// Write one payload byte of an object.
    pub fn write_payload_byte(
        &mut self,
        obj: crate::layout::ObjectReference,
        index: usize,
        value: u8,
    ) -> (r: bool)
        requires
            old(self).wf(),
        ensures
            final(self).wf(),
            r ==> {
                &&& final(self).heap.spec_has(obj.0)
                &&& final(self).heap.spec_at(obj.0).payload@ == old(self).heap.spec_at(
                    obj.0,
                ).payload@.update(index as int, value)
                &&& final(self).plan == old(self).plan
            },
            !r ==> final(self).heap.objs@ == old(self).heap.objs@,
            r == (old(self).heap.spec_has(obj.0) && index < old(self).heap.spec_at(
                obj.0,
            ).payload@.len()),
    {
        let found = self.heap.find_unique(obj.value());
        let i = match found {
            Some(i) => i,
            None => {
                return false;
            },
        };
        if index >= self.heap.objs[i].payload.len() {
            return false;
        }
        self.heap.objs[i].payload[index] = value;
        proof {
            self.heap.lemma_index_unique(obj.0, i as int);
            assert forall|k: int| 0 <= k < self.heap.objs@.len() implies (
            #[trigger] self.heap.objs@[k]).wf() by {
                assert(old(self).heap.objs@[k].wf());
            }
        }
        true
    }

    /// Sweep the large-object space, freeing, per the mark bits of the
    /// last full-heap trace, every large object that trace did not reach.
    /// The embedder runs this after a full-heap collection, between pauses;
    /// under the no-op plan, or while a collection is in flight, nothing
    /// happens.
    #[verifier::rlimit(60)]
    pub fn sweep_large_objects(&mut self)
        requires
            old(self).wf(),
        ensures
            final(self).wf(),
            final(self).plan == old(self).plan,
            final(self).roots == old(self).roots,
            !(old(self).plan is GenCopy && !old(self).spec_gc_in_progress()) ==> *final(self)
                == *old(self),
            old(self).plan is GenCopy && !old(self).spec_gc_in_progress()
                ==> crate::largeobjectspace::spec_swept(
                old(self).plan->GenCopy_0.los,
                old(self).heap,
                final(self).heap,
            ),
    {
        let proceed = match &self.plan {
            SelectedPlan::GenCopy(g) => !g.common.gc_in_progress,
            SelectedPlan::NoGC(p) => false,
        };
        if !proceed {
            return ;
        }
        let ghost pre = *self;
        match &self.plan {
            SelectedPlan::GenCopy(g) => {
                g.los.sweep(&mut self.heap);
                proof {
                    assert forall|k: int| 0 <= k < self.heap.objs@.len() implies {
                        let o = #[trigger] self.heap.objs@[k];
                        &&& o.forwarding == crate::forwarding_word::ForwardingState::Unforwarded
                        &&& pre.heap.spec_has(o.addr)
                        &&& !g.spec_fromspace().common.spec_in_range(o.addr)
                    } by {
                        let addr = self.heap.objs@[k].addr;
                        self.heap.lemma_index_unique(addr, k);
                        assert(pre.heap.spec_has(addr));
                        let k0 = pre.heap.spec_index_of(addr);
                        assert(pre.heap.objs@[k0].forwarding
                            == crate::forwarding_word::ForwardingState::Unforwarded);
                        assert(!g.spec_fromspace().common.spec_in_range(
                            pre.heap.objs@[k0].addr,
                        ));
                    }
                    assert forall|k: int|
                        0 <= k < self.heap.objs@.len() && g.vm_space.common.spec_in_range(
                            (#[trigger] self.heap.objs@[k]).addr,
                        ) implies self.heap.objs@[k].addr + self.heap.objs@[k].size <= g.vm_space.common.start
                        + g.vm_space.common.cursor by {
                        let addr = self.heap.objs@[k].addr;
                        self.heap.lemma_index_unique(addr, k);
                        let k0 = pre.heap.spec_index_of(addr);
                        assert(pre.heap.objs@[k0].addr + pre.heap.objs@[k0].size <= g.vm_space.common.start
                            + g.vm_space.common.cursor);
                    }
                    assert forall|k: int|
                        0 <= k < self.heap.objs@.len() && g.immortal.common.spec_in_range(
                            (#[trigger] self.heap.objs@[k]).addr,
                        ) implies self.heap.objs@[k].addr + self.heap.objs@[k].size <= g.immortal.common.start
                        + g.immortal.common.cursor by {
                        let addr = self.heap.objs@[k].addr;
                        self.heap.lemma_index_unique(addr, k);
                        let k0 = pre.heap.spec_index_of(addr);
                        assert(pre.heap.objs@[k0].addr + pre.heap.objs@[k0].size <= g.immortal.common.start
                            + g.immortal.common.cursor);
                    }
                    assert forall|k: int|
                        0 <= k < self.heap.objs@.len() && g.los.common.spec_in_range(
                            (#[trigger] self.heap.objs@[k]).addr,
                        ) implies self.heap.objs@[k].addr + self.heap.objs@[k].size <= g.los.common.start
                        + g.los.common.cursor by {
                        let addr = self.heap.objs@[k].addr;
                        self.heap.lemma_index_unique(addr, k);
                        let k0 = pre.heap.spec_index_of(addr);
                        assert(pre.heap.objs@[k0].addr + pre.heap.objs@[k0].size <= g.los.common.start
                            + g.los.common.cursor);
                    }
                    assert forall|k: int|
                        0 <= k < self.heap.objs@.len() && g.nursery.common.spec_in_range(
                            (#[trigger] self.heap.objs@[k]).addr,
                        ) implies self.heap.objs@[k].addr + self.heap.objs@[k].size <= g.nursery.common.start
                        + g.nursery.common.cursor by {
                        let addr = self.heap.objs@[k].addr;
                        self.heap.lemma_index_unique(addr, k);
                        let k0 = pre.heap.spec_index_of(addr);
                        assert(pre.heap.objs@[k0].addr + pre.heap.objs@[k0].size <= g.nursery.common.start
                            + g.nursery.common.cursor);
                    }
                    assert forall|k: int|
                        0 <= k < self.heap.objs@.len() && g.copyspace0.common.spec_in_range(
                            (#[trigger] self.heap.objs@[k]).addr,
                        ) implies self.heap.objs@[k].addr + self.heap.objs@[k].size <= g.copyspace0.common.start
                        + g.copyspace0.common.cursor by {
                        let addr = self.heap.objs@[k].addr;
                        self.heap.lemma_index_unique(addr, k);
                        let k0 = pre.heap.spec_index_of(addr);
                        assert(pre.heap.objs@[k0].addr + pre.heap.objs@[k0].size <= g.copyspace0.common.start
                            + g.copyspace0.common.cursor);
                    }
                    assert forall|k: int|
                        0 <= k < self.heap.objs@.len() && g.copyspace1.common.spec_in_range(
                            (#[trigger] self.heap.objs@[k]).addr,
                        ) implies self.heap.objs@[k].addr + self.heap.objs@[k].size <= g.copyspace1.common.start
                        + g.copyspace1.common.cursor by {
                        let addr = self.heap.objs@[k].addr;
                        self.heap.lemma_index_unique(addr, k);
                        let k0 = pre.heap.spec_index_of(addr);
                        assert(pre.heap.objs@[k0].addr + pre.heap.objs@[k0].size <= g.copyspace1.common.start
                            + g.copyspace1.common.cursor);
                    }
                }
            },
            SelectedPlan::NoGC(p) => {},
        }
    }

    /// How many collections have completed.
    pub fn gc_count(&self) -> (r: usize)
        ensures
            r == self.spec_gc_count(),
    {
        match &self.plan {
            SelectedPlan::NoGC(p) => p.common.gc_count,
            SelectedPlan::GenCopy(g) => g.common.gc_count,
        }
    }

    /// How many objects the heap holds.
    pub fn object_count(&self) -> (r: usize)
        ensures
            r == self.heap.objs@.len(),
    {
        self.heap.len()
    }

    /// Is the object alive?  Under the no-op plan every object of a known
    /// space is; under the generational plan an object of a collected half
    /// is alive exactly when it has been copied out, a large object when
    /// the current trace has marked it, and tospace, immortal and
    /// VM-reserved objects always.
    pub fn is_live_object(&self, object: crate::layout::ObjectReference) -> (r: bool)
        requires
            self.wf(),
        ensures
            r == spec_is_live(*self, object.0),
    {
        match &self.plan {
            SelectedPlan::NoGC(p) => p.is_valid_ref(object),
            SelectedPlan::GenCopy(g) => {
                if g.nursery.in_space(object) || (if g.hi {
                    g.copyspace0.from_space && g.copyspace0.in_space(object)
                } else {
                    g.copyspace1.from_space && g.copyspace1.in_space(object)
                }) {
                    let found = self.heap.find_unique(object.value());
                    match found {
                        Some(i) => crate::forwarding_word::is_forwarded(
                            &self.heap.objs[i].forwarding,
                        ),
                        None => false,
                    }
                } else if g.los.in_space(object) {
                    let found = self.heap.find_unique(object.value());
                    match found {
                        Some(i) => self.heap.objs[i].mark == g.los.mark_state,
                        None => false,
                    }
                } else {
                    g.tospace().in_space(object) || g.fromspace().in_space(object)
                        || g.immortal.in_space(object) || g.vm_space.in_space(object)
                }
            },
        }
    }
}

/// A bump allocation at or above a space's cursor line collides with no
/// existing object: everything the space houses ends at or below the line.
pub proof fn lemma_fresh_address(
    heap: ObjectTable,
    cs: crate::space::CommonSpace,
    a: usize,
)
    requires
        heap.wf(),
        crate::copyspace::objects_bounded(heap, cs),
        cs.spec_in_range(a),
        cs.start + cs.cursor <= a,
    ensures
        !heap.spec_has(a),
{
    if heap.spec_has(a) {
        let k = heap.spec_index_of(a);
        assert(heap.objs[k].addr == a);
        assert(heap.objs[k].wf());
    }
}

/// Does a store of `target` into `src` cross the generational barrier:
/// the source mature, the target in the nursery?
pub open spec fn spec_needs_barrier(m: MMTK, src: usize, target: usize) -> bool {
    m.plan is GenCopy && !m.plan->GenCopy_0.nursery.spec_in_space(src)
        && m.plan->GenCopy_0.nursery.spec_in_space(target)
}

/// Liveness under the current plan and heap.
pub open spec fn spec_is_live(m: MMTK, addr: usize) -> bool {
    match m.plan {
        SelectedPlan::NoGC(p) => p.unsync.space.spec_in_space(addr)
            || p.unsync.vm_space.spec_in_space(addr) || p.unsync.los.spec_in_space(addr),
        SelectedPlan::GenCopy(g) => {
            if g.nursery.spec_in_space(addr) || (g.spec_fromspace().from_space
                && g.spec_fromspace().spec_in_space(addr)) {
                m.heap.spec_has(addr) && m.heap.spec_at(addr).forwarding.spec_is_forwarded()
            } else if g.los.spec_in_space(addr) {
                m.heap.spec_has(addr) && m.heap.spec_at(addr).mark == g.los.mark_state
            } else {
                g.spec_tospace().spec_in_space(addr) || g.spec_fromspace().spec_in_space(addr)
                    || g.immortal.spec_in_space(addr) || g.vm_space.spec_in_space(addr)
            }
        },
    }
}

} // verus!
