//! The VM binding surface: what the core asks of the runtime it is
//! embedded in.  Object scanning walks the model object table; thread
//! control and the thread registry model the runtime's side.

use crate::errors::GcError;
use crate::gc_works::Slot;
use crate::layout::{Address, ObjectReference};
use crate::object_model::ObjectTable;
use vstd::prelude::*;

verus! {

/// The scanning capability the core consumes: object scanning and root
/// enumeration.
pub trait Scanning {
    /// Emit exactly one edge per reference slot of the object, in slot
    /// order: the `j`th emitted edge names the `j`th slot, so no slot is
    /// reported twice.
    fn scan_object(heap: &ObjectTable, object: ObjectReference) -> (r: Result<Vec<Slot>, GcError>)
        requires
            heap.wf(),
        ensures
            r is Ok ==> heap.spec_has(object.0),
            r is Err ==> !heap.spec_has(object.0),
            r is Ok ==> r->Ok_0@.len() == heap.spec_at(object.0).fields@.len(),
            r is Ok ==> forall|j: int|
                0 <= j < r->Ok_0@.len() ==> #[trigger] r->Ok_0@[j] == (Slot::Field {
                    object: object.0,
                    field: j as usize,
                }),
    ;

    /// Turn every root-table slot into an edge.
    fn compute_thread_roots(roots: &Vec<usize>) -> (r: Vec<Slot>)
        ensures
            r@.len() == roots@.len(),
    ;

    /// Roots of the runtime's static fields.
    fn compute_static_roots(roots: &Vec<usize>) -> (r: Vec<Slot>)
        ensures
            r@.len() <= roots@.len(),
    ;

    /// Roots of the runtime's global tables.
    fn compute_global_roots(roots: &Vec<usize>) -> (r: Vec<Slot>)
        ensures
            r@.len() <= roots@.len(),
    ;

    /// Reset the scanned-thread counter before a new pause.
    fn reset_thread_counter(counter: &mut usize)
        ensures
            *final(counter) == 0,
    ;

    /// The first round of thread scanning has completed.
    fn notify_initial_thread_scan_complete(partial_scan: bool, tls: usize);

    /// Does the runtime support a return barrier?
    fn supports_return_barrier() -> bool;
}

/// The model runtime's scanning implementation, reading the object table
/// directly.
pub struct VMScanning {}

impl Scanning for VMScanning {
    fn scan_object(heap: &ObjectTable, object: ObjectReference) -> (r: Result<Vec<Slot>, GcError>)
    {
        let found = heap.find_unique(object.value());
        match found {
            Some(i) => {
                let nf = heap.objs[i].fields.len();
                let mut out: Vec<Slot> = Vec::new();
                let mut j: usize = 0;
                while j < nf
                    invariant
                        j <= nf,
                        out@.len() == j,
                        forall|k: int|
                            0 <= k < j ==> #[trigger] out@[k] == (Slot::Field {
                                object: object.0,
                                field: k as usize,
                            }),
                    decreases nf - j,
                {
                    out.push(Slot::Field { object: object.0, field: j });
                    j = j + 1;
                }
                Ok(out)
            },
            None => Err(GcError::InvalidReference),
        }
    }

    fn compute_thread_roots(roots: &Vec<usize>) -> (r: Vec<Slot>) {
        let n = roots.len();
        let mut out: Vec<Slot> = Vec::new();
        let mut i: usize = 0;
        while i < n
            invariant
                i <= n,
                out@.len() == i,
            decreases n - i,
        {
            out.push(Slot::Root { index: i });
            i = i + 1;
        }
        out
    }

    fn compute_static_roots(roots: &Vec<usize>) -> (r: Vec<Slot>) {
        // this runtime keeps every root in the one table, walked by
        // compute_thread_roots
        Vec::new()
    }

    fn compute_global_roots(roots: &Vec<usize>) -> (r: Vec<Slot>) {
        Vec::new()
    }

    fn reset_thread_counter(counter: &mut usize) {
        *counter = 0;
    }

    fn notify_initial_thread_scan_complete(partial_scan: bool, tls: usize) {
    }

    fn supports_return_barrier() -> bool {
        false
    }
}

/// The runtime's thread-control capability, modelled as explicit state: a
/// registry of thread handles and the stop/resume flag the collector
/// toggles around a pause.
pub struct VMCollection {
    /// Thread handles indexed by thread identifier slot.
    pub threads_by_slot: Vec<usize>,
    /// Thread handles in creation order.
    pub threads: Vec<usize>,
    /// Are the mutators currently stopped for a collection?
    pub mutators_stopped: bool,
    /// Worker threads the runtime has been asked to spawn.
    pub workers_spawned: usize,
    /// Has the core reported an unrecoverable out-of-memory?
    pub oom_reported: bool,
}

impl VMCollection {
    pub fn new() -> (r: VMCollection)
        ensures
            r.threads_by_slot@.len() == 0,
            r.threads@.len() == 0,
            !r.mutators_stopped,
            r.workers_spawned == 0,
            !r.oom_reported,
    {
        VMCollection {
            threads_by_slot: Vec::new(),
            threads: Vec::new(),
            mutators_stopped: false,
            workers_spawned: 0,
            oom_reported: false,
        }
    }

    /// Register a thread handle under the next identifier and index.
    pub fn register_thread(&mut self, handle: usize)
        ensures
            final(self).threads_by_slot@ == old(self).threads_by_slot@.push(handle),
            final(self).threads@ == old(self).threads@.push(handle),
            final(self).mutators_stopped == old(self).mutators_stopped,
            final(self).workers_spawned == old(self).workers_spawned,
            final(self).oom_reported == old(self).oom_reported,
    {
        self.threads_by_slot.push(handle);
        self.threads.push(handle);
    }

    /// Block every mutator for the coming pause.
    pub fn stop_all_mutators(&mut self, tls: usize)
        ensures
            final(self).mutators_stopped,
            final(self).threads_by_slot@ == old(self).threads_by_slot@,
            final(self).threads@ == old(self).threads@,
            final(self).workers_spawned == old(self).workers_spawned,
            final(self).oom_reported == old(self).oom_reported,
    {
        self.mutators_stopped = true;
    }

    /// Let the mutators run again after the pause.
    pub fn resume_mutators(&mut self, tls: usize)
        ensures
            !final(self).mutators_stopped,
            final(self).threads_by_slot@ == old(self).threads_by_slot@,
            final(self).threads@ == old(self).threads@,
            final(self).workers_spawned == old(self).workers_spawned,
            final(self).oom_reported == old(self).oom_reported,
    {
        self.mutators_stopped = false;
    }

    /// A mutator that asked for a collection parks here; in this model the
    /// collection has already completed synchronously, so blocking requires
    /// that the pause is over.
    pub fn block_for_gc(&self, tls: usize)
        requires
            !self.mutators_stopped,
    {
    }

    /// Ask the runtime for one more collector thread.
    pub fn spawn_worker_thread(&mut self, tls: usize)
        requires
            old(self).workers_spawned < usize::MAX,
        ensures
            final(self).workers_spawned == old(self).workers_spawned + 1,
            final(self).threads_by_slot@ == old(self).threads_by_slot@,
            final(self).threads@ == old(self).threads@,
            final(self).mutators_stopped == old(self).mutators_stopped,
            final(self).oom_reported == old(self).oom_reported,
    {
        self.workers_spawned = self.workers_spawned + 1;
    }

    /// Hand a stopped mutator to the collector; nothing of the model
    /// changes.
    pub fn prepare_mutator(&self, tls: usize, mutator_tls: usize)
        requires
            self.mutators_stopped,
    {
    }

    /// Report an unrecoverable out-of-memory; the embedder decides what
    /// happens, the core never terminates the process itself.
    pub fn out_of_memory(&mut self, tls: usize)
        ensures
            final(self).oom_reported,
            final(self).threads_by_slot@ == old(self).threads_by_slot@,
            final(self).threads@ == old(self).threads@,
            final(self).mutators_stopped == old(self).mutators_stopped,
            final(self).workers_spawned == old(self).workers_spawned,
    {
        self.oom_reported = true;
    }

    /// The thread handle registered under an identifier slot.
    pub fn thread_from_id(&self, thread_id: usize) -> (r: Address)
        requires
            thread_id < self.threads_by_slot@.len(),
        ensures
            r.0 == self.threads_by_slot@[thread_id as int],
    {
        Address(self.threads_by_slot[thread_id])
    }

    /// The thread handle registered at an index.
    pub fn thread_from_index(&self, thread_index: usize) -> (r: Address)
        requires
            thread_index < self.threads@.len(),
        ensures
            r.0 == self.threads@[thread_index as int],
    {
        Address(self.threads[thread_index])
    }
}

} // verus!
