//! The per-thread mutator context: the thread handle, the allocator routing
//! and the write barrier's buffers.

use crate::gc_works::Slot;
use vstd::prelude::*;

verus! {

/// A mutator thread's bundle.  Allocation is routed by semantic through the
/// owning plan; the barrier buffers collect the objects and edges a
/// generational collection must replay.
pub struct Mutator {
    /// The VM thread this mutator belongs to.
    pub tls: usize,
    /// Objects recorded by the write barrier since the last flush.
    pub modified_nodes: Vec<usize>,
    /// Edges recorded by the write barrier since the last flush.
    pub modified_edges: Vec<Slot>,
}

impl Mutator {
    pub fn new(tls: usize) -> (r: Mutator)
        ensures
            r.tls == tls,
            r.modified_nodes@.len() == 0,
            r.modified_edges@.len() == 0,
    {
        Mutator { tls, modified_nodes: Vec::new(), modified_edges: Vec::new() }
    }

    /// The generational write barrier: record a store of a nursery object
    /// into a mature one, so that a nursery collection can replay the edge.
    pub fn barrier(&mut self, src: usize, slot: Slot)
        ensures
            final(self).tls == old(self).tls,
            final(self).modified_nodes@ == old(self).modified_nodes@.push(src),
            final(self).modified_edges@ == old(self).modified_edges@.push(slot),
    {
        self.modified_nodes.push(src);
        self.modified_edges.push(slot);
    }

    /// Hand the barrier's buffers over (for the collection's mod-buf
    /// packet) and leave them empty.
    pub fn flush(&mut self) -> (r: (Vec<usize>, Vec<Slot>))
        ensures
            final(self).tls == old(self).tls,
            final(self).modified_nodes@.len() == 0,
            final(self).modified_edges@.len() == 0,
            r.0@ == old(self).modified_nodes@,
            r.1@ == old(self).modified_edges@,
    {
        let mut nodes: Vec<usize> = Vec::new();
        let mut edges: Vec<Slot> = Vec::new();
        core::mem::swap(&mut nodes, &mut self.modified_nodes);
        core::mem::swap(&mut edges, &mut self.modified_edges);
        (nodes, edges)
    }
}

} // verus!
