//! The object model: the heap as an explicit table of objects.
//!
//! The collector's rules are about object headers, payload bytes and
//! reference slots.  The table records, for every object, its header address,
//! its size, its forwarding word and mark bit, its payload bytes and its
//! outgoing reference slots.  Addresses are unique: every committed address
//! belongs to at most one object.

use crate::forwarding_word::ForwardingState;
use vstd::prelude::*;

verus! {

/// One heap object.
#[derive(Clone, Debug)]
pub struct HeapObject {
    /// Header address; never zero.
    pub addr: usize,
    /// Payload size in bytes; equals `payload.len()`.
    pub size: usize,
    /// The forwarding word of the copying protocol.
    pub forwarding: ForwardingState,
    /// Mark bit used by the non-moving spaces.
    pub mark: bool,
    /// The payload bytes.
    pub payload: Vec<u8>,
    /// The reference slots (edges) of this object; zero is null.
    pub fields: Vec<usize>,
}

impl HeapObject {
    /// A single object is well formed when its address is non-null and its
    /// size matches its payload.
    pub open spec fn wf(self) -> bool {
        &&& self.addr != 0
        &&& self.size >= 1
        &&& self.payload.len() == self.size
    }
}

/// Two table entries describe the same object: every field agrees (vectors
/// by their contents).
pub open spec fn obj_like(a: HeapObject, b: HeapObject) -> bool {
    &&& a.addr == b.addr
    &&& a.size == b.size
    &&& a.forwarding == b.forwarding
    &&& a.mark == b.mark
    &&& a.payload@ == b.payload@
    &&& a.fields@ == b.fields@
}

/// The heap: all objects that currently exist, whichever space holds them.
pub struct ObjectTable {
    pub objs: Vec<HeapObject>,
}

impl ObjectTable {
    /// Every object well formed; addresses pairwise distinct.
    pub open spec fn wf(self) -> bool {
        &&& forall|i: int| 0 <= i < self.objs.len() ==> (#[trigger] self.objs[i]).wf()
        &&& forall|i: int, j: int|
            0 <= i < j < self.objs.len() ==> (#[trigger] self.objs[i]).addr != (
            #[trigger] self.objs[j]).addr
    }

    /// Does some object have header address `addr`?
    pub open spec fn spec_has(self, addr: usize) -> bool {
        exists|i: int| 0 <= i < self.objs.len() && (#[trigger] self.objs[i]).addr == addr
    }

    /// The index of the object at `addr`; meaningful only under `spec_has`.
    pub open spec fn spec_index_of(self, addr: usize) -> int {
        choose|i: int| 0 <= i < self.objs.len() && (#[trigger] self.objs[i]).addr == addr
    }

    /// The object at `addr`; meaningful only under `spec_has`.
    pub open spec fn spec_at(self, addr: usize) -> HeapObject {
        self.objs[self.spec_index_of(addr)]
    }

    /// In a well-formed table the index of an address is unique.
    pub proof fn lemma_index_unique(self, addr: usize, i: int)
        requires
            self.wf(),
            0 <= i < self.objs.len(),
            self.objs[i].addr == addr,
        ensures
            self.spec_has(addr),
            self.spec_index_of(addr) == i,
            self.spec_at(addr) == self.objs[i],
    {
        assert(self.spec_has(addr));
        let j = self.spec_index_of(addr);
        if i < j {
            assert(self.objs[i].addr != self.objs[j].addr);
        } else if j < i {
            assert(self.objs[j].addr != self.objs[i].addr);
        }
    }

    /// An empty heap.
    pub fn new() -> (r: ObjectTable)
        ensures
            r.wf(),
            r.objs@.len() == 0,
    {
        ObjectTable { objs: Vec::new() }
    }

    pub fn len(&self) -> (r: usize)
        ensures
            r == self.objs@.len(),
    {
        self.objs.len()
    }

    /// Find the object whose header is at `addr`.
    pub fn find(&self, addr: usize) -> (r: Option<usize>)
        ensures
            match r {
                Some(i) => i < self.objs@.len() && self.objs@[i as int].addr == addr
                    && self.spec_has(addr),
                None => !self.spec_has(addr),
            },
    {
        let n = self.objs.len();
        let mut i: usize = 0;
        while i < n
            invariant
                n == self.objs@.len(),
                i <= n,
                forall|k: int| 0 <= k < i ==> (#[trigger] self.objs@[k]).addr != addr,
            decreases n - i,
        {
            if self.objs[i].addr == addr {
                return Some(i);
            }
            i = i + 1;
        }
        None
    }

    /// Find the object at `addr`, with the table's uniqueness applied: the
    /// returned index is the one `spec_index_of` names.
    pub fn find_unique(&self, addr: usize) -> (r: Option<usize>)
        requires
            self.wf(),
        ensures
            match r {
                Some(i) => {
                    &&& self.spec_has(addr)
                    &&& i == self.spec_index_of(addr)
                    &&& i < self.objs@.len()
                    &&& self.objs@[i as int] == self.spec_at(addr)
                    &&& self.objs@[i as int].addr == addr
                },
                None => !self.spec_has(addr),
            },
    {
        let r = self.find(addr);
        match r {
            Some(i) => {
                proof {
                    self.lemma_index_unique(addr, i as int);
                }
                Some(i)
            },
            None => None,
        }
    }
}

/// Copy a byte vector; the copy's view equals the original's.
pub fn copy_bytes(v: &Vec<u8>) -> (r: Vec<u8>)
    ensures
        r@ == v@,
{
    let n = v.len();
    let mut r: Vec<u8> = Vec::new();
    let mut i: usize = 0;
    while i < n
        invariant
            n == v@.len(),
            i <= n,
            r@ == v@.subrange(0, i as int),
        decreases n - i,
    {
        r.push(v[i]);
        proof {
            assert(r@ =~= v@.subrange(0, i + 1));
        }
        i = i + 1;
    }
    proof {
        assert(r@ =~= v@);
    }
    r
}

/// Copy a vector of words; the copy's view equals the original's.
pub fn copy_words(v: &Vec<usize>) -> (r: Vec<usize>)
    ensures
        r@ == v@,
{
    let n = v.len();
    let mut r: Vec<usize> = Vec::new();
    let mut i: usize = 0;
    while i < n
        invariant
            n == v@.len(),
            i <= n,
            r@ == v@.subrange(0, i as int),
        decreases n - i,
    {
        r.push(v[i]);
        proof {
            assert(r@ =~= v@.subrange(0, i + 1));
        }
        i = i + 1;
    }
    proof {
        assert(r@ =~= v@);
    }
    r
}

} // verus!
