//! The recognized run-time options, written once at startup.

use vstd::prelude::*;

verus! {

/// The options record.  `gc_trigger_percent` is the heap occupancy, in
/// percent, past which allocation asks for a collection.
#[derive(Clone, Copy, PartialEq, Eq, Structural, Debug)]
pub struct Options {
    /// Number of collection worker threads.
    pub threads: usize,
    /// Forced-collection cadence in allocated bytes; zero disables it.
    pub stress_factor: usize,
    /// Heap occupancy percentage that triggers a collection.
    pub gc_trigger_percent: usize,
    /// Protect the pages of a released space against access.
    pub protect_on_release: bool,
    /// Run a validation trace after each collection.
    pub sanity: bool,
}

impl Options {
    /// The defaults an instance starts with.
    pub fn new() -> (r: Options)
        ensures
            r.threads == 1,
            r.stress_factor == 0,
            r.gc_trigger_percent == 90,
            !r.protect_on_release,
            !r.sanity,
    {
        Options {
            threads: 1,
            stress_factor: 0,
            gc_trigger_percent: 90,
            protect_on_release: false,
            sanity: false,
        }
    }

    /// Set one option by name.  Returns false, changing nothing, for an
    /// unknown name or an out-of-range value.
    pub fn process(&mut self, name: &str, value: usize) -> (ok: bool)
        ensures
            ok == (old(self).spec_valid_option(name@, value)),
            ok ==> *final(self) == old(self).spec_with_option(name@, value),
            !ok ==> *final(self) == *old(self),
    {
        let is_threads = str_eq(name, "threads");
        let is_stress = str_eq(name, "stress_factor");
        let is_trigger = str_eq(name, "gc_trigger");
        let is_protect = str_eq(name, "protect_on_release");
        let is_sanity = str_eq(name, "sanity");
        proof {
            reveal_strlit("threads");
            reveal_strlit("stress_factor");
            reveal_strlit("gc_trigger");
            reveal_strlit("protect_on_release");
            reveal_strlit("sanity");
        }
        if is_threads {
            if 1 <= value && value <= 128 {
                self.threads = value;
                return true;
            }
            return false;
        }
        if is_stress {
            self.stress_factor = value;
            return true;
        }
        if is_trigger {
            if 1 <= value && value <= 100 {
                self.gc_trigger_percent = value;
                return true;
            }
            return false;
        }
        if is_protect {
            if value <= 1 {
                self.protect_on_release = value == 1;
                return true;
            }
            return false;
        }
        if is_sanity {
            if value <= 1 {
                self.sanity = value == 1;
                return true;
            }
            return false;
        }
        false
    }

    /// Is `(name, value)` a recognized option with a value in range?
    pub open spec fn spec_valid_option(self, name: Seq<char>, value: usize) -> bool {
        if name == "threads"@ {
            1 <= value <= 128
        } else if name == "stress_factor"@ {
            true
        } else if name == "gc_trigger"@ {
            1 <= value <= 100
        } else if name == "protect_on_release"@ {
            value <= 1
        } else if name == "sanity"@ {
            value <= 1
        } else {
            false
        }
    }

    /// The record after setting a recognized option.
    pub open spec fn spec_with_option(self, name: Seq<char>, value: usize) -> Options {
        if name == "threads"@ {
            Options { threads: value, ..self }
        } else if name == "stress_factor"@ {
            Options { stress_factor: value, ..self }
        } else if name == "gc_trigger"@ {
            Options { gc_trigger_percent: value, ..self }
        } else if name == "protect_on_release"@ {
            Options { protect_on_release: value == 1, ..self }
        } else {
            Options { sanity: value == 1, ..self }
        }
    }
}

/// Compare two strings character by character.
pub fn str_eq(a: &str, b: &str) -> (r: bool)
    ensures
        r == (a@ == b@),
{
    let la = a.unicode_len();
    let lb = b.unicode_len();
    if la != lb {
        proof {
            assert(a@ != b@);
        }
        return false;
    }
    let mut i: usize = 0;
    while i < la
        invariant
            la == a@.len(),
            lb == b@.len(),
            la == lb,
            i <= la,
            forall|k: int| 0 <= k < i ==> a@[k] == b@[k],
        decreases la - i,
    {
        let ca = a.get_char(i);
        let cb = b.get_char(i);
        if ca != cb {
            proof {
                assert(a@[i as int] != b@[i as int]);
            }
            return false;
        }
        i = i + 1;
    }
    proof {
        assert(a@ =~= b@);
    }
    true
}

} // verus!
