//! The forwarding-word protocol of the copying collector.
//!
//! Each object header carries a forwarding word with three states:
//! `Unforwarded`, `BeingForwarded` and `Forwarded` (which also carries the new
//! address).  Exactly one thread wins the `Unforwarded -> BeingForwarded`
//! transition; the winner copies the object and publishes `Forwarded`; every
//! other thread waits for the published address.  Once a word is `Forwarded`
//! it never changes again: every operation here promises
//! `fw_step_allowed(old, new)`.

use vstd::prelude::*;

verus! {

/// The state of an object's forwarding word.
#[derive(Clone, Copy, PartialEq, Eq, Structural, Debug)]
pub enum ForwardingState {
    /// The object has not been visited by the copying trace.
    Unforwarded,
    /// One thread has claimed the object and is copying it.
    BeingForwarded,
    /// The object has been copied; the payload is the new address.
    Forwarded(usize),
}

/// The one rule of the state machine that every operation obeys: a word that
/// has reached `Forwarded` is final.  In particular no operation ever takes a
/// word from `Forwarded` back to `Unforwarded`.
pub open spec fn fw_step_allowed(pre: ForwardingState, post: ForwardingState) -> bool {
    pre matches ForwardingState::Forwarded(_) ==> post == pre
}

impl ForwardingState {
    /// Is this word in the `Forwarded` state?
    pub open spec fn spec_is_forwarded(self) -> bool {
        self matches ForwardingState::Forwarded(_)
    }

    /// The address stored by a `Forwarded` word.
    pub open spec fn spec_forwarded_to(self) -> usize
        recommends
            self.spec_is_forwarded(),
    {
        match self {
            ForwardingState::Forwarded(a) => a,
            _ => 0,
        }
    }
}

/// Has the object been forwarded?  This is also the liveness test of a
/// copy space: an object of the collected half is live exactly when the
/// trace has copied it out.
pub fn is_forwarded(w: &ForwardingState) -> (r: bool)
    ensures
        r == w.spec_is_forwarded(),
{
    match w {
        ForwardingState::Forwarded(_) => true,
        _ => false,
    }
}

/// Atomically attempt to claim the object for copying: the modelled
/// compare-and-set of `Unforwarded -> BeingForwarded`.  Returns the prior
/// state; the caller won the race exactly when that is `Unforwarded`.
pub fn attempt_to_forward(w: &mut ForwardingState) -> (prior: ForwardingState)
    ensures
        prior == *old(w),
        *old(w) == ForwardingState::Unforwarded ==> *final(w) == ForwardingState::BeingForwarded,
        *old(w) != ForwardingState::Unforwarded ==> *final(w) == *old(w),
        fw_step_allowed(*old(w), *final(w)),
{
    let prior = *w;
    if matches!(prior, ForwardingState::Unforwarded) {
        *w = ForwardingState::BeingForwarded;
    }
    prior
}

/// Did a prior state observed by `attempt_to_forward` mean that some other
/// thread owns (or finished) the copy?
pub fn state_is_forwarded_or_being_forwarded(s: &ForwardingState) -> (r: bool)
    ensures
        r == (*s != ForwardingState::Unforwarded),
{
    !matches!(s, ForwardingState::Unforwarded)
}

/// Read the published new address of a forwarded object.  In the running
/// system a loser of the claim race spins here while the word is still
/// `BeingForwarded`; that wait is bounded by the winner's copy, so between
/// any two packet steps every claimed word has been published, which is the
/// precondition.
pub fn spin_and_get_forwarded_object(w: &ForwardingState) -> (r: usize)
    requires
        w.spec_is_forwarded(),
    ensures
        r == w.spec_forwarded_to(),
{
    match w {
        ForwardingState::Forwarded(a) => *a,
        _ => 0,
    }
}

/// Publish the new address of a copied object: the release store that ends
/// the winner's critical section.
pub fn publish_forwarded(w: &mut ForwardingState, new_addr: usize) -> (r: ())
    requires
        *old(w) == ForwardingState::BeingForwarded,
    ensures
        *final(w) == ForwardingState::Forwarded(new_addr),
        fw_step_allowed(*old(w), *final(w)),
{
    *w = ForwardingState::Forwarded(new_addr);
}

/// Reset the forwarding bits of a freshly made copy, whose header still
/// carries whatever the copy inherited.  Never applied to a `Forwarded`
/// word, so the final state of an original object is never undone.
pub fn clear_forwarding_bits(w: &mut ForwardingState)
    requires
        !old(w).spec_is_forwarded(),
    ensures
        *final(w) == ForwardingState::Unforwarded,
        fw_step_allowed(*old(w), *final(w)),
{
    *w = ForwardingState::Unforwarded;
}

/// The forwarding-word state machine never observes a `Forwarded ->
/// Unforwarded` transition: any step a word can take (every operation above
/// promises `fw_step_allowed`) leaves a `Forwarded` word exactly as it was.
pub proof fn lemma_no_forwarded_retreat(pre: ForwardingState, post: ForwardingState)
    requires
        fw_step_allowed(pre, post),
        pre.spec_is_forwarded(),
    ensures
        post == pre,
        post != ForwardingState::Unforwarded,
{
}

/// A chain of allowed steps keeps a forwarded word fixed for ever: once any
/// state in the chain is `Forwarded`, every later state equals it.
pub proof fn lemma_forwarded_is_final(chain: Seq<ForwardingState>, i: int, j: int)
    requires
        forall|k: int|
            0 <= k < chain.len() - 1 ==> fw_step_allowed(#[trigger] chain[k], chain[k + 1]),
        0 <= i <= j < chain.len(),
        chain[i].spec_is_forwarded(),
    ensures
        chain[j] == chain[i],
    decreases j - i,
{
    if i < j {
        assert(fw_step_allowed(chain[i], chain[i + 1]));
        lemma_forwarded_is_final(chain, i + 1, j);
    }
}

} // verus!
