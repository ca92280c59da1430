//! The cancellation coordinator: one process-wide shutdown signal, observed
//! by every long-running unit. Once cancelled the signal never reverts.

use vstd::prelude::*;

verus! {

/// The shutdown signal. `cancelled` moves from `false` to `true` exactly
/// once and never back; every unit that polls it must exit once it is set.
pub struct CancelToken {
    pub cancelled: bool,
}

/// The state a token is left in by `cancel`, whatever it held before.
pub open spec fn spec_cancelled(t: CancelToken) -> CancelToken {
    CancelToken { cancelled: true }
}

/// A legal transition of the token: once cancelled, always cancelled.
pub open spec fn token_step_allowed(pre: CancelToken, post: CancelToken) -> bool {
    pre.cancelled ==> post.cancelled
}

impl CancelToken {
    /// A fresh token starts active (not cancelled).
    pub fn new() -> (t: CancelToken)
        ensures
            !t.cancelled,
    {
        CancelToken { cancelled: false }
    }

    /// Signal shutdown. Idempotent: on an already-cancelled token the state
    /// is left exactly as it was.
    pub fn cancel(&mut self)
        ensures
            final(self).cancelled,
            old(self).cancelled ==> *final(self) == *old(self),
            token_step_allowed(*old(self), *final(self)),
    {
        self.cancelled = true;
    }

    /// Observe the signal.
    pub fn is_cancelled(&self) -> (r: bool)
        ensures
            r == self.cancelled,
    {
        self.cancelled
    }
}

/// Cancelling twice has the effect of cancelling once.
pub proof fn lemma_cancel_idempotent(t: CancelToken)
    ensures
        spec_cancelled(spec_cancelled(t)) == spec_cancelled(t),
{
}

/// Once the token is cancelled, no sequence of legal transitions can make
/// `is_cancelled` observe anything but `true` again.
pub proof fn lemma_cancelled_is_permanent(states: Seq<CancelToken>)
    requires
        states.len() >= 1,
        states[0].cancelled,
        forall|i: int| #![trigger states[i]]
            0 <= i < states.len() - 1 ==> token_step_allowed(states[i], states[i + 1]),
    ensures
        forall|i: int| 0 <= i < states.len() ==> states[i].cancelled,
    decreases states.len(),
{
    if states.len() > 1 {
        let tail = states.drop_first();
        assert(token_step_allowed(states[0], states[1]));
        assert forall|i: int| #![trigger tail[i]] 0 <= i < tail.len() - 1 implies token_step_allowed(
            tail[i],
            tail[i + 1],
        ) by {
            assert(tail[i] == states[i + 1]);
            assert(tail[i + 1] == states[i + 2]);
        }
        lemma_cancelled_is_permanent(tail);
        assert forall|i: int| 0 <= i < states.len() implies states[i].cancelled by {
            if i > 0 {
                assert(tail[i - 1] == states[i]);
            }
        }
    }
}

} // verus!
