//! The edge latch: a single-bit flag that coalesces strobe edges.
//!
//! The latch is the only state shared between the interrupt context and the
//! main loop. The interrupt side calls `signal`, a single store; the main
//! side calls `take`, a read followed by a clear. Edges arriving faster than
//! one report cycle are coalesced: the flag records "at least one edge", not
//! how many. On the target both operations must be indivisible with respect
//! to interruption (an atomic boolean); their effect on the flag is what is
//! specified and verified here.

use vstd::prelude::*;

verus! {

/// The flag after one `signal`: raised, whatever it held before.
pub open spec fn after_signal(flag: bool) -> bool {
    true
}

/// The flag after one `take`: cleared.
pub open spec fn after_take(flag: bool) -> bool {
    false
}

/// What `take` hands out: the flag as it stood.
pub open spec fn take_result(flag: bool) -> bool {
    flag
}

/// The flag after `n` consecutive `signal` calls starting from `flag`.
pub open spec fn after_signals(flag: bool, n: nat) -> bool
    decreases n,
{
    if n == 0 {
        flag
    } else {
        after_signal(after_signals(flag, (n - 1) as nat))
    }
}

/// One pending-edge flag. Its view is the flag itself.
pub struct EdgeLatch {
    pending: bool,
}

impl View for EdgeLatch {
    type V = bool;

    closed spec fn view(&self) -> bool {
        self.pending
    }
}

impl EdgeLatch {
    /// A fresh latch holds no pending edge.
    pub fn new() -> (latch: EdgeLatch)
        ensures
            latch@ == false,
    {
        EdgeLatch { pending: false }
    }

    /// Records a strobe edge. Idempotent; called from the interrupt handler.
    pub fn signal(&mut self)
        ensures
            final(self)@ == after_signal(old(self)@),
    {
        self.pending = true;
    }

    /// Reads the flag and clears it in one logical step; called from the
    /// main loop. Returns whether at least one unserviced edge occurred
    /// since the previous `take`.
    pub fn take(&mut self) -> (pending: bool)
        ensures
            pending == take_result(old(self)@),
            final(self)@ == after_take(old(self)@),
    {
        let pending = self.pending;
        if pending {
            self.pending = false;
        }
        pending
    }
}

/// Edges coalesce: any positive number of `signal` calls between two
/// consecutive `take` calls yields exactly one `true` from the next `take`,
/// and `false` from the one after, the flag staying clear until the next
/// `signal`.
pub proof fn lemma_edges_coalesce(flag: bool, n: nat)
    requires
        n >= 1,
    ensures
        take_result(after_signals(flag, n)) == true,
        take_result(after_take(after_signals(flag, n))) == false,
{
}

/// Two `take` calls in a row with no intervening `signal`: a pending edge is
/// reported once, and the second call reports nothing.
pub proof fn lemma_take_is_one_shot(flag: bool)
    ensures
        flag ==> take_result(flag) == true,
        take_result(after_take(flag)) == false,
{
}

} // verus!
