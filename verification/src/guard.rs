//! The guard that keeps the terminal event back until the pipes are drained.

use vstd::prelude::*;

verus! {

/// A readers-writer guard used the other way round: each pipe reader holds
/// it in shared mode for as long as it runs, and the supervisor needs it in
/// exclusive mode once, to report termination. Exclusive mode is to be had
/// only when no shared hold is left.
#[derive(Debug)]
pub struct CompletionGuard {
    shared: usize,
}

impl View for CompletionGuard {
    type V = nat;

    /// The number of shared holds.
    closed spec fn view(&self) -> nat {
        self.shared as nat
    }
}

impl CompletionGuard {
    /// A guard that `readers` readers hold in shared mode.
    pub fn new(readers: usize) -> (guard: CompletionGuard)
        ensures
            guard@ == readers,
    {
        CompletionGuard { shared: readers }
    }

    /// Gives one shared hold back. With none left there is nothing to give
    /// back.
    pub fn release_shared(&mut self)
        ensures
            final(self)@ == if old(self)@ > 0 {
                (old(self)@ - 1) as nat
            } else {
                0nat
            },
    {
        if self.shared > 0 {
            self.shared = self.shared - 1;
        }
    }

    /// Whether exclusive mode is to be had: if and only if no reader holds
    /// the guard.
    pub fn try_exclusive(&self) -> (free: bool)
        ensures
            free <==> self@ == 0,
    {
        self.shared == 0
    }
}

} // verus!
