//! The generation pointer: which of the two buffers is active.

use vstd::prelude::*;

verus! {

/// Index of the buffer that readers are served from.  The other buffer is
/// the staging buffer, so the two indices always add up to one.
#[derive(Debug)]
pub struct Generation {
    active: usize,
}

impl Generation {
    /// The index of the active buffer.
    pub closed spec fn view(&self) -> int {
        self.active as int
    }

    /// The pointer names one of the two buffers.
    #[verifier::type_invariant]
    closed spec fn inv(&self) -> bool {
        self.active < 2
    }

    /// A pointer at buffer 0.
    pub fn new() -> (generation: Self)
        ensures
            generation@ == 0,
    {
        Generation { active: 0 }
    }

    /// The index of the active buffer.
    pub fn current(&self) -> (index: usize)
        ensures
            index == self@,
            index < 2,
    {
        proof {
            use_type_invariant(self);
        }
        self.active
    }

    /// The index of the staging buffer.
    pub fn staging(&self) -> (index: usize)
        ensures
            index == 1 - self@,
            index < 2,
    {
        proof {
            use_type_invariant(self);
        }
        1 - self.active
    }

    /// Flips the pointer and returns the index that stopped being active.
    pub fn swap(&mut self) -> (stale: usize)
        ensures
            stale == old(self)@,
            final(self)@ == 1 - old(self)@,
            stale < 2,
    {
        proof {
            use_type_invariant(&*self);
        }
        let stale = self.active;
        self.active = 1 - stale;
        stale
    }
}

} // verus!
