//! The drain barrier: a count of reader leases per buffer.
//!
//! A reader takes a lease on the buffer it is about to read and gives it back
//! when it is done.  A buffer is drained when no lease on it is outstanding;
//! only then may a flush overwrite it.

use vstd::prelude::*;

verus! {

/// Outstanding reader leases on the green and on the blue buffer.
#[derive(Debug)]
pub struct DrainBarrier {
    green: usize,
    blue: usize,
}

impl DrainBarrier {
    /// The lease counts, green at index 0 and blue at index 1.
    pub closed spec fn view(&self) -> Seq<nat> {
        seq![self.green as nat, self.blue as nat]
    }

    /// A barrier with no lease outstanding.
    pub fn new() -> (barrier: Self)
        ensures
            barrier@ == seq![0nat, 0nat],
    {
        DrainBarrier { green: 0, blue: 0 }
    }

    /// The number of leases outstanding on buffer `index`.
    pub fn readers(&self, index: usize) -> (count: usize)
        requires
            index < 2,
        ensures
            count == self@[index as int],
    {
        if index == 0 {
            self.green
        } else {
            self.blue
        }
    }

    /// Whether no reader holds buffer `index` any more.
    pub fn is_drained(&self, index: usize) -> (drained: bool)
        requires
            index < 2,
        ensures
            drained == (self@[index as int] == 0),
    {
        self.readers(index) == 0
    }

    /// Records one more lease on buffer `index`.
    pub fn acquire(&mut self, index: usize)
        requires
            index < 2,
            old(self)@[index as int] < usize::MAX,
        ensures
            final(self)@ == old(self)@.update(index as int, old(self)@[index as int] + 1),
    {
        if index == 0 {
            self.green = self.green + 1;
        } else {
            self.blue = self.blue + 1;
        }
        assert(self@ =~= old(self)@.update(index as int, old(self)@[index as int] + 1));
    }

    /// Gives one lease on buffer `index` back.
    pub fn release(&mut self, index: usize)
        requires
            index < 2,
            old(self)@[index as int] > 0,
        ensures
            final(self)@ == old(self)@.update(
                index as int,
                (old(self)@[index as int] - 1) as nat,
            ),
    {
        if index == 0 {
            self.green = self.green - 1;
        } else {
            self.blue = self.blue - 1;
        }
        assert(self@ =~= old(self)@.update(
            index as int,
            (old(self)@[index as int] - 1) as nat,
        ));
    }
}

} // verus!
