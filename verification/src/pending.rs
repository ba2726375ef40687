//! The pending log: the writes accepted since the last publish, in the order
//! in which they were accepted.

use crate::store::{Key, Value};
use vstd::prelude::*;

verus! {

/// An append-only sequence of write records.  A key may occur many times;
/// the order of the records is the order of the writes.
#[derive(Debug)]
pub struct PendingLog {
    records: Vec<(Key, Value)>,
}

impl PendingLog {
    /// The records, oldest first.
    pub closed spec fn view(&self) -> Seq<(Key, Value)> {
        self.records@
    }

    /// An empty log.
    pub fn new() -> (log: Self)
        ensures
            log@ == Seq::<(Key, Value)>::empty(),
    {
        PendingLog { records: Vec::new() }
    }

    /// An empty log with room for `capacity` records.
    pub fn with_capacity(capacity: usize) -> (log: Self)
        ensures
            log@ == Seq::<(Key, Value)>::empty(),
    {
        PendingLog { records: Vec::with_capacity(capacity) }
    }

    /// Adds one record at the end.
    pub fn append(&mut self, key: Key, value: Value)
        ensures
            final(self)@ == old(self)@.push((key, value)),
    {
        self.records.push((key, value));
    }

    /// Hands out every record, oldest first, and leaves the log empty.
    pub fn drain_and_clear(&mut self) -> (drained: Vec<(Key, Value)>)
        ensures
            drained@ == old(self)@,
            final(self)@ == Seq::<(Key, Value)>::empty(),
    {
        let mut drained: Vec<(Key, Value)> = Vec::new();
        core::mem::swap(&mut self.records, &mut drained);
        drained
    }

    /// The number of records.
    pub fn len(&self) -> (count: usize)
        ensures
            count == self@.len(),
    {
        self.records.len()
    }
}

} // verus!
