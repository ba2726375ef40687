//! The green/blue cache: the dual store, the generation pointer, the pending
//! log and the drain barrier behind one surface.

pub use crate::error::CacheError;

use crate::barrier::DrainBarrier;
use crate::generation::Generation;
use crate::model::{
    lemma_begin_flush_wf, lemma_finish_flush_wf, lemma_put_wf, lemma_replay_push, replay,
    CacheModel,
};
use crate::pending::PendingLog;
use crate::store::{DualStore, Key, Value, MAX_CAPACITY};
use vstd::prelude::*;

verus! {

/// A double-buffered cache.  Readers are served from the active buffer,
/// writers fill the staging buffer, and a flush makes the two trade roles.
#[derive(Debug)]
pub struct GreenBlueCache {
    store: DualStore,
    generation: Generation,
    pending: PendingLog,
    barrier: DrainBarrier,
    flushing: bool,
    mark: usize,
}

/// A diagnostic snapshot of a cache.
#[derive(Debug, Clone, Copy, PartialEq, Eq)]
pub struct CacheStatus {
    /// Entries in the green buffer.
    pub green_items: usize,
    /// Reader leases outstanding on the green buffer.
    pub green_readers: usize,
    /// Entries in the blue buffer.
    pub blue_items: usize,
    /// Reader leases outstanding on the blue buffer.
    pub blue_readers: usize,
    /// Records in the pending log.
    pub pending: usize,
    /// Index of the active buffer: 0 for green, 1 for blue.
    pub current: usize,
}

/// Writes the records of `log` into buffer `index`, oldest first, so that of
/// two records with one key the later one stays.
fn replay_into(store: &mut DualStore, index: usize, log: &Vec<(Key, Value)>)
    requires
        index < 2,
    ensures
        final(store)@ == old(store)@.update(
            index as int,
            replay(old(store)@[index as int], log@),
        ),
{
    proof {
        store.lemma_view_len();
    }
    let mut i: usize = 0;
    while i < log.len()
        invariant
            index < 2,
            i <= log.len(),
            old(store)@.len() == 2,
            store@ == old(store)@.update(
                index as int,
                replay(old(store)@[index as int], log@.take(i as int)),
            ),
        decreases log.len() - i,
    {
        let record = log[i];
        store.write(index, record.0, record.1);
        proof {
            assert(log@.take(i + 1) =~= log@.take(i as int).push(record));
            lemma_replay_push(old(store)@[index as int], log@.take(i as int), record.0, record.1);
            assert(store@ =~= old(store)@.update(
                index as int,
                replay(old(store)@[index as int], log@.take(i + 1)),
            ));
        }
        i = i + 1;
    }
    proof {
        assert(log@.take(log.len() as int) =~= log@);
    }
}

/// Puts the records of `log` from position `from` on back into the empty
/// pending log, in their order.
fn keep_from(pending: &mut PendingLog, log: &Vec<(Key, Value)>, from: usize)
    requires
        from <= log.len(),
        old(pending)@.len() == 0,
    ensures
        final(pending)@ == log@.subrange(from as int, log.len() as int),
{
    let mut i: usize = from;
    while i < log.len()
        invariant
            from <= i <= log.len(),
            pending@ == log@.subrange(from as int, i as int),
        decreases log.len() - i,
    {
        let record = log[i];
        pending.append(record.0, record.1);
        assert(pending@ =~= log@.subrange(from as int, i + 1));
        i = i + 1;
    }
}

impl GreenBlueCache {
    /// The state of the cache.
    pub closed spec fn view(&self) -> CacheModel {
        CacheModel {
            buffers: self.store@,
            current: self.generation@,
            pending: self.pending@,
            readers: self.barrier@,
            flushing: self.flushing,
            mark: self.mark as int,
        }
    }

    /// The invariant of the cache holds.
    pub open spec fn wf(&self) -> bool {
        self@.wf()
    }

    /// An empty cache whose buffers and log have room for `capacity` entries.
    pub fn with_capacity(capacity: usize) -> (cache: Self)
        requires
            capacity <= MAX_CAPACITY,
        ensures
            cache.wf(),
            cache@ == CacheModel::empty(),
    {
        GreenBlueCache {
            store: DualStore::with_capacity(capacity),
            generation: Generation::new(),
            pending: PendingLog::with_capacity(capacity),
            barrier: DrainBarrier::new(),
            flushing: false,
            mark: 0,
        }
    }

    /// Accepts a write: the record joins the pending log and lands in the
    /// staging buffer.  Readers see it after the next flush.
    pub fn put(&mut self, key: Key, value: Value) -> (result: Result<(), CacheError>)
        requires
            old(self).wf(),
        ensures
            final(self).wf(),
            final(self)@ == old(self)@.put(key, value),
            result is Ok,
    {
        proof {
            lemma_put_wf(self@, key, value);
        }
        let staging = self.generation.staging();
        self.pending.append(key, value);
        self.store.write(staging, key, value);
        Ok(())
    }

    /// Looks one key up in the active buffer.
    pub fn get_one(&self, key: &Key) -> (found: Option<Value>)
        requires
            self.wf(),
        ensures
            found == self@.get(*key),
    {
        let active = self.generation.current();
        self.store.read(active, key)
    }

    /// Looks each of `keys` up in the active buffer.  The answers come in
    /// the order of the keys and all out of one generation.
    pub fn get(&self, keys: &[Key]) -> (values: Vec<Option<Value>>)
        requires
            self.wf(),
        ensures
            values@ == self@.get_all(keys@),
    {
        let active = self.generation.current();
        let mut values: Vec<Option<Value>> = Vec::new();
        let mut i: usize = 0;
        while i < keys.len()
            invariant
                active == self@.current,
                active < 2,
                i <= keys.len(),
                values@.len() == i,
                forall|j: int| 0 <= j < i ==> values@[j] == self@.get(keys@[j]),
            decreases keys.len() - i,
        {
            let found = self.store.read(active, &keys[i]);
            values.push(found);
            i = i + 1;
        }
        assert(values@ =~= self@.get_all(keys@));
        values
    }

    /// Starts a flush: takes the permit, swaps the buffers and returns the
    /// index of the buffer that stopped being active.  Fails at once, and
    /// changes nothing, while another flush is in flight.
    pub fn begin_flush(&mut self) -> (result: Result<usize, CacheError>)
        requires
            old(self).wf(),
        ensures
            final(self).wf(),
            final(self)@ == old(self)@.begin_flush(),
            result == if old(self)@.admits_flush() {
                Ok::<usize, CacheError>(old(self)@.current as usize)
            } else {
                Err::<usize, CacheError>(CacheError::CannotSwitch)
            },
    {
        proof {
            lemma_begin_flush_wf(self@);
        }
        if self.flushing {
            return Err(CacheError::CannotSwitch);
        }
        let stale = self.generation.swap();
        self.mark = self.pending.len();
        self.flushing = true;
        Ok(stale)
    }

    /// Whether the flush in flight may replay: the buffer that stopped being
    /// active has no reader left.
    pub fn is_drained(&self) -> (drained: bool)
        requires
            self.wf(),
        ensures
            drained == self@.drained(),
    {
        self.flushing && self.barrier.is_drained(self.generation.staging())
    }

    /// Ends the flush in flight if its buffer is drained: replays the log
    /// into it, keeps in the log what was written since the swap, and gives
    /// the permit back.  Otherwise changes nothing and returns `false`.
    pub fn finish_flush(&mut self) -> (done: bool)
        requires
            old(self).wf(),
        ensures
            final(self).wf(),
            final(self)@ == old(self)@.finish_flush(),
            done == old(self)@.drained(),
    {
        proof {
            lemma_finish_flush_wf(self@);
        }
        if !self.is_drained() {
            return false;
        }
        let stale = self.generation.staging();
        let log = self.pending.drain_and_clear();
        replay_into(&mut self.store, stale, &log);
        keep_from(&mut self.pending, &log, self.mark);
        self.flushing = false;
        self.mark = 0;
        true
    }

    /// Publishes every accepted write: swaps the buffers and replays the log
    /// into the one that stopped being active.  Fails at once, and changes
    /// nothing, while another flush is in flight.
    ///
    /// No reader may hold a lease on the active buffer: a flush cannot go on
    /// before every reader of the old buffer is done.
    pub fn flush(&mut self) -> (result: Result<(), CacheError>)
        requires
            old(self).wf(),
            old(self)@.admits_flush() ==> old(self)@.readers[old(self)@.current] == 0,
        ensures
            final(self).wf(),
            final(self)@ == old(self)@.flush(),
            result == if old(self)@.admits_flush() {
                Ok::<(), CacheError>(())
            } else {
                Err::<(), CacheError>(CacheError::CannotSwitch)
            },
            result is Ok ==> {
                &&& final(self)@.admits_flush()
                &&& final(self)@.current == 1 - old(self)@.current
                &&& final(self)@.buffers[0] == old(self)@.latest()
                &&& final(self)@.buffers[1] == old(self)@.latest()
                &&& final(self)@.pending.len() == 0
            },
    {
        proof {
            lemma_begin_flush_wf(self@);
            lemma_finish_flush_wf(self@.begin_flush());
        }
        match self.begin_flush() {
            Err(error) => Err(error),
            Ok(_) => {
                let replayed = self.finish_flush();
                assert(replayed);
                Ok(())
            },
        }
    }

    /// Takes a reader lease on the active buffer and returns its index.
    pub fn acquire_lease(&mut self) -> (index: usize)
        requires
            old(self).wf(),
            old(self)@.readers[old(self)@.current] < usize::MAX,
        ensures
            final(self).wf(),
            final(self)@ == old(self)@.acquire(),
            index == old(self)@.current,
    {
        let active = self.generation.current();
        self.barrier.acquire(active);
        active
    }

    /// Looks `key` up in buffer `index`, for the holder of a lease on it.
    pub fn read_leased(&self, index: usize, key: &Key) -> (found: Option<Value>)
        requires
            self.wf(),
            index < 2,
        ensures
            found == self@.read(index as int, *key),
    {
        self.store.read(index, key)
    }

    /// Gives a reader lease on buffer `index` back.  Where no such lease is
    /// outstanding nothing changes.
    pub fn release_lease(&mut self, index: usize)
        requires
            old(self).wf(),
        ensures
            final(self).wf(),
            final(self)@ == old(self)@.release(index as int),
    {
        if index < 2 && self.barrier.readers(index) > 0 {
            self.barrier.release(index);
        }
    }

    /// A snapshot of the counts of the cache.  Changes nothing.
    pub fn status(&self) -> (status: CacheStatus)
        requires
            self.wf(),
        ensures
            status.green_items == self@.buffers[0].len(),
            status.green_readers == self@.readers[0],
            status.blue_items == self@.buffers[1].len(),
            status.blue_readers == self@.readers[1],
            status.pending == self@.pending.len(),
            status.current == self@.current,
    {
        CacheStatus {
            green_items: self.store.len(0),
            green_readers: self.barrier.readers(0),
            blue_items: self.store.len(1),
            blue_readers: self.barrier.readers(1),
            pending: self.pending.len(),
            current: self.generation.current(),
        }
    }
}

impl Default for GreenBlueCache {
    /// An empty cache.
    fn default() -> (cache: Self)
        ensures
            cache.wf(),
            cache@ == CacheModel::empty(),
    {
        GreenBlueCache {
            store: DualStore::new(),
            generation: Generation::new(),
            pending: PendingLog::new(),
            barrier: DrainBarrier::new(),
            flushing: false,
            mark: 0,
        }
    }
}

} // verus!
