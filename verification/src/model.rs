//! The mathematical model of the cache: what its state is and how each
//! operation changes it.

use crate::store::{lookup, Key, Value};
use vstd::prelude::*;

verus! {

/// The contents of a buffer after the records of `log` were written into
/// `base` one by one, oldest first.
pub open spec fn replay(base: Map<Key, Value>, log: Seq<(Key, Value)>) -> Map<Key, Value>
    decreases log.len(),
{
    if log.len() == 0 {
        base
    } else {
        replay(base, log.drop_last()).insert(log.last().0, log.last().1)
    }
}

/// The value of the latest record of `log` that names `key`, if any does.
pub open spec fn last_written(log: Seq<(Key, Value)>, key: Key) -> Option<Value>
    decreases log.len(),
{
    if log.len() == 0 {
        None
    } else if log.last().0 == key {
        Some(log.last().1)
    } else {
        last_written(log.drop_last(), key)
    }
}

/// The state of a cache.
pub struct CacheModel {
    /// Contents of the green (index 0) and the blue (index 1) buffer.
    pub buffers: Seq<Map<Key, Value>>,
    /// Index of the active buffer, the one that readers are served from.
    pub current: int,
    /// Accepted writes that are not yet known to be in both buffers.
    pub pending: Seq<(Key, Value)>,
    /// Outstanding reader leases per buffer.
    pub readers: Seq<nat>,
    /// Whether a flush holds the permit: it has swapped the buffers and has
    /// not replayed the log yet.
    pub flushing: bool,
    /// While a flush is in flight, the number of pending records that the
    /// active buffer already holds; 0 otherwise.
    pub mark: int,
}

impl CacheModel {
    /// A cache without entries, writes, leases or flush.
    pub open spec fn empty() -> CacheModel {
        CacheModel {
            buffers: seq![Map::<Key, Value>::empty(), Map::<Key, Value>::empty()],
            current: 0,
            pending: Seq::<(Key, Value)>::empty(),
            readers: seq![0nat, 0nat],
            flushing: false,
            mark: 0,
        }
    }

    /// Index of the staging buffer, the one that writers fill.
    pub open spec fn staging_index(self) -> int {
        1 - self.current
    }

    /// Contents of the active buffer.
    pub open spec fn active(self) -> Map<Key, Value> {
        self.buffers[self.current]
    }

    /// Contents of the staging buffer.
    pub open spec fn staging(self) -> Map<Key, Value> {
        self.buffers[self.staging_index()]
    }

    /// The pending records that the active buffer has not seen.
    pub open spec fn unpublished(self) -> Seq<(Key, Value)> {
        self.pending.subrange(self.mark, self.pending.len() as int)
    }

    /// Every accepted write applied in order: what readers see once all of
    /// them are published.
    pub open spec fn latest(self) -> Map<Key, Value> {
        replay(self.active(), self.unpublished())
    }

    /// The invariant of the cache.  Outside a flush the staging buffer is up
    /// to date and the active buffer lags behind it by exactly the pending
    /// log.  During a flush the active buffer lags behind by the records
    /// written since the swap, and replaying the whole log into the staging
    /// buffer brings it up to date.
    pub open spec fn wf(self) -> bool {
        &&& self.buffers.len() == 2
        &&& self.readers.len() == 2
        &&& (self.current == 0 || self.current == 1)
        &&& 0 <= self.mark <= self.pending.len()
        &&& !self.flushing ==> self.mark == 0
        &&& if self.flushing {
            replay(self.staging(), self.pending) == self.latest()
        } else {
            self.staging() == self.latest()
        }
    }

    /// The state after a write: the record joins the log and lands in the
    /// staging buffer.  Readers see nothing of it yet.
    pub open spec fn put(self, key: Key, value: Value) -> CacheModel {
        CacheModel {
            buffers: self.buffers.update(self.staging_index(), self.staging().insert(key, value)),
            pending: self.pending.push((key, value)),
            ..self
        }
    }

    /// The state after the writes of `writes`, oldest first.
    pub open spec fn put_all(self, writes: Seq<(Key, Value)>) -> CacheModel
        decreases writes.len(),
    {
        if writes.len() == 0 {
            self
        } else {
            self.put_all(writes.drop_last()).put(writes.last().0, writes.last().1)
        }
    }

    /// What a reader is told about `key`.
    pub open spec fn get(self, key: Key) -> Option<Value> {
        lookup(self.active(), key)
    }

    /// What a reader is told about each of `keys`, in their order, out of
    /// one and the same generation.
    pub open spec fn get_all(self, keys: Seq<Key>) -> Seq<Option<Value>> {
        Seq::new(keys.len(), |i: int| self.get(keys[i]))
    }

    /// What the holder of a lease on buffer `index` is told about `key`.
    pub open spec fn read(self, index: int, key: Key) -> Option<Value> {
        lookup(self.buffers[index], key)
    }

    /// Whether a flush may start: none is in flight.
    pub open spec fn admits_flush(self) -> bool {
        !self.flushing
    }

    /// The state after a flush took the permit and swapped the buffers.  A
    /// flush that is not admitted changes nothing.
    pub open spec fn begin_flush(self) -> CacheModel {
        if self.admits_flush() {
            CacheModel {
                current: self.staging_index(),
                flushing: true,
                mark: self.pending.len() as int,
                ..self
            }
        } else {
            self
        }
    }

    /// Whether the flush in flight may replay: the buffer that stopped being
    /// active has no reader left.
    pub open spec fn drained(self) -> bool {
        self.flushing && self.readers[self.staging_index()] == 0
    }

    /// The state after the flush in flight replayed the log into the drained
    /// buffer and gave the permit back.  The log keeps the records written
    /// since the swap.  Without a drained flush in flight nothing changes.
    pub open spec fn finish_flush(self) -> CacheModel {
        if self.drained() {
            CacheModel {
                buffers: self.buffers.update(
                    self.staging_index(),
                    replay(self.staging(), self.pending),
                ),
                pending: self.unpublished(),
                flushing: false,
                mark: 0,
                ..self
            }
        } else {
            self
        }
    }

    /// The state after a whole flush: swap, then replay.  A flush that is
    /// not admitted changes nothing.
    pub open spec fn flush(self) -> CacheModel {
        if self.admits_flush() {
            self.begin_flush().finish_flush()
        } else {
            self
        }
    }

    /// The state after a reader took a lease on the active buffer.
    pub open spec fn acquire(self) -> CacheModel {
        CacheModel {
            readers: self.readers.update(self.current, self.readers[self.current] + 1),
            ..self
        }
    }

    /// The state after a reader gave back a lease on buffer `index`.  Where
    /// there is no such lease nothing changes.
    pub open spec fn release(self, index: int) -> CacheModel {
        if 0 <= index < 2 && self.readers[index] > 0 {
            CacheModel {
                readers: self.readers.update(index, (self.readers[index] - 1) as nat),
                ..self
            }
        } else {
            self
        }
    }
}

/// Replaying one more record is one more insertion.
pub proof fn lemma_replay_push(base: Map<Key, Value>, log: Seq<(Key, Value)>, key: Key, value: Value)
    ensures
        replay(base, log.push((key, value))) == replay(base, log).insert(key, value),
{
    assert(log.push((key, value)).drop_last() =~= log);
}

/// A replay into a buffer answers for each key with the latest record of
/// that key, and with the buffer's own entry where the log does not name the
/// key.
pub proof fn lemma_replay_lookup(base: Map<Key, Value>, log: Seq<(Key, Value)>, key: Key)
    ensures
        lookup(replay(base, log), key) == match last_written(log, key) {
            Some(value) => Some(value),
            None => lookup(base, key),
        },
    decreases log.len(),
{
    if log.len() > 0 {
        lemma_replay_lookup(base, log.drop_last(), key);
    }
}

/// Two buffers that answer alike for every key hold the same entries.
pub proof fn lemma_lookup_extensional(left: Map<Key, Value>, right: Map<Key, Value>)
    requires
        forall|key: Key| lookup(left, key) == lookup(right, key),
    ensures
        left == right,
{
    assert forall|key: Key| left.contains_key(key) == right.contains_key(key) by {
        assert(lookup(left, key) == lookup(right, key));
    }
    assert forall|key: Key| left.contains_key(key) implies left[key] == right[key] by {
        assert(lookup(left, key) == lookup(right, key));
    }
    assert(left =~= right);
}

/// A record that was written into the buffer ahead of time does not change
/// what a replay of a log that ends with it gives.
pub proof fn lemma_replay_absorbs_insert(
    base: Map<Key, Value>,
    log: Seq<(Key, Value)>,
    key: Key,
    value: Value,
)
    ensures
        replay(base.insert(key, value), log).insert(key, value) == replay(base, log).insert(
            key,
            value,
        ),
{
    let left = replay(base.insert(key, value), log).insert(key, value);
    let right = replay(base, log).insert(key, value);
    assert forall|other: Key| lookup(left, other) == lookup(right, other) by {
        lemma_replay_lookup(base.insert(key, value), log, other);
        lemma_replay_lookup(base, log, other);
    }
    lemma_lookup_extensional(left, right);
}

/// A key has a latest record exactly if some record names it, and that
/// record is one of the log's.
pub proof fn lemma_last_written_is_record(log: Seq<(Key, Value)>, key: Key)
    ensures
        match last_written(log, key) {
            Some(value) => exists|i: int|
                0 <= i < log.len() && log[i] == (key, value) && forall|j: int|
                    i < j < log.len() ==> (#[trigger] log[j]).0 != key,
            None => forall|i: int| 0 <= i < log.len() ==> (#[trigger] log[i]).0 != key,
        },
    decreases log.len(),
{
    if log.len() > 0 {
        if log.last().0 == key {
            assert(log[log.len() - 1] == (key, log.last().1));
        } else {
            lemma_last_written_is_record(log.drop_last(), key);
            match last_written(log.drop_last(), key) {
                Some(value) => {
                    let i = choose|i: int|
                        0 <= i < log.drop_last().len() && log.drop_last()[i] == (key, value)
                            && forall|j: int|
                            i < j < log.drop_last().len() ==> (#[trigger] log.drop_last()[j]).0
                                != key;
                    assert(log[i] == (key, value));
                    assert forall|j: int| i < j < log.len() implies (#[trigger] log[j]).0
                        != key by {
                        if j < log.len() - 1 {
                            assert(log.drop_last()[j].0 != key);
                        }
                    }
                },
                None => {
                    assert forall|i: int| 0 <= i < log.len() implies (#[trigger] log[i]).0
                        != key by {
                        if i < log.len() - 1 {
                            assert(log.drop_last()[i].0 != key);
                        }
                    }
                },
            }
        }
    }
}

/// A write keeps the invariant.
pub proof fn lemma_put_wf(state: CacheModel, key: Key, value: Value)
    requires
        state.wf(),
    ensures
        state.put(key, value).wf(),
        state.put(key, value).active() == state.active(),
        state.put(key, value).latest() == state.latest().insert(key, value),
{
    let next = state.put(key, value);
    assert(next.unpublished() =~= state.unpublished().push((key, value)));
    lemma_replay_push(state.active(), state.unpublished(), key, value);
    if state.flushing {
        lemma_replay_push(state.staging().insert(key, value), state.pending, key, value);
        lemma_replay_absorbs_insert(state.staging(), state.pending, key, value);
    }
}

/// Taking the permit and swapping the buffers keeps the invariant, and
/// readers see every accepted write from then on.
pub proof fn lemma_begin_flush_wf(state: CacheModel)
    requires
        state.wf(),
    ensures
        state.begin_flush().wf(),
        state.begin_flush().latest() == state.latest(),
        state.admits_flush() ==> state.begin_flush().active() == state.latest(),
{
    if state.admits_flush() {
        assert(state.unpublished() =~= state.pending);
        assert(state.begin_flush().unpublished() =~= Seq::<(Key, Value)>::empty());
    }
}

/// The replay keeps the invariant and changes nothing of what readers see.
pub proof fn lemma_finish_flush_wf(state: CacheModel)
    requires
        state.wf(),
    ensures
        state.finish_flush().wf(),
        state.finish_flush().active() == state.active(),
        state.finish_flush().latest() == state.latest(),
        state.drained() ==> state.finish_flush().staging() == state.latest(),
{
    if state.drained() {
        assert(state.finish_flush().unpublished() =~= state.unpublished());
    }
}

} // verus!
