//! The dual store: two independently addressable key-value buffers, each a
//! `dashmap::DashMap`.
//!
//! Buffer 0 is called green and buffer 1 blue.  The store knows nothing of
//! which one is being read; it only offers indexed reads and writes.

use dashmap::DashMap;
use vstd::prelude::*;

verus! {

/// Key type of every buffer.
pub type Key = i32;

/// Value type of every buffer.
pub type Value = i32;

/// One buffer of the store.
pub type Buffer = DashMap<Key, Value>;

/// Largest initial capacity that a buffer or a log may be asked to reserve.
/// Up to this many entries, the sizes that are computed for the tables fit a
/// machine word of 32 bits as well as one of 64.
pub const MAX_CAPACITY: usize = 0x0800_0000;

/// Makes `dashmap::DashMap` known to the verifier as an opaque type: nothing
/// is assumed of what a value of it holds but what the wrappers below state.
#[verifier::external_type_specification]
#[verifier::external_body]
#[verifier::reject_recursive_types(K)]
#[verifier::reject_recursive_types(V)]
#[verifier::reject_recursive_types(S)]
pub struct ExDashMap<K, V, S>(DashMap<K, V, S>);

/// The key-value pairs that a buffer currently holds.
pub uninterp spec fn entries(buffer: &Buffer) -> Map<Key, Value>;

/// What a lookup of `key` in `contents` yields: the stored value, or nothing
/// for an absent key.
pub open spec fn lookup(contents: Map<Key, Value>, key: Key) -> Option<Value> {
    if contents.contains_key(key) {
        Some(contents[key])
    } else {
        None
    }
}

/// Calls `DashMap::new`: the fresh map holds no entry.
#[verifier::external_body]
pub(crate) fn buffer_new() -> (made: Buffer)
    ensures
        entries(&made) =~= Map::empty(),
{
    DashMap::new()
}

/// Calls `DashMap::with_capacity`: the fresh map holds no entry, whatever
/// room was reserved.  The bound keeps the rounding of the capacity to a
/// multiple of the shard count, and the size of each shard's table, within
/// `usize`.
#[verifier::external_body]
pub(crate) fn buffer_with_capacity(capacity: usize) -> (made: Buffer)
    requires
        capacity <= MAX_CAPACITY,
    ensures
        entries(&made) =~= Map::empty(),
{
    DashMap::with_capacity(capacity)
}

/// Calls `DashMap::insert` on a buffer that the caller holds exclusively: the
/// pair is stored under its key, replacing what was there, and every other
/// entry stays as it was.
#[verifier::external_body]
pub(crate) fn buffer_insert(buffer: &mut Buffer, key: Key, value: Value)
    ensures
        entries(final(buffer)) == entries(old(buffer)).insert(key, value),
{
    buffer.insert(key, value);
}

/// Calls `DashMap::get` and copies the value out of the guard it returns: the
/// value stored under `key`, if any.
#[verifier::external_body]
pub(crate) fn buffer_get(buffer: &Buffer, key: &Key) -> (found: Option<Value>)
    ensures
        found == lookup(entries(buffer), *key),
{
    match buffer.get(key) {
        Some(guard) => Some(*guard.value()),
        None => None,
    }
}

/// Calls `DashMap::len`: the number of entries, summed over all shards.
#[verifier::external_body]
pub(crate) fn buffer_len(buffer: &Buffer) -> (count: usize)
    ensures
        count == entries(buffer).len(),
{
    buffer.len()
}

/// Two buffers that live as long as the store and are only ever mutated in
/// place.
#[derive(Debug)]
pub struct DualStore {
    green: Buffer,
    blue: Buffer,
}

impl DualStore {
    /// The contents of both buffers, green at index 0 and blue at index 1.
    pub closed spec fn view(&self) -> Seq<Map<Key, Value>> {
        seq![entries(&self.green), entries(&self.blue)]
    }

    /// There are two buffers.
    pub proof fn lemma_view_len(&self)
        ensures
            self@.len() == 2,
    {
    }

    /// A store of two empty buffers.
    pub fn new() -> (store: Self)
        ensures
            store@ == seq![Map::<Key, Value>::empty(), Map::<Key, Value>::empty()],
    {
        DualStore { green: buffer_new(), blue: buffer_new() }
    }

    /// A store of two empty buffers, each with room for `capacity` entries.
    pub fn with_capacity(capacity: usize) -> (store: Self)
        requires
            capacity <= MAX_CAPACITY,
        ensures
            store@ == seq![Map::<Key, Value>::empty(), Map::<Key, Value>::empty()],
    {
        DualStore { green: buffer_with_capacity(capacity), blue: buffer_with_capacity(capacity) }
    }

    /// The value stored under `key` in buffer `index`; an absent key is no
    /// error.
    pub fn read(&self, index: usize, key: &Key) -> (found: Option<Value>)
        requires
            index < 2,
        ensures
            found == lookup(self@[index as int], *key),
    {
        if index == 0 {
            buffer_get(&self.green, key)
        } else {
            buffer_get(&self.blue, key)
        }
    }

    /// Stores `value` under `key` in buffer `index` and leaves the other
    /// buffer alone.
    pub fn write(&mut self, index: usize, key: Key, value: Value)
        requires
            index < 2,
        ensures
            final(self)@ == old(self)@.update(
                index as int,
                old(self)@[index as int].insert(key, value),
            ),
    {
        if index == 0 {
            buffer_insert(&mut self.green, key, value);
        } else {
            buffer_insert(&mut self.blue, key, value);
        }
        assert(self@ =~= old(self)@.update(
            index as int,
            old(self)@[index as int].insert(key, value),
        ));
    }

    /// The number of entries in buffer `index`.
    pub fn len(&self, index: usize) -> (count: usize)
        requires
            index < 2,
        ensures
            count == self@[index as int].len(),
    {
        if index == 0 {
            buffer_len(&self.green)
        } else {
            buffer_len(&self.blue)
        }
    }
}

} // verus!
