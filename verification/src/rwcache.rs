//! The single-buffer cache: one map that readers and writers share, with
//! every write visible at once.

pub use crate::error::CacheError;

use crate::store::{buffer_get, buffer_insert, buffer_len, buffer_new, entries, lookup};
use crate::store::{Buffer, Key, Value};
use vstd::prelude::*;

verus! {

/// A cache of one buffer.
#[derive(Debug)]
pub struct RwCache {
    cache: Buffer,
}

impl RwCache {
    /// The entries of the cache.
    pub closed spec fn view(&self) -> Map<Key, Value> {
        entries(&self.cache)
    }

    /// Stores `value` under `key`; readers see it at once.
    pub fn put(&mut self, key: Key, value: Value) -> (result: Result<(), CacheError>)
        ensures
            final(self)@ == old(self)@.insert(key, value),
            result is Ok,
    {
        buffer_insert(&mut self.cache, key, value);
        Ok(())
    }

    /// The value stored under `key`, if any.
    pub fn get(&self, key: &Key) -> (found: Option<Value>)
        ensures
            found == lookup(self@, *key),
    {
        buffer_get(&self.cache, key)
    }

    /// The number of entries.  Changes nothing.
    pub fn status(&self) -> (items: usize)
        ensures
            items == self@.len(),
    {
        buffer_len(&self.cache)
    }
}

impl Default for RwCache {
    /// An empty cache.
    fn default() -> (cache: Self)
        ensures
            cache@ == Map::<Key, Value>::empty(),
    {
        RwCache { cache: buffer_new() }
    }
}

} // verus!
