//! The map that a left-right pair keeps two copies of, and the operation
//! that is logged for it.

use crate::model::lemma_lookup_extensional;
use crate::store::{lookup, Key, Value};
use left_right::{Absorb, ReadHandle, WriteHandle};
use std::collections::HashMap;
use vstd::prelude::*;
use vstd::std_specs::hash::{axiom_spec_hash_map_iter, spec_hash_map_iter};
use vstd::std_specs::iter::IteratorSpec;

verus! {

broadcast use vstd::std_specs::hash::group_hash_axioms;

/// One copy of the cached data.
#[derive(Debug)]
pub struct Cache {
    data: HashMap<Key, Value>,
}

/// The operation that adds one entry.
#[derive(Debug, Clone, Copy, PartialEq, Eq)]
pub struct AddOpp(pub Key, pub Value);

impl Cache {
    /// The entries of this copy.
    pub closed spec fn view(&self) -> Map<Key, Value> {
        self.data@
    }

    /// The value stored under `key`, if any.
    pub fn get(&self, key: &Key) -> (found: Option<Value>)
        ensures
            found == lookup(self@, *key),
    {
        match self.data.get(key) {
            Some(value) => Some(*value),
            None => None,
        }
    }

    /// Stores `value` under `key`, replacing what was there.
    pub fn insert(&mut self, key: Key, value: Value)
        ensures
            final(self)@ == old(self)@.insert(key, value),
    {
        let _ = self.data.insert(key, value);
    }

    /// Stores every entry of `from`, replacing what was there under the
    /// same keys.
    pub fn extend(&mut self, from: &Self)
        ensures
            final(self)@ == old(self)@.union_prefer_right(from@),
    {
        let ghost before = self@;
        let ghost items = spec_hash_map_iter(&from.data).remaining();
        let ghost mut seen: int = 0;
        for pair in it: from.data.iter()
            invariant
                it.seq() == items,
                seen == it.index(),
                forall|key: Key|
                    lookup(self@, key) == if exists|j: int|
                        0 <= j < seen && *(#[trigger] items[j]).0 == key {
                        lookup(from@, key)
                    } else {
                        lookup(before, key)
                    },
        {
            let ghost earlier = self@;
            self.insert(*pair.0, *pair.1);
            proof {
                axiom_spec_hash_map_iter(&from.data);
                assert(pair == items[seen]);
                assert(from@.contains_key(*items[seen].0));
                assert forall|key: Key|
                    lookup(self@, key) == if exists|j: int|
                        0 <= j < seen + 1 && *(#[trigger] items[j]).0 == key {
                        lookup(from@, key)
                    } else {
                        lookup(before, key)
                    } by {
                    if key == *pair.0 {
                        assert(*items[seen].0 == key);
                    } else {
                        assert(lookup(self@, key) == lookup(earlier, key));
                        if exists|j: int| 0 <= j < seen + 1 && *(#[trigger] items[j]).0 == key {
                            let j = choose|j: int|
                                0 <= j < seen + 1 && *(#[trigger] items[j]).0 == key;
                            assert(0 <= j < seen && *items[j].0 == key);
                        }
                    }
                }
                seen = seen + 1;
            }
        }
        proof {
            axiom_spec_hash_map_iter(&from.data);
            assert forall|key: Key|
                lookup(self@, key) == lookup(before.union_prefer_right(from@), key) by {
                if from@.contains_key(key) {
                    let j = items.index_of((&key, &from@[key]));
                    assert(*items[j].0 == key);
                }
            }
            lemma_lookup_extensional(self@, before.union_prefer_right(from@));
        }
    }
}

impl Default for Cache {
    /// A copy without entries.
    fn default() -> (cache: Self)
        ensures
            cache@ == Map::<Key, Value>::empty(),
    {
        Cache { data: HashMap::new() }
    }
}

/// Makes `left_right::ReadHandle` known to the verifier as an opaque type.
#[verifier::external_type_specification]
#[verifier::external_body]
#[verifier::reject_recursive_types(T)]
pub struct ExReadHandle<T>(ReadHandle<T>);

impl Absorb<AddOpp> for Cache {
    /// Applies the operation to the copy that sees it first.
    fn absorb_first(&mut self, operation: &mut AddOpp, _other: &Self)
        ensures
            final(self)@ == old(self)@.insert(old(operation).0, old(operation).1),
            *final(operation) == *old(operation),
    {
        self.insert(operation.0, operation.1);
    }

    /// Applies the operation to the copy that sees it second, to the same
    /// effect.
    fn absorb_second(&mut self, operation: AddOpp, _other: &Self)
        ensures
            final(self)@ == old(self)@.insert(operation.0, operation.1),
    {
        self.insert(operation.0, operation.1);
    }

    /// Nothing is shared between the copies, so the first one is dropped as
    /// it is.
    fn drop_first(self: Box<Self>) {
    }

    /// Brings this copy up to date with `first` before the first publish.
    fn sync_with(&mut self, first: &Self)
        ensures
            final(self)@ == old(self)@.union_prefer_right(first@),
    {
        self.extend(first);
    }
}

/// The writing end of a left-right pair of copies.  It holds a
/// `left_right::WriteHandle`, of which the verifier sees nothing: the handle
/// owns both copies and the log of operations, and it alone decides when a
/// copy absorbs an operation.
#[verifier::external_body]
pub struct CacheWriter(WriteHandle<Cache, AddOpp>);

/// A reading end of a left-right pair of copies.  What it reads changes
/// whenever the writing end publishes, so nothing is stated of it here.
pub struct CacheReader(ReadHandle<Cache>);

impl CacheWriter {
    /// Calls `WriteHandle::append` with the operation that adds the entry.
    /// Readers see the entry after the next `flush`.
    #[verifier::external_body]
    pub fn put(&mut self, key: Key, value: Value) {
        self.0.append(AddOpp(key, value));
    }

    /// Calls `WriteHandle::publish`, which returns once every reader has
    /// left the copy that is about to absorb the logged operations.
    #[verifier::external_body]
    pub fn flush(&mut self) {
        self.0.publish();
    }
}

impl CacheReader {
    /// Calls `ReadHandle::enter` and looks the key up in the copy that the
    /// guard gives access to.  There is no answer once the writing end is
    /// gone.
    #[verifier::external_body]
    pub fn get(&self, key: &Key) -> Option<Value> {
        self.0.enter().map(|guard| guard.get(key)).unwrap_or(None)
    }
}

impl Clone for CacheReader {
    /// Calls `ReadHandle::clone`: one more reading end of the same pair.
    #[verifier::external_body]
    fn clone(&self) -> Self {
        CacheReader(self.0.clone())
    }
}

/// Calls `left_right::new`: the two ends of a fresh pair of empty copies.
#[verifier::external_body]
pub fn new() -> (CacheWriter, CacheReader) {
    let (write, read) = left_right::new::<Cache, AddOpp>();
    (CacheWriter(write), CacheReader(read))
}

} // verus!
