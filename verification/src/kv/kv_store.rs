//! A generic in-memory key-value store whose `set` hands back the value it
//! replaced.
use std::collections::HashMap;
use std::hash::Hash;
use vstd::prelude::*;
use vstd::std_specs::hash::obeys_key_model;

verus! {

/// What a read of `key` gives in the map `m`.
pub open spec fn read<T, U>(m: Map<T, U>, key: T) -> Option<U> {
    if m.contains_key(key) {
        Some(m[key])
    } else {
        None
    }
}

/// The store. Its contents are `kv_store@`. The map's behaviour is known for
/// key types that hash deterministically and whose `==` is identity (all the
/// integer types, among others); the contracts below hold for those.
#[verifier::reject_recursive_types(T)]
pub struct KvStore<T: Eq + Hash, U> {
    pub kv_store: HashMap<T, U>,
}

impl<T: Eq + Hash, U> KvStore<T, U> {
    /// An empty store.
    pub fn new() -> (r: Self)
        ensures
            r.kv_store@ == Map::<T, U>::empty(),
    {
        Self { kv_store: HashMap::new() }
    }

    /// Binds `key` to `value`, returning the value it was bound to before.
    pub fn set(&mut self, key: T, value: U) -> (r: Option<U>)
        ensures
            obeys_key_model::<T>() ==> final(self).kv_store@ == old(self).kv_store@.insert(
                key,
                value,
            ),
            obeys_key_model::<T>() ==> r == read(old(self).kv_store@, key),
    {
        self.kv_store.insert(key, value)
    }

    /// The value bound to `key`, if any.
    pub fn get(&self, key: &T) -> (r: Option<&U>)
        ensures
            obeys_key_model::<T>() ==> match r {
                Some(v) => read(self.kv_store@, *key) == Some(*v),
                None => read(self.kv_store@, *key) is None,
            },
    {
        self.kv_store.get(key)
    }
}

/// A read of the key just written gives the written value; every other key
/// reads as before.
pub proof fn lemma_read_after_set<T, U>(m: Map<T, U>, key: T, value: U, other: T)
    ensures
        read(m.insert(key, value), key) == Some(value),
        other != key ==> read(m.insert(key, value), other) == read(m, other),
{
}

/// Setting a key twice keeps only the second value.
pub proof fn lemma_second_set_wins<T, U>(m: Map<T, U>, key: T, first: U, second: U)
    ensures
        m.insert(key, first).insert(key, second) == m.insert(key, second),
{
    assert(m.insert(key, first).insert(key, second) =~= m.insert(key, second));
}

} // verus!
