//! Key-value stores: a store that reports success on every write, the one
//! in `kv_store` that hands back replaced values, and a shared handle.
pub mod kv_handle;
pub mod kv_store;

use crate::kv::kv_store::read;
use std::collections::HashMap;
use std::hash::Hash;
use vstd::prelude::*;
use vstd::std_specs::hash::obeys_key_model;

verus! {

/// A store whose `set` always reports success and keeps a journal of the
/// writes for the log. Its contents are `kv_store@`; as for the other store,
/// the map clauses hold for key types whose hashing is deterministic and
/// whose `==` is identity. The journal lists, oldest first, a copy of the key
/// and value of every `set` not yet taken by `take_records`; the caller
/// writes each as one log record.
#[verifier::reject_recursive_types(T)]
#[verifier::reject_recursive_types(U)]
pub struct KvStore<T: Eq + Hash, U> {
    pub kv_store: HashMap<T, U>,
    pub records: Vec<(T, U)>,
}

impl<T: Eq + Hash, U> KvStore<T, U> {
    /// An empty store with an empty journal.
    pub fn new() -> (r: Self)
        ensures
            r.kv_store@ == Map::<T, U>::empty(),
            r.records@ == Seq::<(T, U)>::empty(),
    {
        Self { kv_store: HashMap::new(), records: Vec::new() }
    }

    /// The value bound to `key`, if any.
    pub fn get(&self, key: &T) -> (r: Option<&U>)
        ensures
            obeys_key_model::<T>() ==> match r {
                Some(v) => read(self.kv_store@, *key) == Some(*v),
                None => read(self.kv_store@, *key) is None,
            },
    {
        if let Some(value) = self.kv_store.get(key) {
            Some(value)
        } else {
            None
        }
    }

    /// Hands out the journal, oldest write first, and empties it.
    pub fn take_records(&mut self) -> (r: Vec<(T, U)>)
        ensures
            r@ == old(self).records@,
            final(self).records@ == Seq::<(T, U)>::empty(),
            final(self).kv_store@ == old(self).kv_store@,
    {
        let mut taken: Vec<(T, U)> = Vec::new();
        std::mem::swap(&mut taken, &mut self.records);
        taken
    }
}

impl<T: Eq + Hash + Clone, U: Clone> KvStore<T, U> {
    /// Binds `key` to `value`, appends a copy of both to the journal, and
    /// returns `true`.
    pub fn set(&mut self, key: T, value: U) -> (r: bool)
        ensures
            r,
            obeys_key_model::<T>() ==> final(self).kv_store@ == old(self).kv_store@.insert(
                key,
                value,
            ),
            final(self).records@.len() == old(self).records@.len() + 1,
            final(self).records@.drop_last() == old(self).records@,
            cloned(key, final(self).records@.last().0),
            cloned(value, final(self).records@.last().1),
    {
        let record = (key.clone(), value.clone());
        self.kv_store.insert(key, value);
        self.records.push(record);
        assert(self.records@.drop_last() =~= old(self).records@);
        true
    }
}

} // verus!
