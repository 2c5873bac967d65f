//! A store shared between threads behind a reader-writer lock.
use crate::kv::KvStore;
use std::hash::Hash;
use std::sync::{Arc, RwLock};
use vstd::prelude::*;

verus! {

#[verifier::external_type_specification]
#[verifier::external_body]
#[verifier::reject_recursive_types(T)]
pub struct ExRwLock<T: ?Sized>(RwLock<T>);

/// Calls `std::sync::RwLock::new`, which wraps `t` in an unlocked lock.
/// Nothing is stated of the result: what a lock holds is not visible here.
#[verifier::external_body]
fn new_lock<T>(t: T) -> (r: RwLock<T>) {
    RwLock::new(t)
}

/// A shareable handle to one store.
#[verifier::reject_recursive_types(T)]
#[verifier::reject_recursive_types(U)]
pub struct KvHandle<T: Eq + Hash, U> {
    pub store: Arc<RwLock<KvStore<T, U>>>,
}

impl<T: Eq + Hash, U> KvHandle<T, U> {
    /// A handle to a new, empty store. The store is built verified (see
    /// `KvStore::new`); the lock around it is opaque here.
    pub fn new() -> (r: Self) {
        let kv_store = KvStore::new();
        let lock = new_lock(kv_store);
        Self { store: Arc::new(lock) }
    }
}

} // verus!
