//! The cloned-singleton strategy: the stored value is duplicated for the
//! caller and the slot is left in place.

use crate::container::{chain_lookup, DependencyContainer};
use crate::injector::InjectError;
use vstd::prelude::*;

verus! {

impl<T: Clone, F> DependencyContainer<T, F> {
    /// Resolve `key` to a clone of the nearest singleton.  The container is
    /// not changed; each call duplicates the stored value anew, so callers
    /// own their copies independently of the slot and of one another.
    pub fn inject_cloned(&self, key: u64) -> (r: Result<T, InjectError>)
        ensures
            match r {
                Ok(v) => {
                    &&& chain_lookup(self@, key) is Some
                    &&& vstd::pervasive::cloned::<T>(chain_lookup(self@, key)->Some_0, v)
                },
                Err(e) => {
                    &&& chain_lookup(self@, key) is None
                    &&& e == (InjectError::ProviderNotFound { key })
                },
            },
    {
        match self.inject_ref(key) {
            Ok(v) => Ok(v.clone()),
            Err(e) => Err(e),
        }
    }
}

} // verus!
