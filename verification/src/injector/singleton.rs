//! The singleton strategies: a stored value resolved by shared reference, by
//! exclusive reference, or by consuming its slot.

use crate::container::{
    chain_lookup, chain_remove, chain_update, lemma_scopes_unfold, DependencyContainer,
};
use crate::injector::InjectError;
use vstd::prelude::*;

verus! {

/// A provider slot that owns one concrete value.
pub struct SingletonContainer<T> {
    /// Key of the produced value.
    pub key: u64,
    /// The stored value.
    pub value: T,
}

impl<T, F> DependencyContainer<T, F> {
    /// Resolve `key` to a shared reference to the nearest singleton.  The
    /// container is not changed, so the same reference can be taken any
    /// number of times.
    pub fn inject_ref(&self, key: u64) -> (r: Result<&T, InjectError>)
        ensures
            match r {
                Ok(v) => chain_lookup(self@, key) == Some(*v),
                Err(e) => {
                    &&& chain_lookup(self@, key) is None
                    &&& e == (InjectError::ProviderNotFound { key })
                },
            },
        decreases *self,
    {
        proof {
            lemma_scopes_unfold(*self);
        }
        match self.scope.get_singleton(key) {
            Some(v) => Ok(v),
            None => match &self.parent {
                Some(p) => {
                    proof {
                        assert(chain_lookup(self@, key) == chain_lookup(p@, key));
                    }
                    p.inject_ref(key)
                },
                None => {
                    proof {
                        assert(chain_lookup(self@.skip(1), key) is None);
                    }
                    Err(InjectError::ProviderNotFound { key })
                },
            },
        }
    }

    /// Resolve `key` to an exclusive reference to the nearest singleton.  The
    /// caller may rewrite the stored value through it; the slot itself stays.
    pub fn inject_mut(&mut self, key: u64) -> (r: Result<&mut T, InjectError>)
        ensures
            match r {
                Ok(m) => {
                    &&& chain_lookup(old(self)@, key) == Some(*m)
                    &&& final (self)@ == chain_update(old(self)@, key, *final (m))
                },
                Err(e) => {
                    &&& chain_lookup(old(self)@, key) is None
                    &&& e == (InjectError::ProviderNotFound { key })
                    &&& final (self)@ == old(self)@
                },
            },
        decreases *old(self),
    {
        proof {
            lemma_scopes_unfold(*self);
        }
        match self.scope.get_mut(key) {
            Some(m) => Ok(m),
            None => match &mut self.parent {
                Some(p) => {
                    proof {
                        assert(chain_lookup(old(self)@, key) == chain_lookup(crate::container::scopes(**p), key));
                    }
                    p.inject_mut(key)
                },
                None => {
                    proof {
                        assert(chain_lookup(old(self)@.skip(1), key) is None);
                    }
                    Err(InjectError::ProviderNotFound { key })
                },
            },
        }
    }

    /// Resolve `key` by consuming the nearest singleton: its value is handed
    /// out and its slot removed, so a later request for the same key can only
    /// be served by some other, farther provider.
    pub fn inject_owned(&mut self, key: u64) -> (r: Result<T, InjectError>)
        ensures
            match r {
                Ok(v) => {
                    &&& chain_lookup(old(self)@, key) == Some(v)
                    &&& final (self)@ == chain_remove(old(self)@, key)
                },
                Err(e) => {
                    &&& chain_lookup(old(self)@, key) is None
                    &&& e == (InjectError::ProviderNotFound { key })
                    &&& final (self)@ == old(self)@
                },
            },
        decreases *old(self),
    {
        proof {
            lemma_scopes_unfold(*self);
        }
        match self.scope.remove(key) {
            Some(v) => Ok(v),
            None => match &mut self.parent {
                Some(p) => {
                    proof {
                        assert(chain_lookup(old(self)@, key) == chain_lookup(crate::container::scopes(**p), key));
                    }
                    p.inject_owned(key)
                },
                None => {
                    proof {
                        assert(chain_lookup(old(self)@.skip(1), key) is None);
                    }
                    Err(InjectError::ProviderNotFound { key })
                },
            },
        }
    }
}

} // verus!
