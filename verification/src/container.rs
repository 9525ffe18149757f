//! The container: one scope of providers plus an optional parent container.

use crate::deps_list::{
    find_singleton, find_slot, remove_singleton, update_singleton, DepsList, Provider,
};
use crate::injector::constructor_factory::{
    ConstructorFactory, ConstructorFactoryContainer, RefConstructorFactoryContainer,
};
use crate::injector::factory::{Factory, FactoryContainer, RefFactory, RefFactoryContainer};
use crate::injector::singleton::SingletonContainer;
use vstd::prelude::*;

verus! {

/// An inversion-of-control container: a scope of providers and an optional
/// parent.  Registration prepends to the scope; resolution searches the scope
/// head-first and falls back to the parent chain on a miss.
pub struct DependencyContainer<T, F> {
    /// The enclosing container; the root has none.
    pub parent: Option<Box<DependencyContainer<T, F>>>,
    /// The providers registered in this scope.
    pub scope: DepsList<T, F>,
}

/// The scope chain of a container, nearest scope first.
pub open spec fn scopes<T, F>(c: DependencyContainer<T, F>) -> Seq<Seq<Provider<T, F>>>
    decreases c,
{
    match c.parent {
        Some(p) => seq![c.scope@] + scopes(*p),
        None => seq![c.scope@],
    }
}

impl<T, F> View for DependencyContainer<T, F> {
    type V = Seq<Seq<Provider<T, F>>>;

    open spec fn view(&self) -> Seq<Seq<Provider<T, F>>> {
        scopes(*self)
    }
}

/// Nearest singleton value for `key` in a scope chain.
pub open spec fn chain_lookup<T, F>(m: Seq<Seq<Provider<T, F>>>, key: u64) -> Option<T>
    decreases m.len(),
{
    if m.len() == 0 {
        None
    } else {
        match find_singleton(m[0], key) {
            Some(v) => Some(v),
            None => chain_lookup(m.skip(1), key),
        }
    }
}

/// Nearest provider of any kind for `key` in a scope chain.
pub open spec fn chain_slot<T, F>(m: Seq<Seq<Provider<T, F>>>, key: u64) -> Option<Provider<T, F>>
    decreases m.len(),
{
    if m.len() == 0 {
        None
    } else {
        match find_slot(m[0], key) {
            Some(p) => Some(p),
            None => chain_slot(m.skip(1), key),
        }
    }
}

/// The chain with its nearest singleton slot for `key` excised; the chain
/// itself when it holds none.
pub open spec fn chain_remove<T, F>(m: Seq<Seq<Provider<T, F>>>, key: u64) -> Seq<
    Seq<Provider<T, F>>,
>
    decreases m.len(),
{
    if m.len() == 0 {
        m
    } else if find_singleton(m[0], key) is Some {
        seq![remove_singleton(m[0], key)] + m.skip(1)
    } else {
        seq![m[0]] + chain_remove(m.skip(1), key)
    }
}

/// The chain with the value of its nearest singleton slot for `key` replaced
/// by `v`; the chain itself when it holds none.
pub open spec fn chain_update<T, F>(m: Seq<Seq<Provider<T, F>>>, key: u64, v: T) -> Seq<
    Seq<Provider<T, F>>,
>
    decreases m.len(),
{
    if m.len() == 0 {
        m
    } else if find_singleton(m[0], key) is Some {
        seq![update_singleton(m[0], key, v)] + m.skip(1)
    } else {
        seq![m[0]] + chain_update(m.skip(1), key, v)
    }
}

impl<T, F> DependencyContainer<T, F> {
    /// Wrap a parent container — or nothing, for a root — with an empty scope.
    pub fn new(parent: Option<Box<DependencyContainer<T, F>>>) -> (r: Self)
        ensures
            r@ =~= match parent {
                Some(p) => seq![Seq::<Provider<T, F>>::empty()] + p@,
                None => seq![Seq::<Provider<T, F>>::empty()],
            },
    {
        DependencyContainer { parent, scope: DepsList::new() }
    }

    /// Register a concrete value; the new slot shadows every older provider
    /// of the same key visible from this container.
    pub fn with_singleton(self, key: u64, value: T) -> (r: Self)
        ensures
            self@.len() > 0,
            r@ =~= registered(self@, key, value),
    {
        let p = Provider::Singleton(SingletonContainer { key, value });
        DependencyContainer { parent: self.parent, scope: self.scope.prepend(p) }
    }

    /// Register a factory for `key`: a callable built over the owned values
    /// resolved for `shape`, in order.
    pub fn with_factory(self, key: u64, shape: Vec<u64>, factory: F) -> (r: Self) where
        F: Factory<T>,

        ensures
            self@.len() > 0,
            r@ =~= self@.update(
                0,
                seq![Provider::Factory(FactoryContainer { key, shape, factory })] + self@[0],
            ),
    {
        let p = Provider::Factory(FactoryContainer { key, shape, factory });
        DependencyContainer { parent: self.parent, scope: self.scope.prepend(p) }
    }

    /// Register a factory for `key` whose build borrows the singletons
    /// resolved for `shape` instead of owning them.
    pub fn with_ref_factory(self, key: u64, shape: Vec<u64>, factory: F) -> (r: Self) where
        F: RefFactory<T>,

        ensures
            self@.len() > 0,
            r@ =~= self@.update(
                0,
                seq![Provider::RefFactory(RefFactoryContainer { key, shape, factory })] + self@[0],
            ),
    {
        let p = Provider::RefFactory(RefFactoryContainer { key, shape, factory });
        DependencyContainer { parent: self.parent, scope: self.scope.prepend(p) }
    }

    /// Register a constructor-built provider: the produced value's own build
    /// operation is invoked on the owned values resolved for `shape`.
    pub fn with_constructor_factory(self, key: u64, shape: Vec<u64>) -> (r: Self) where
        T: ConstructorFactory,

        ensures
            self@.len() > 0,
            r@ =~= self@.update(
                0,
                seq![Provider::ConstructorFactory(ConstructorFactoryContainer { key, shape })]
                    + self@[0],
            ),
    {
        let p = Provider::ConstructorFactory(ConstructorFactoryContainer { key, shape });
        DependencyContainer { parent: self.parent, scope: self.scope.prepend(p) }
    }

    /// Register a constructor-built provider whose build borrows the
    /// singletons resolved for `shape`.
    pub fn with_ref_constructor_factory(self, key: u64, shape: Vec<u64>) -> (r: Self)
        ensures
            self@.len() > 0,
            r@ =~= self@.update(
                0,
                seq![
                    Provider::RefConstructorFactory(
                        RefConstructorFactoryContainer { key, shape },
                    ),
                ] + self@[0],
            ),
    {
        let p = Provider::RefConstructorFactory(RefConstructorFactoryContainer { key, shape });
        DependencyContainer { parent: self.parent, scope: self.scope.prepend(p) }
    }

    /// Shared reference to the nearest provider of any kind for `key`: the
    /// slot a by-value resolution of `key` would pick.
    pub fn get(&self, key: u64) -> (r: Option<&Provider<T, F>>)
        ensures
            match r {
                Some(p) => chain_slot(self@, key) == Some(*p),
                None => chain_slot(self@, key) is None,
            },
        decreases *self,
    {
        proof {
            lemma_scopes_unfold(*self);
        }
        match self.scope.get(key) {
            Some(p) => Some(p),
            None => match &self.parent {
                Some(p) => {
                    proof {
                        assert(chain_slot(self@, key) == chain_slot(p@, key));
                    }
                    p.get(key)
                },
                None => {
                    proof {
                        assert(chain_slot(self@.skip(1), key) is None);
                    }
                    None
                },
            },
        }
    }

    /// The container `levels` scopes up the parent chain; `0` is this
    /// container itself.  Resolving against it restricts a request to an
    /// ancestor scope and the scopes behind it.
    pub fn ancestor(&self, levels: u64) -> (r: Option<&Self>)
        ensures
            match r {
                Some(a) => {
                    &&& levels < self@.len()
                    &&& a@ =~= self@.skip(levels as int)
                },
                None => self@.len() <= levels,
            },
        decreases *self,
    {
        if levels == 0 {
            proof {
                assert(self@.skip(0) =~= self@);
            }
            Some(self)
        } else {
            match &self.parent {
                Some(p) => {
                    let r = p.ancestor(levels - 1);
                    proof {
                        assert(self@.skip(1) =~= p@);
                        if r is Some {
                            vstd::seq_lib::lemma_seq_skip_of_skip(self@, 1, levels as int - 1);
                        }
                    }
                    r
                },
                None => None,
            }
        }
    }
}

/// The scope chain after a singleton registration: the new slot prepended
/// to the nearest scope.
pub open spec fn registered<T, F>(m: Seq<Seq<Provider<T, F>>>, key: u64, value: T) -> Seq<
    Seq<Provider<T, F>>,
>
    recommends
        m.len() > 0,
{
    m.update(0, seq![Provider::Singleton(SingletonContainer { key, value })] + m[0])
}

/// Number of slots of any kind for `key` in one scope.
pub open spec fn scope_key_count<T, F>(s: Seq<Provider<T, F>>, key: u64) -> nat
    decreases s.len(),
{
    if s.len() == 0 {
        0
    } else if s[0].spec_key() == key {
        1 + scope_key_count(s.skip(1), key)
    } else {
        scope_key_count(s.skip(1), key)
    }
}

/// Number of slots of any kind for `key` over the whole chain.
pub open spec fn chain_key_count<T, F>(m: Seq<Seq<Provider<T, F>>>, key: u64) -> nat
    decreases m.len(),
{
    if m.len() == 0 {
        0
    } else {
        scope_key_count(m[0], key) + chain_key_count(m.skip(1), key)
    }
}

/// A scope without a slot for `key` misses every search for it, and removing
/// `key` from it changes nothing.
proof fn lemma_scope_no_key<T, F>(s: Seq<Provider<T, F>>, key: u64)
    requires
        scope_key_count(s, key) == 0,
    ensures
        find_slot(s, key) is None,
        find_singleton(s, key) is None,
        remove_singleton(s, key) == s,
    decreases s.len(),
{
    if s.len() > 0 {
        lemma_scope_no_key(s.skip(1), key);
        assert(seq![s[0]] + s.skip(1) =~= s);
    }
}

/// A scope whose singleton search hits has a slot for `key`, and removing
/// that singleton takes exactly one `key` slot away.
proof fn lemma_scope_consume_count<T, F>(s: Seq<Provider<T, F>>, key: u64)
    requires
        find_singleton(s, key) is Some,
    ensures
        scope_key_count(s, key) >= 1,
        scope_key_count(remove_singleton(s, key), key) == scope_key_count(s, key) - 1,
    decreases s.len(),
{
    if s.len() > 0 {
        if s[0].is_singleton() && s[0].spec_key() == key {
        } else {
            lemma_scope_consume_count(s.skip(1), key);
            let r = seq![s[0]] + remove_singleton(s.skip(1), key);
            assert(r[0] == s[0]);
            assert(r.skip(1) =~= remove_singleton(s.skip(1), key));
        }
    }
}

/// Removing a singleton for `key` from a scope leaves every search for any
/// other key as it was.
proof fn lemma_scope_remove_preserves_others<T, F>(s: Seq<Provider<T, F>>, key: u64, other: u64)
    requires
        other != key,
    ensures
        find_singleton(remove_singleton(s, key), other) == find_singleton(s, other),
        find_slot(remove_singleton(s, key), other) == find_slot(s, other),
    decreases s.len(),
{
    if s.len() > 0 {
        lemma_scope_remove_preserves_others(s.skip(1), key, other);
        if s[0].is_singleton() && s[0].spec_key() == key {
        } else {
            let r = seq![s[0]] + remove_singleton(s.skip(1), key);
            assert(r[0] == s[0]);
            assert(r.skip(1) =~= remove_singleton(s.skip(1), key));
        }
    }
}

/// A chain without a slot for `key` misses every search for it, and removing
/// `key` from it changes nothing.
proof fn lemma_chain_no_key<T, F>(m: Seq<Seq<Provider<T, F>>>, key: u64)
    requires
        chain_key_count(m, key) == 0,
    ensures
        chain_lookup(m, key) is None,
        chain_slot(m, key) is None,
        chain_remove(m, key) == m,
    decreases m.len(),
{
    if m.len() > 0 {
        lemma_scope_no_key(m[0], key);
        lemma_chain_no_key(m.skip(1), key);
        assert(seq![m[0]] + m.skip(1) =~= m);
    }
}

/// Consuming a singleton takes its slot out for good: when the consumed slot
/// was the only provider of its key anywhere in the chain, a second request
/// for that key — by reference, or by value under any strategy — finds no
/// provider at all.
pub proof fn lemma_consumed_singleton_is_gone<T, F>(m: Seq<Seq<Provider<T, F>>>, key: u64)
    requires
        chain_key_count(m, key) == 1,
        chain_lookup(m, key) is Some,
    ensures
        chain_lookup(chain_remove(m, key), key) is None,
        chain_slot(chain_remove(m, key), key) is None,
    decreases m.len(),
{
    if m.len() > 0 {
        if find_singleton(m[0], key) is Some {
            lemma_scope_consume_count(m[0], key);
            assert(chain_key_count(m.skip(1), key) == 0);
            assert(scope_key_count(remove_singleton(m[0], key), key) == 0);
            lemma_scope_no_key(remove_singleton(m[0], key), key);
            lemma_chain_no_key(m.skip(1), key);
            let r = seq![remove_singleton(m[0], key)] + m.skip(1);
            assert(r[0] == remove_singleton(m[0], key));
            assert(r.skip(1) =~= m.skip(1));
        } else {
            if scope_key_count(m[0], key) == 0 {
                lemma_scope_no_key(m[0], key);
                lemma_consumed_singleton_is_gone(m.skip(1), key);
                let r = seq![m[0]] + chain_remove(m.skip(1), key);
                assert(r[0] == m[0]);
                assert(r.skip(1) =~= chain_remove(m.skip(1), key));
            } else {
                assert(chain_key_count(m.skip(1), key) == 0);
                lemma_chain_no_key(m.skip(1), key);
                assert(false);
            }
        }
    }
}

/// A failed or consuming resolution of one key leaves every other key as it
/// was: removing a singleton for `key` changes neither what any other key
/// resolves to by reference nor which slot serves it by value.
pub proof fn lemma_consume_preserves_others<T, F>(
    m: Seq<Seq<Provider<T, F>>>,
    key: u64,
    other: u64,
)
    requires
        other != key,
    ensures
        chain_lookup(chain_remove(m, key), other) == chain_lookup(m, other),
        chain_slot(chain_remove(m, key), other) == chain_slot(m, other),
    decreases m.len(),
{
    if m.len() > 0 {
        lemma_scope_remove_preserves_others(m[0], key, other);
        if find_singleton(m[0], key) is Some {
            let r = seq![remove_singleton(m[0], key)] + m.skip(1);
            assert(r[0] == remove_singleton(m[0], key));
            assert(r.skip(1) =~= m.skip(1));
        } else {
            lemma_consume_preserves_others(m.skip(1), key, other);
            let r = seq![m[0]] + chain_remove(m.skip(1), key);
            assert(r[0] == m[0]);
            assert(r.skip(1) =~= chain_remove(m.skip(1), key));
        }
    }
}

/// A value registered as a singleton is what a by-reference resolution of
/// its key finds, whatever was registered before it and whatever the parent
/// chain holds; and since resolving by reference leaves the container as it
/// is, every further by-reference resolution finds the same stored value.
pub proof fn lemma_registered_singleton_resolves<T, F>(
    m: Seq<Seq<Provider<T, F>>>,
    key: u64,
    value: T,
)
    requires
        m.len() > 0,
    ensures
        chain_lookup(registered(m, key, value), key) == Some(value),
{
    let s: Seq<Provider<T, F>> = seq![Provider::Singleton(SingletonContainer { key, value })]
        + m[0];
    assert(s[0] == Provider::<T, F>::Singleton(SingletonContainer { key, value }));
    assert(find_singleton(s, key) == Some(value));
}

/// Shadowing: a child scope that registers `key` answers for it itself — the
/// resolved value is the child's, whatever any farther slot of the chain
/// holds for the same key.  The parent, being a value of its own that the
/// registration did not touch, still resolves `key` as it always did.
pub proof fn lemma_child_shadows_parent<T, F>(
    scope: Seq<Provider<T, F>>,
    parent: Seq<Seq<Provider<T, F>>>,
    key: u64,
    value: T,
)
    ensures
        chain_lookup(
            seq![seq![Provider::Singleton(SingletonContainer { key, value })] + scope] + parent,
            key,
        ) == Some(value),
{
    let m = seq![scope] + parent;
    assert(m.len() > 0);
    assert(m[0] == scope);
    lemma_registered_singleton_resolves(m, key, value);
    assert(m.update(0, seq![Provider::Singleton(SingletonContainer { key, value })] + scope)
        =~= seq![seq![Provider::Singleton(SingletonContainer { key, value })] + scope] + parent);
}

/// Ancestor fallback: when a child's own scope holds no singleton for
/// `key`, resolving `key` against the child is resolving it against the
/// parent chain.
pub proof fn lemma_parent_fallback<T, F>(
    scope: Seq<Provider<T, F>>,
    parent: Seq<Seq<Provider<T, F>>>,
    key: u64,
)
    requires
        find_singleton(scope, key) is None,
    ensures
        chain_lookup(seq![scope] + parent, key) == chain_lookup(parent, key),
{
    let m = seq![scope] + parent;
    assert(m[0] == scope);
    assert(m.skip(1) =~= parent);
}

/// One unfolding of the scope chain: the chain starts with the container's
/// own scope, and the rest of it is the parent's chain.
pub proof fn lemma_scopes_unfold<T, F>(c: DependencyContainer<T, F>)
    ensures
        scopes(c).len() >= 1,
        scopes(c)[0] == c.scope@,
        c.parent is Some ==> scopes(c).skip(1) == scopes(*c.parent->Some_0),
        c.parent is None ==> scopes(c).len() == 1,
{
    match c.parent {
        Some(p) => {
            assert((seq![c.scope@] + scopes(*p)).skip(1) =~= scopes(*p));
        },
        None => {},
    }
}

impl<T, F> Default for DependencyContainer<T, F> {
    /// A root container with an empty scope.
    fn default() -> (r: Self)
        ensures
            r@ =~= seq![Seq::<Provider<T, F>>::empty()],
    {
        DependencyContainer::new(None)
    }
}

} // verus!
