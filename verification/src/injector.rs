//! Resolution: the strategies a provider is resolved by, and the engine that
//! picks a provider for a requested key and drives factories.

pub mod constructor_factory;
pub mod factory;
pub mod singleton;
pub mod singleton_cloned;

pub use constructor_factory::{
    ConstructorFactory, ConstructorFactoryContainer, RefConstructorFactory,
    RefConstructorFactoryContainer,
};
pub use factory::{Factory, FactoryContainer, RefFactory, RefFactoryContainer};
pub use singleton::SingletonContainer;

use crate::container::{
    chain_lookup, chain_slot, lemma_scopes_unfold, registered, DependencyContainer,
};
use crate::deps_list::{find_singleton, find_slot, Provider};
use vstd::prelude::*;

verus! {

/// Why a resolution request failed.  A failure is local to the request: the
/// container is left as it was and stays usable.
#[derive(Clone, Copy, Debug, PartialEq, Eq, Structural)]
pub enum InjectError {
    /// No provider that the chosen strategy can use is registered for the
    /// key, in any scope of the chain.
    ProviderNotFound {
        /// The requested key.
        key: u64,
    },
    /// Resolving the key ran out of nesting depth: some factory's shape
    /// transitively requires the factory's own result.
    CyclicDependency {
        /// The requested key whose resolution exceeded the depth bound.
        key: u64,
    },
    /// A borrowed-shape element is served by no singleton, only by factories,
    /// whose built values would not outlive the resolution call.
    ShapeMismatch {
        /// The shape element's key.
        key: u64,
    },
}

/// The error a by-value resolution of `key` ends in, or `None` when it
/// succeeds.  Success is decided by the registered slots alone, never by the
/// values factories build: the nearest slot must exist, owned shapes must
/// resolve within the remaining nesting depth `fuel`, and borrowed shapes
/// must be served by singletons.
pub open spec fn resolve_err<T, F>(
    m: Seq<Seq<Provider<T, F>>>,
    key: u64,
    fuel: nat,
) -> Option<InjectError>
    decreases fuel, 0nat,
{
    match chain_slot(m, key) {
        None => Some(InjectError::ProviderNotFound { key }),
        Some(p) => match p {
            Provider::Singleton(_) => None,
            Provider::Factory(c) => if fuel == 0 {
                Some(InjectError::CyclicDependency { key })
            } else {
                resolve_list_err(m, c.shape@, (fuel - 1) as nat)
            },
            Provider::ConstructorFactory(c) => if fuel == 0 {
                Some(InjectError::CyclicDependency { key })
            } else {
                resolve_list_err(m, c.shape@, (fuel - 1) as nat)
            },
            Provider::RefFactory(c) => ref_shape_err(m, c.shape@),
            Provider::RefConstructorFactory(c) => ref_shape_err(m, c.shape@),
        },
    }
}

/// The first error an in-order, element-wise resolution of `keys` ends in,
/// or `None` when every element resolves.
pub open spec fn resolve_list_err<T, F>(
    m: Seq<Seq<Provider<T, F>>>,
    keys: Seq<u64>,
    fuel: nat,
) -> Option<InjectError>
    decreases fuel, keys.len() + 1,
{
    if keys.len() == 0 {
        None
    } else {
        match resolve_err(m, keys[0], fuel) {
            Some(e) => Some(e),
            None => resolve_list_err(m, keys.skip(1), fuel),
        }
    }
}

/// The first error of a borrowed shape, or `None`: every element must be
/// served by a singleton somewhere in the chain, since only a stored value
/// can be lent out for the duration of a build.
pub open spec fn ref_shape_err<T, F>(m: Seq<Seq<Provider<T, F>>>, keys: Seq<u64>) -> Option<
    InjectError,
>
    decreases keys.len(),
{
    if keys.len() == 0 {
        None
    } else if chain_lookup(m, keys[0]) is Some {
        ref_shape_err(m, keys.skip(1))
    } else if chain_slot(m, keys[0]) is Some {
        Some(InjectError::ShapeMismatch { key: keys[0] })
    } else {
        Some(InjectError::ProviderNotFound { key: keys[0] })
    }
}

/// `ds` is the list of borrowed dependencies a borrowed shape resolves to:
/// element for element, the nearest singleton for the shape's key.
pub open spec fn ref_shape_matches<T, F>(
    m: Seq<Seq<Provider<T, F>>>,
    keys: Seq<u64>,
    ds: Seq<&T>,
) -> bool
    decreases keys.len(),
{
    &&& ds.len() == keys.len()
    &&& if keys.len() == 0 {
        true
    } else {
        &&& chain_lookup(m, keys[0]) == Some(*ds[0])
        &&& ref_shape_matches(m, keys.skip(1), ds.skip(1))
    }
}

/// `v` is a value a by-value resolution of `key` can end in: the nearest
/// slot's strategy applied — a clone of a stored singleton, or a factory's
/// build over dependencies that this relation resolves in turn.  Factory
/// builds are related to their dependencies through `call_ensures`, so the
/// relation admits exactly the values the registered build operations can
/// return.
pub open spec fn resolves_to<
    T: Clone + ConstructorFactory + RefConstructorFactory,
    F: Factory<T> + RefFactory<T>,
>(m: Seq<Seq<Provider<T, F>>>, key: u64, fuel: nat, v: T) -> bool
    decreases fuel, 0nat,
{
    match chain_slot(m, key) {
        None => false,
        Some(p) => match p {
            Provider::Singleton(c) => vstd::pervasive::cloned::<T>(c.value, v),
            Provider::Factory(c) => fuel > 0 && exists|ds: Vec<T>|
                resolve_list_to(m, c.shape@, (fuel - 1) as nat, ds@) && call_ensures(
                    <F as Factory<T>>::build,
                    (&c.factory, ds),
                    v,
                ),
            Provider::ConstructorFactory(c) => fuel > 0 && exists|ds: Vec<T>|
                resolve_list_to(m, c.shape@, (fuel - 1) as nat, ds@) && call_ensures(
                    <T as ConstructorFactory>::build,
                    (key, ds),
                    v,
                ),
            Provider::RefFactory(c) => exists|ds: Vec<&T>|
                ref_shape_matches(m, c.shape@, ds@) && call_ensures(
                    <F as RefFactory<T>>::build,
                    (&c.factory, ds),
                    v,
                ),
            Provider::RefConstructorFactory(c) => exists|ds: Vec<&T>|
                ref_shape_matches(m, c.shape@, ds@) && call_ensures(
                    <T as RefConstructorFactory>::build,
                    (key, ds),
                    v,
                ),
        },
    }
}

/// `vs` is a list of values an in-order, element-wise resolution of `keys`
/// can end in.
pub open spec fn resolve_list_to<
    T: Clone + ConstructorFactory + RefConstructorFactory,
    F: Factory<T> + RefFactory<T>,
>(m: Seq<Seq<Provider<T, F>>>, keys: Seq<u64>, fuel: nat, vs: Seq<T>) -> bool
    decreases fuel, keys.len() + 1,
{
    &&& vs.len() == keys.len()
    &&& if keys.len() == 0 {
        true
    } else {
        &&& resolves_to(m, keys[0], fuel, vs[0])
        &&& resolve_list_to(m, keys.skip(1), fuel, vs.skip(1))
    }
}

/// Saturating sum of the slot counts of all scopes in the chain.
pub open spec fn chain_slots<T, F>(m: Seq<Seq<Provider<T, F>>>) -> nat
    decreases m.len(),
{
    if m.len() == 0 {
        0
    } else {
        sat_add_u64(m[0].len(), chain_slots(m.skip(1)))
    }
}

/// Saturating addition within `u64` range.
pub open spec fn sat_add_u64(a: nat, b: nat) -> nat {
    if a + b > u64::MAX {
        u64::MAX as nat
    } else {
        a + b
    }
}

/// The nesting-depth bound a resolution starts with: one more than the
/// number of registered slots.  An acyclic dependency graph never nests
/// deeper than the number of factory slots it can pass through, so only a
/// shape that transitively requires its own factory can run this out.
pub open spec fn chain_fuel<T, F>(m: Seq<Seq<Provider<T, F>>>) -> nat {
    sat_add_u64(chain_slots(m), 1)
}

/// Borrowed shapes see a chain only through the nearest singleton and slot
/// of each key: chains that agree on those resolve a borrowed shape alike.
proof fn lemma_ref_shape_depends_on_slots<T, F>(
    m1: Seq<Seq<Provider<T, F>>>,
    m2: Seq<Seq<Provider<T, F>>>,
    keys: Seq<u64>,
)
    requires
        forall|k: u64| #[trigger] chain_slot(m1, k) == chain_slot(m2, k),
        forall|k: u64| #[trigger] chain_lookup(m1, k) == chain_lookup(m2, k),
    ensures
        ref_shape_err(m1, keys) == ref_shape_err(m2, keys),
        forall|ds: Seq<&T>| #[trigger] ref_shape_matches(m1, keys, ds) == ref_shape_matches(
            m2,
            keys,
            ds,
        ),
    decreases keys.len(),
{
    if keys.len() > 0 {
        lemma_ref_shape_depends_on_slots(m1, m2, keys.skip(1));
        assert forall|ds: Seq<&T>|
            #[trigger] ref_shape_matches(m1, keys, ds) == ref_shape_matches(m2, keys, ds) by {
            assert(ref_shape_matches(m1, keys.skip(1), ds.skip(1)) == ref_shape_matches(
                m2,
                keys.skip(1),
                ds.skip(1),
            ));
        }
    }
}

/// Resolution sees a container only through which slot serves each key: two
/// chains that agree, key for key, on the nearest slot and on the nearest
/// singleton resolve every by-value request alike — same success, same
/// error, same admissible values.  In particular, where a provider stands in
/// the registry is immaterial as long as it is the nearest one of its key.
pub proof fn lemma_resolution_depends_on_slots<
    T: Clone + ConstructorFactory + RefConstructorFactory,
    F: Factory<T> + RefFactory<T>,
>(m1: Seq<Seq<Provider<T, F>>>, m2: Seq<Seq<Provider<T, F>>>, key: u64, fuel: nat)
    requires
        forall|k: u64| #[trigger] chain_slot(m1, k) == chain_slot(m2, k),
        forall|k: u64| #[trigger] chain_lookup(m1, k) == chain_lookup(m2, k),
    ensures
        resolve_err(m1, key, fuel) == resolve_err(m2, key, fuel),
        forall|v: T| #[trigger] resolves_to(m1, key, fuel, v) == resolves_to(m2, key, fuel, v),
    decreases fuel, 0nat,
{
    match chain_slot(m1, key) {
        None => {},
        Some(p) => match p {
            Provider::Singleton(_) => {},
            Provider::Factory(c) => {
                if fuel > 0 {
                    lemma_list_resolution_depends_on_slots(m1, m2, c.shape@, (fuel - 1) as nat);
                    assert forall|v: T|
                        #[trigger] resolves_to(m1, key, fuel, v) == resolves_to(
                            m2,
                            key,
                            fuel,
                            v,
                        ) by {
                        if resolves_to(m1, key, fuel, v) {
                            let ds = choose|ds: Vec<T>|
                                resolve_list_to(m1, c.shape@, (fuel - 1) as nat, ds@)
                                    && call_ensures(
                                    <F as Factory<T>>::build,
                                    (&c.factory, ds),
                                    v,
                                );
                            assert(resolve_list_to(m2, c.shape@, (fuel - 1) as nat, ds@));
                            assert(resolves_to(m2, key, fuel, v));
                        }
                        if resolves_to(m2, key, fuel, v) {
                            let ds = choose|ds: Vec<T>|
                                resolve_list_to(m2, c.shape@, (fuel - 1) as nat, ds@)
                                    && call_ensures(
                                    <F as Factory<T>>::build,
                                    (&c.factory, ds),
                                    v,
                                );
                            assert(resolve_list_to(m1, c.shape@, (fuel - 1) as nat, ds@));
                            assert(resolves_to(m1, key, fuel, v));
                        }
                    }
                }
            },
            Provider::ConstructorFactory(c) => {
                if fuel > 0 {
                    lemma_list_resolution_depends_on_slots(m1, m2, c.shape@, (fuel - 1) as nat);
                    assert forall|v: T|
                        #[trigger] resolves_to(m1, key, fuel, v) == resolves_to(
                            m2,
                            key,
                            fuel,
                            v,
                        ) by {
                        if resolves_to(m1, key, fuel, v) {
                            let ds = choose|ds: Vec<T>|
                                resolve_list_to(m1, c.shape@, (fuel - 1) as nat, ds@)
                                    && call_ensures(
                                    <T as ConstructorFactory>::build,
                                    (key, ds),
                                    v,
                                );
                            assert(resolve_list_to(m2, c.shape@, (fuel - 1) as nat, ds@));
                            assert(resolves_to(m2, key, fuel, v));
                        }
                        if resolves_to(m2, key, fuel, v) {
                            let ds = choose|ds: Vec<T>|
                                resolve_list_to(m2, c.shape@, (fuel - 1) as nat, ds@)
                                    && call_ensures(
                                    <T as ConstructorFactory>::build,
                                    (key, ds),
                                    v,
                                );
                            assert(resolve_list_to(m1, c.shape@, (fuel - 1) as nat, ds@));
                            assert(resolves_to(m1, key, fuel, v));
                        }
                    }
                }
            },
            Provider::RefFactory(c) => {
                lemma_ref_shape_depends_on_slots(m1, m2, c.shape@);
                assert forall|v: T|
                    #[trigger] resolves_to(m1, key, fuel, v) == resolves_to(m2, key, fuel, v) by {
                    if resolves_to(m1, key, fuel, v) {
                        let ds = choose|ds: Vec<&T>|
                            ref_shape_matches(m1, c.shape@, ds@) && call_ensures(
                                <F as RefFactory<T>>::build,
                                (&c.factory, ds),
                                v,
                            );
                        assert(ref_shape_matches(m2, c.shape@, ds@));
                        assert(resolves_to(m2, key, fuel, v));
                    }
                    if resolves_to(m2, key, fuel, v) {
                        let ds = choose|ds: Vec<&T>|
                            ref_shape_matches(m2, c.shape@, ds@) && call_ensures(
                                <F as RefFactory<T>>::build,
                                (&c.factory, ds),
                                v,
                            );
                        assert(ref_shape_matches(m1, c.shape@, ds@));
                        assert(resolves_to(m1, key, fuel, v));
                    }
                }
            },
            Provider::RefConstructorFactory(c) => {
                lemma_ref_shape_depends_on_slots(m1, m2, c.shape@);
                assert forall|v: T|
                    #[trigger] resolves_to(m1, key, fuel, v) == resolves_to(m2, key, fuel, v) by {
                    if resolves_to(m1, key, fuel, v) {
                        let ds = choose|ds: Vec<&T>|
                            ref_shape_matches(m1, c.shape@, ds@) && call_ensures(
                                <T as RefConstructorFactory>::build,
                                (key, ds),
                                v,
                            );
                        assert(ref_shape_matches(m2, c.shape@, ds@));
                        assert(resolves_to(m2, key, fuel, v));
                    }
                    if resolves_to(m2, key, fuel, v) {
                        let ds = choose|ds: Vec<&T>|
                            ref_shape_matches(m2, c.shape@, ds@) && call_ensures(
                                <T as RefConstructorFactory>::build,
                                (key, ds),
                                v,
                            );
                        assert(ref_shape_matches(m1, c.shape@, ds@));
                        assert(resolves_to(m1, key, fuel, v));
                    }
                }
            },
        },
    }
}

/// A factory's shape elements are found each by its own key, not by its
/// position in the registry: a chain that registers two singletons of
/// distinct keys in one order and a chain that registers them in the other
/// resolve every request alike — same success, same error, same admissible
/// values.
pub proof fn lemma_registration_order_immaterial<
    T: Clone + ConstructorFactory + RefConstructorFactory,
    F: Factory<T> + RefFactory<T>,
>(m: Seq<Seq<Provider<T, F>>>, ka: u64, va: T, kb: u64, vb: T, key: u64, fuel: nat)
    requires
        m.len() > 0,
        ka != kb,
    ensures
        resolve_err(registered(registered(m, ka, va), kb, vb), key, fuel) == resolve_err(
            registered(registered(m, kb, vb), ka, va),
            key,
            fuel,
        ),
        forall|v: T| #[trigger] resolves_to(registered(registered(m, ka, va), kb, vb), key, fuel, v)
            == resolves_to(registered(registered(m, kb, vb), ka, va), key, fuel, v),
{
    let a = Provider::<T, F>::Singleton(SingletonContainer { key: ka, value: va });
    let b = Provider::<T, F>::Singleton(SingletonContainer { key: kb, value: vb });
    let s1 = seq![b] + (seq![a] + m[0]);
    let s2 = seq![a] + (seq![b] + m[0]);
    let m1 = registered(registered(m, ka, va), kb, vb);
    let m2 = registered(registered(m, kb, vb), ka, va);
    assert(m1 =~= m.update(0, s1));
    assert(m2 =~= m.update(0, s2));
    assert forall|k: u64| #[trigger] chain_slot(m1, k) == chain_slot(m2, k) by {
        lemma_swap_heads_find(m[0], a, b, k);
        assert(m1[0] == s1);
        assert(m2[0] == s2);
        assert(m1.skip(1) =~= m.skip(1));
        assert(m2.skip(1) =~= m.skip(1));
    }
    assert forall|k: u64| #[trigger] chain_lookup(m1, k) == chain_lookup(m2, k) by {
        lemma_swap_heads_find(m[0], a, b, k);
        assert(m1[0] == s1);
        assert(m2[0] == s2);
        assert(m1.skip(1) =~= m.skip(1));
        assert(m2.skip(1) =~= m.skip(1));
    }
    lemma_resolution_depends_on_slots::<T, F>(m1, m2, key, fuel);
}

/// Two slots of distinct keys prepended to a scope in either order leave
/// both searches of every key unchanged.
proof fn lemma_swap_heads_find<T, F>(s: Seq<Provider<T, F>>, a: Provider<T, F>, b: Provider<T, F>, k: u64)
    requires
        a.spec_key() != b.spec_key(),
    ensures
        find_slot(seq![b] + (seq![a] + s), k) == find_slot(seq![a] + (seq![b] + s), k),
        find_singleton(seq![b] + (seq![a] + s), k) == find_singleton(seq![a] + (seq![b] + s), k),
{
    let s1 = seq![b] + (seq![a] + s);
    let s2 = seq![a] + (seq![b] + s);
    assert(s1[0] == b);
    assert(s1.skip(1) =~= seq![a] + s);
    assert((seq![a] + s)[0] == a);
    assert((seq![a] + s).skip(1) =~= s);
    assert(s2[0] == a);
    assert(s2.skip(1) =~= seq![b] + s);
    assert((seq![b] + s)[0] == b);
    assert((seq![b] + s).skip(1) =~= s);
    assert(find_slot(s1, k) == if b.spec_key() == k {
        Some(b)
    } else {
        find_slot(seq![a] + s, k)
    });
    assert(find_slot(seq![a] + s, k) == if a.spec_key() == k {
        Some(a)
    } else {
        find_slot(s, k)
    });
    assert(find_slot(s2, k) == if a.spec_key() == k {
        Some(a)
    } else {
        find_slot(seq![b] + s, k)
    });
    assert(find_slot(seq![b] + s, k) == if b.spec_key() == k {
        Some(b)
    } else {
        find_slot(s, k)
    });
    assert(find_singleton(s1, k) == if b.is_singleton() && b.spec_key() == k {
        Some(b.singleton_value())
    } else {
        find_singleton(seq![a] + s, k)
    });
    assert(find_singleton(seq![a] + s, k) == if a.is_singleton() && a.spec_key() == k {
        Some(a.singleton_value())
    } else {
        find_singleton(s, k)
    });
    assert(find_singleton(s2, k) == if a.is_singleton() && a.spec_key() == k {
        Some(a.singleton_value())
    } else {
        find_singleton(seq![b] + s, k)
    });
    assert(find_singleton(seq![b] + s, k) == if b.is_singleton() && b.spec_key() == k {
        Some(b.singleton_value())
    } else {
        find_singleton(s, k)
    });
}

/// The element-wise form of `lemma_resolution_depends_on_slots`.
pub proof fn lemma_list_resolution_depends_on_slots<
    T: Clone + ConstructorFactory + RefConstructorFactory,
    F: Factory<T> + RefFactory<T>,
>(m1: Seq<Seq<Provider<T, F>>>, m2: Seq<Seq<Provider<T, F>>>, keys: Seq<u64>, fuel: nat)
    requires
        forall|k: u64| #[trigger] chain_slot(m1, k) == chain_slot(m2, k),
        forall|k: u64| #[trigger] chain_lookup(m1, k) == chain_lookup(m2, k),
    ensures
        resolve_list_err(m1, keys, fuel) == resolve_list_err(m2, keys, fuel),
        forall|vs: Seq<T>| #[trigger] resolve_list_to(m1, keys, fuel, vs) == resolve_list_to(
            m2,
            keys,
            fuel,
            vs,
        ),
    decreases fuel, keys.len() + 1,
{
    if keys.len() > 0 {
        lemma_resolution_depends_on_slots::<T, F>(m1, m2, keys[0], fuel);
        lemma_list_resolution_depends_on_slots(m1, m2, keys.skip(1), fuel);
        assert forall|vs: Seq<T>|
            #[trigger] resolve_list_to(m1, keys, fuel, vs) == resolve_list_to(
                m2,
                keys,
                fuel,
                vs,
            ) by {
            if vs.len() == keys.len() {
                assert(resolves_to(m1, keys[0], fuel, vs[0]) == resolves_to(
                    m2,
                    keys[0],
                    fuel,
                    vs[0],
                ));
                assert(resolve_list_to(m1, keys.skip(1), fuel, vs.skip(1)) == resolve_list_to(
                    m2,
                    keys.skip(1),
                    fuel,
                    vs.skip(1),
                ));
            }
        }
    }
}

impl<T, F> DependencyContainer<T, F> where
    T: Clone + ConstructorFactory + RefConstructorFactory,
    F: Factory<T> + RefFactory<T>,
 {
    /// Resolve `key` to an owned value: clone the nearest singleton, or run
    /// the nearest factory over its recursively resolved shape.  Whether the
    /// request succeeds — and with which error it otherwise fails — depends
    /// only on the registered slots; the value handed back is one the
    /// matched strategy can produce for this container.
    pub fn inject(&self, key: u64) -> (r: Result<T, InjectError>)
        ensures
            r matches Ok(v) ==> resolve_err(self@, key, chain_fuel(self@)) is None && resolves_to(
                self@,
                key,
                chain_fuel(self@),
                v,
            ),
            r matches Err(e) ==> resolve_err(self@, key, chain_fuel(self@)) == Some(e),
    {
        let fuel = self.fuel();
        self.inject_fueled(key, fuel)
    }

    /// Resolve a whole dependency shape: each key in order, each to an owned
    /// value, all against this container.
    pub fn inject_list(&self, keys: &Vec<u64>) -> (r: Result<Vec<T>, InjectError>)
        ensures
            r matches Ok(vs) ==> resolve_list_err(self@, keys@, chain_fuel(self@)) is None
                && resolve_list_to(self@, keys@, chain_fuel(self@), vs@),
            r matches Err(e) ==> resolve_list_err(self@, keys@, chain_fuel(self@)) == Some(e),
    {
        proof {
            assert(keys@.skip(0) =~= keys@);
        }
        let fuel = self.fuel();
        self.inject_list_fueled(keys, 0, fuel)
    }

    /// By-value resolution of one key with `fuel` nesting levels left.
    fn inject_fueled(&self, key: u64, fuel: u64) -> (r: Result<T, InjectError>)
        ensures
            r matches Ok(v) ==> resolve_err(self@, key, fuel as nat) is None && resolves_to(
                self@,
                key,
                fuel as nat,
                v,
            ),
            r matches Err(e) ==> resolve_err(self@, key, fuel as nat) == Some(e),
        decreases fuel, 0nat,
    {
        match self.get(key) {
            None => Err(InjectError::ProviderNotFound { key }),
            Some(p) => match p {
                Provider::Singleton(c) => Ok(c.value.clone()),
                Provider::Factory(c) => {
                    if fuel == 0 {
                        return Err(InjectError::CyclicDependency { key });
                    }
                    proof {
                        assert(c.shape@.skip(0) =~= c.shape@);
                    }
                    match self.inject_list_fueled(&c.shape, 0, fuel - 1) {
                        Ok(ds) => {
                            let v = <F as Factory<T>>::build(&c.factory, ds);
                            proof {
                                assert(resolve_list_to(
                                    self@,
                                    c.shape@,
                                    (fuel - 1) as nat,
                                    ds@,
                                ) && call_ensures(<F as Factory<T>>::build, (&c.factory, ds), v));
                            }
                            Ok(v)
                        },
                        Err(e) => Err(e),
                    }
                },
                Provider::ConstructorFactory(c) => {
                    if fuel == 0 {
                        return Err(InjectError::CyclicDependency { key });
                    }
                    proof {
                        assert(c.shape@.skip(0) =~= c.shape@);
                    }
                    match self.inject_list_fueled(&c.shape, 0, fuel - 1) {
                        Ok(ds) => {
                            let v = <T as ConstructorFactory>::build(key, ds);
                            proof {
                                assert(resolve_list_to(
                                    self@,
                                    c.shape@,
                                    (fuel - 1) as nat,
                                    ds@,
                                ) && call_ensures(<T as ConstructorFactory>::build, (key, ds), v));
                            }
                            Ok(v)
                        },
                        Err(e) => Err(e),
                    }
                },
                Provider::RefFactory(c) => {
                    proof {
                        assert(c.shape@.skip(0) =~= c.shape@);
                    }
                    match self.collect_refs(&c.shape, 0) {
                        Ok(ds) => {
                            let v = <F as RefFactory<T>>::build(&c.factory, ds);
                            proof {
                                assert(ref_shape_matches(self@, c.shape@, ds@) && call_ensures(
                                    <F as RefFactory<T>>::build,
                                    (&c.factory, ds),
                                    v,
                                ));
                            }
                            Ok(v)
                        },
                        Err(e) => Err(e),
                    }
                },
                Provider::RefConstructorFactory(c) => {
                    proof {
                        assert(c.shape@.skip(0) =~= c.shape@);
                    }
                    match self.collect_refs(&c.shape, 0) {
                        Ok(ds) => {
                            let v = <T as RefConstructorFactory>::build(key, ds);
                            proof {
                                assert(ref_shape_matches(self@, c.shape@, ds@) && call_ensures(
                                    <T as RefConstructorFactory>::build,
                                    (key, ds),
                                    v,
                                ));
                            }
                            Ok(v)
                        },
                        Err(e) => Err(e),
                    }
                },
            },
        }
    }

    /// Resolve the keys from position `at` on, in order, each by value.
    fn inject_list_fueled(&self, keys: &Vec<u64>, at: usize, fuel: u64) -> (r: Result<
        Vec<T>,
        InjectError,
    >)
        requires
            at <= keys@.len(),
        ensures
            r matches Ok(vs) ==> resolve_list_err(self@, keys@.skip(at as int), fuel as nat)
                is None && resolve_list_to(self@, keys@.skip(at as int), fuel as nat, vs@),
            r matches Err(e) ==> resolve_list_err(self@, keys@.skip(at as int), fuel as nat)
                == Some(e),
        decreases fuel, keys@.len() - at + 1,
    {
        if at == keys.len() {
            proof {
                assert(keys@.skip(at as int) =~= Seq::<u64>::empty());
            }
            return Ok(Vec::new());
        }
        proof {
            assert(keys@.skip(at as int)[0] == keys@[at as int]);
            assert(keys@.skip(at as int).skip(1) =~= keys@.skip(at as int + 1));
        }
        let head = match self.inject_fueled(keys[at], fuel) {
            Ok(v) => v,
            Err(e) => {
                return Err(e);
            },
        };
        match self.inject_list_fueled(keys, at + 1, fuel) {
            Ok(rest) => {
                let ghost grest = rest@;
                let mut vs = rest;
                vs.insert(0, head);
                proof {
                    assert(vs@.skip(1) =~= grest);
                    assert(vs@[0] == head);
                }
                Ok(vs)
            },
            Err(e) => Err(e),
        }
    }

    /// Borrow the singletons a borrowed shape names, from position `at` on.
    fn collect_refs(&self, keys: &Vec<u64>, at: usize) -> (r: Result<Vec<&T>, InjectError>)
        requires
            at <= keys@.len(),
        ensures
            r matches Ok(ds) ==> ref_shape_err(self@, keys@.skip(at as int)) is None
                && ref_shape_matches(self@, keys@.skip(at as int), ds@),
            r matches Err(e) ==> ref_shape_err(self@, keys@.skip(at as int)) == Some(e),
        decreases keys@.len() - at,
    {
        if at == keys.len() {
            proof {
                assert(keys@.skip(at as int) =~= Seq::<u64>::empty());
            }
            return Ok(Vec::new());
        }
        proof {
            assert(keys@.skip(at as int)[0] == keys@[at as int]);
            assert(keys@.skip(at as int).skip(1) =~= keys@.skip(at as int + 1));
        }
        let head = match self.inject_ref(keys[at]) {
            Ok(v) => v,
            Err(_) => {
                return match self.get(keys[at]) {
                    Some(_) => Err(InjectError::ShapeMismatch { key: keys[at] }),
                    None => Err(InjectError::ProviderNotFound { key: keys[at] }),
                };
            },
        };
        match self.collect_refs(keys, at + 1) {
            Ok(rest) => {
                let ghost grest = rest@;
                let mut ds = rest;
                ds.insert(0, head);
                proof {
                    assert(ds@.skip(1) =~= grest);
                    assert(ds@[0] == head);
                }
                Ok(ds)
            },
            Err(e) => Err(e),
        }
    }

    /// The nesting-depth bound for this container's resolutions.
    fn fuel(&self) -> (r: u64)
        ensures
            r as nat == chain_fuel(self@),
    {
        let c = self.slot_count();
        if c == u64::MAX {
            c
        } else {
            c + 1
        }
    }

    /// Number of slots registered over the whole chain, saturated at `u64`
    /// range.
    fn slot_count(&self) -> (r: u64)
        ensures
            r as nat == chain_slots(self@),
        decreases *self,
    {
        proof {
            lemma_scopes_unfold(*self);
        }
        let a = self.scope.len() as u64;
        match &self.parent {
            Some(p) => {
                let b = p.slot_count();
                if a <= u64::MAX - b {
                    a + b
                } else {
                    u64::MAX
                }
            },
            None => {
                proof {
                    assert(chain_slots(self@.skip(1)) == 0);
                }
                a
            },
        }
    }
}

} // verus!
