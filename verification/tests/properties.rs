//! Behavioural properties of the container: shadowing, fallback,
//! consumption, clone independence, registration order, and the error cases.

use rustyinject::injector::{ConstructorFactory, Factory, RefConstructorFactory, RefFactory};
use rustyinject::{DependencyContainer, InjectError};

const X: u64 = 1;
const Y: u64 = 2;
const A: u64 = 3;
const B: u64 = 4;
const SUM: u64 = 5;
const DATABASE: u64 = 6;
const CACHE: u64 = 7;
const APP: u64 = 8;
const CONFIG: u64 = 9;
const LOOP: u64 = 10;
const BORROWED_SUM: u64 = 11;
const MISSING: u64 = 99;

#[derive(Clone, Debug, PartialEq)]
enum Val {
    Num(u64, u32),
    Sum(u32),
    App(u32, u32),
    Config(Vec<u8>),
}

fn num_of(v: &Val, key: u64) -> u32 {
    match v {
        Val::Num(k, n) if *k == key => *n,
        other => panic!("expected the number for key {key}, got {other:?}"),
    }
}

#[derive(Debug)]
enum Fac {
    Adder,
    SelfLoop,
    BorrowingAdder,
}

impl Factory<Val> for Fac {
    fn build(&self, deps: Vec<Val>) -> Val {
        match self {
            Fac::Adder => Val::Sum(num_of(&deps[0], A) + num_of(&deps[1], B)),
            other => panic!("{other:?} is not an owning factory"),
        }
    }
}

impl RefFactory<Val> for Fac {
    fn build(&self, deps: Vec<&Val>) -> Val {
        match self {
            Fac::BorrowingAdder => match deps[0] {
                Val::Sum(n) => Val::Sum(*n),
                other => panic!("expected a stored sum, got {other:?}"),
            },
            other => panic!("{other:?} is not a borrowing factory"),
        }
    }
}

impl ConstructorFactory for Val {
    fn build(key: u64, deps: Vec<Val>) -> Val {
        match key {
            APP => Val::App(num_of(&deps[0], DATABASE), num_of(&deps[1], CACHE)),
            other => panic!("no constructor for key {other}"),
        }
    }
}

impl RefConstructorFactory for Val {
    fn build(key: u64, _deps: Vec<&Val>) -> Val {
        panic!("no borrowing constructor for key {key}")
    }
}

fn root() -> DependencyContainer<Val, Fac> {
    DependencyContainer::new(None)
}

fn child_of(parent: DependencyContainer<Val, Fac>) -> DependencyContainer<Val, Fac> {
    DependencyContainer::new(Some(Box::new(parent)))
}

#[test]
fn singleton_resolved_by_reference_twice() {
    let container = root().with_singleton(X, Val::Num(X, 41));

    let first = container.inject_ref(X).unwrap();
    assert_eq!(*first, Val::Num(X, 41));
    let second = container.inject_ref(X).unwrap();
    assert_eq!(*second, Val::Num(X, 41));
    assert_eq!(first, second);
}

#[test]
fn consumed_singleton_is_gone() {
    let mut container = root().with_singleton(X, Val::Num(X, 41));

    assert_eq!(container.inject_owned(X), Ok(Val::Num(X, 41)));
    assert_eq!(container.inject_owned(X), Err(InjectError::ProviderNotFound { key: X }));
    assert_eq!(
        container.inject_ref(X),
        Err(InjectError::ProviderNotFound { key: X })
    );
}

#[test]
fn consumption_leaves_other_keys_usable() {
    let mut container = root()
        .with_singleton(X, Val::Num(X, 1))
        .with_singleton(Y, Val::Num(Y, 2));

    assert_eq!(container.inject_owned(X), Ok(Val::Num(X, 1)));
    assert_eq!(container.inject_ref(Y), Ok(&Val::Num(Y, 2)));
}

#[test]
fn consumption_unshadows_the_next_slot() {
    let mut container = root()
        .with_singleton(X, Val::Num(X, 1))
        .with_singleton(X, Val::Num(X, 2));

    assert_eq!(container.inject_owned(X), Ok(Val::Num(X, 2)));
    assert_eq!(container.inject_ref(X), Ok(&Val::Num(X, 1)));
}

#[test]
fn cloned_singletons_are_independent() {
    let container = root().with_singleton(CONFIG, Val::Config(vec![1, 2]));

    let mut first = container.inject_cloned(CONFIG).unwrap();
    let second = container.inject_cloned(CONFIG).unwrap();
    assert_eq!(first, Val::Config(vec![1, 2]));
    assert_eq!(second, Val::Config(vec![1, 2]));

    match &mut first {
        Val::Config(bytes) => bytes.push(3),
        other => panic!("expected a config, got {other:?}"),
    }
    assert_eq!(first, Val::Config(vec![1, 2, 3]));
    assert_eq!(second, Val::Config(vec![1, 2]));
    assert_eq!(container.inject_ref(CONFIG), Ok(&Val::Config(vec![1, 2])));
}

#[test]
fn factory_shape_resolves_by_key_in_either_order() {
    let one = root()
        .with_singleton(A, Val::Num(A, 2))
        .with_singleton(B, Val::Num(B, 3))
        .with_factory(SUM, vec![A, B], Fac::Adder);
    let other = root()
        .with_singleton(B, Val::Num(B, 3))
        .with_singleton(A, Val::Num(A, 2))
        .with_factory(SUM, vec![A, B], Fac::Adder);

    assert_eq!(one.inject(SUM), Ok(Val::Sum(5)));
    assert_eq!(other.inject(SUM), Ok(Val::Sum(5)));
}

#[test]
fn child_shadows_parent() {
    let parent = root().with_singleton(X, Val::Num(X, 1));
    let child = child_of(parent).with_singleton(X, Val::Num(X, 2));

    assert_eq!(child.inject_ref(X), Ok(&Val::Num(X, 2)));
    let parent_again = child.ancestor(1).unwrap();
    assert_eq!(parent_again.inject_ref(X), Ok(&Val::Num(X, 1)));
}

#[test]
fn child_falls_back_to_ancestors() {
    let parent = root().with_singleton(Y, Val::Num(Y, 7));
    let child = child_of(parent);

    assert_eq!(child.inject_ref(Y), Ok(&Val::Num(Y, 7)));
    assert!(child.ancestor(2).is_none());
}

#[test]
fn exclusive_reference_rewrites_the_slot() {
    let mut container = root().with_singleton(X, Val::Num(X, 1));

    let slot = container.inject_mut(X).unwrap();
    *slot = Val::Num(X, 8);
    assert_eq!(container.inject_ref(X), Ok(&Val::Num(X, 8)));
    assert_eq!(
        container.inject_mut(MISSING),
        Err(InjectError::ProviderNotFound { key: MISSING })
    );
}

#[test]
fn constructor_factory_end_to_end() {
    let mut container = root()
        .with_singleton(DATABASE, Val::Num(DATABASE, 7))
        .with_singleton(CACHE, Val::Num(CACHE, 3))
        .with_constructor_factory(APP, vec![DATABASE, CACHE]);

    assert_eq!(container.inject(APP), Ok(Val::App(7, 3)));
    assert_eq!(container.inject(APP), Ok(Val::App(7, 3)));
    assert_eq!(container.inject_ref(DATABASE), Ok(&Val::Num(DATABASE, 7)));
    assert_eq!(container.inject_ref(CACHE), Ok(&Val::Num(CACHE, 3)));

    assert_eq!(container.inject_owned(DATABASE), Ok(Val::Num(DATABASE, 7)));
    assert_eq!(
        container.inject_owned(DATABASE),
        Err(InjectError::ProviderNotFound { key: DATABASE })
    );
    assert_eq!(
        container.inject(APP),
        Err(InjectError::ProviderNotFound { key: DATABASE })
    );
}

#[test]
fn nearest_slot_wins_by_value_while_reference_skips_factories() {
    let container = root()
        .with_singleton(SUM, Val::Sum(9))
        .with_singleton(A, Val::Num(A, 2))
        .with_singleton(B, Val::Num(B, 3))
        .with_factory(SUM, vec![A, B], Fac::Adder);

    assert_eq!(container.inject(SUM), Ok(Val::Sum(5)));
    assert_eq!(container.inject_ref(SUM), Ok(&Val::Sum(9)));
}

#[test]
fn fallback_walks_many_levels() {
    let grandparent = root().with_singleton(Y, Val::Num(Y, 1));
    let parent = child_of(grandparent).with_singleton(X, Val::Num(X, 2));
    let child = child_of(parent);

    assert_eq!(child.inject_ref(Y), Ok(&Val::Num(Y, 1)));
    assert_eq!(child.inject_ref(X), Ok(&Val::Num(X, 2)));
}

#[test]
fn missing_key_is_not_found() {
    let container = root().with_singleton(X, Val::Num(X, 1));

    assert_eq!(
        container.inject(MISSING),
        Err(InjectError::ProviderNotFound { key: MISSING })
    );
    assert_eq!(
        container.inject_ref(MISSING),
        Err(InjectError::ProviderNotFound { key: MISSING })
    );
    assert_eq!(
        container.inject_cloned(MISSING),
        Err(InjectError::ProviderNotFound { key: MISSING })
    );
}

#[test]
fn self_dependent_factory_is_cyclic() {
    let container = root().with_factory(LOOP, vec![LOOP], Fac::SelfLoop);

    assert_eq!(
        container.inject(LOOP),
        Err(InjectError::CyclicDependency { key: LOOP })
    );
}

#[test]
fn borrowed_shape_needs_a_singleton() {
    let container = root()
        .with_singleton(A, Val::Num(A, 2))
        .with_singleton(B, Val::Num(B, 3))
        .with_factory(SUM, vec![A, B], Fac::Adder)
        .with_ref_factory(BORROWED_SUM, vec![SUM], Fac::BorrowingAdder);

    assert_eq!(
        container.inject(BORROWED_SUM),
        Err(InjectError::ShapeMismatch { key: SUM })
    );

    let with_stored_sum = container.with_singleton(SUM, Val::Sum(5));
    assert_eq!(with_stored_sum.inject(BORROWED_SUM), Ok(Val::Sum(5)));
}

#[test]
fn nested_factories_resolve_recursively() {
    let container = root()
        .with_singleton(A, Val::Num(A, 2))
        .with_singleton(B, Val::Num(B, 3))
        .with_factory(SUM, vec![A, B], Fac::Adder)
        .with_constructor_factory(APP, vec![DATABASE, CACHE])
        .with_singleton(DATABASE, Val::Num(DATABASE, 7))
        .with_singleton(CACHE, Val::Num(CACHE, 3));

    assert_eq!(container.inject(APP), Ok(Val::App(7, 3)));
    assert_eq!(container.inject_list(&vec![SUM, APP]), Ok(vec![Val::Sum(5), Val::App(7, 3)]));
    assert_eq!(
        container.inject_list(&vec![SUM, MISSING]),
        Err(InjectError::ProviderNotFound { key: MISSING })
    );
}
