//! The injection strategies, each exercised through the public surface.

use rustyinject::injector::{ConstructorFactory, Factory, RefConstructorFactory, RefFactory};
use rustyinject::DependencyContainer;

const DATABASE: u64 = 1;
const CACHE: u64 = 2;
const APP: u64 = 3;
const ANOTHER_APP: u64 = 4;

#[derive(Clone, Debug, PartialEq)]
enum Val {
    Database(u32),
    Cache(u32),
    App(u32, u32),
    AnotherApp(u32),
}

#[derive(Debug)]
enum Fac {
    AppFactory,
    AnotherAppFactory,
}

impl Factory<Val> for Fac {
    fn build(&self, deps: Vec<Val>) -> Val {
        match self {
            Fac::AppFactory => {
                let db = match &deps[0] {
                    Val::Database(n) => *n,
                    other => panic!("expected a database, got {other:?}"),
                };
                let cache = match &deps[1] {
                    Val::Cache(n) => *n,
                    other => panic!("expected a cache, got {other:?}"),
                };
                Val::App(db, cache)
            }
            Fac::AnotherAppFactory => panic!("not an owning factory"),
        }
    }
}

impl RefFactory<Val> for Fac {
    fn build(&self, deps: Vec<&Val>) -> Val {
        match self {
            Fac::AnotherAppFactory => {
                let db = match deps[0] {
                    Val::Database(n) => *n,
                    other => panic!("expected a database, got {other:?}"),
                };
                Val::AnotherApp(db)
            }
            Fac::AppFactory => panic!("not a borrowing factory"),
        }
    }
}

impl ConstructorFactory for Val {
    fn build(key: u64, deps: Vec<Val>) -> Val {
        match key {
            APP => {
                let db = match &deps[0] {
                    Val::Database(n) => *n,
                    other => panic!("expected a database, got {other:?}"),
                };
                Val::App(db, 0)
            }
            other => panic!("no constructor for key {other}"),
        }
    }
}

impl RefConstructorFactory for Val {
    fn build(key: u64, deps: Vec<&Val>) -> Val {
        match key {
            ANOTHER_APP => {
                let db = match deps[0] {
                    Val::Database(n) => *n,
                    other => panic!("expected a database, got {other:?}"),
                };
                Val::AnotherApp(db)
            }
            other => panic!("no borrowing constructor for key {other}"),
        }
    }
}

#[test]
fn test_inject_list() {
    let container: DependencyContainer<Val, Fac> = DependencyContainer::new(None)
        .with_singleton(DATABASE, Val::Database(7))
        .with_singleton(CACHE, Val::Cache(3));

    let deps = container.inject_list(&vec![DATABASE, CACHE]).unwrap();
    assert_eq!(deps, vec![Val::Database(7), Val::Cache(3)]);
}

#[test]
fn constructor_factory_test_inject() {
    let container: DependencyContainer<Val, Fac> = DependencyContainer::new(None)
        .with_singleton(DATABASE, Val::Database(7))
        .with_singleton(CACHE, Val::Cache(3))
        .with_constructor_factory(APP, vec![DATABASE])
        .with_ref_constructor_factory(ANOTHER_APP, vec![DATABASE]);

    let app = container.inject(APP).unwrap();
    assert_eq!(app, Val::App(7, 0));
    let another_app = container.inject(ANOTHER_APP).unwrap();
    assert_eq!(another_app, Val::AnotherApp(7));
}

#[test]
fn factory_test_inject() {
    let container: DependencyContainer<Val, Fac> = DependencyContainer::new(None)
        .with_singleton(DATABASE, Val::Database(7))
        .with_singleton(CACHE, Val::Cache(3))
        .with_factory(APP, vec![DATABASE, CACHE], Fac::AppFactory);
    let new_container = DependencyContainer::new(Some(Box::new(container)))
        .with_ref_factory(ANOTHER_APP, vec![DATABASE], Fac::AnotherAppFactory);

    let app = new_container.inject(APP).unwrap();
    assert_eq!(app, Val::App(7, 3));
    let another_app = new_container.inject(ANOTHER_APP).unwrap();
    assert_eq!(another_app, Val::AnotherApp(7));
}

#[test]
fn singleton_test_inject() {
    let mut container: DependencyContainer<Val, Fac> = DependencyContainer::new(None)
        .with_singleton(APP, Val::App(1, 2))
        .with_singleton(ANOTHER_APP, Val::AnotherApp(9));

    let app: &Val = container.inject_ref(APP).unwrap();
    assert_eq!(*app, Val::App(1, 2));
    let app: &mut Val = container.inject_mut(APP).unwrap();
    assert_eq!(*app, Val::App(1, 2));
    let app: Val = container.inject_owned(APP).unwrap();
    assert_eq!(app, Val::App(1, 2));
}

#[test]
fn singleton_cloned_test_inject() {
    let container: DependencyContainer<Val, Fac> = DependencyContainer::new(None)
        .with_singleton(DATABASE, Val::Database(7));

    let db: &Val = container.inject_ref(DATABASE).unwrap();
    assert_eq!(*db, Val::Database(7));
    let db: Val = container.inject_cloned(DATABASE).unwrap();
    assert_eq!(db, Val::Database(7));
}
