//! The provider list itself: prepending, searching, and removing slots.

use rustyinject::injector::{
    ConstructorFactoryContainer, FactoryContainer, SingletonContainer,
};
use rustyinject::{DependencyContainer, DepsList, Provider};

const X: u64 = 1;
const Y: u64 = 2;

#[derive(Clone, Debug, PartialEq)]
struct Word(&'static str);

type Slot = Provider<Word, ()>;

fn singleton(key: u64, word: &'static str) -> Slot {
    Provider::Singleton(SingletonContainer { key, value: Word(word) })
}

#[test]
fn prepended_slot_shadows_older_ones() {
    let list: DepsList<Word, ()> = DepsList::new();
    let list = list.prepend(singleton(X, "old"));
    let list = list.prepend(singleton(X, "new"));

    assert_eq!(list.len(), 2);
    assert_eq!(list.get_singleton(X), Some(&Word("new")));
    assert_eq!(list.get_singleton(Y), None);
}

#[test]
fn get_finds_any_kind_while_singleton_search_passes_factories() {
    let list: DepsList<Word, ()> = DepsList::new();
    let list = list.prepend(singleton(X, "stored"));
    let list = list.prepend(Provider::Factory(FactoryContainer {
        key: X,
        shape: vec![],
        factory: (),
    }));

    let nearest = list.get(X).unwrap();
    assert!(matches!(nearest, Provider::Factory(_)));
    assert_eq!(list.get_singleton(X), Some(&Word("stored")));
}

#[test]
fn removing_a_singleton_uncovers_the_next() {
    let list: DepsList<Word, ()> = DepsList::new();
    let mut list = list
        .prepend(singleton(X, "old"))
        .prepend(Provider::ConstructorFactory(ConstructorFactoryContainer {
            key: Y,
            shape: vec![X],
        }))
        .prepend(singleton(X, "new"));

    assert_eq!(list.remove(X), Some(Word("new")));
    assert_eq!(list.len(), 2);
    assert_eq!(list.get_singleton(X), Some(&Word("old")));
    assert_eq!(list.remove(Y), None);
    assert_eq!(list.len(), 2);
}

#[test]
fn get_mut_rewrites_in_place() {
    let list: DepsList<Word, ()> = DepsList::new();
    let mut list = list.prepend(singleton(X, "before"));

    *list.get_mut(X).unwrap() = Word("after");
    assert_eq!(list.get_singleton(X), Some(&Word("after")));
    assert!(list.get_mut(Y).is_none());
}

#[test]
fn default_container_is_an_empty_root() {
    let container: DependencyContainer<Word, ()> = Default::default();

    assert!(container.get(X).is_none());
    assert!(container.ancestor(1).is_none());
    let same = container.ancestor(0).unwrap();
    assert!(same.get(X).is_none());
}
