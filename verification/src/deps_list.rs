//! The ordered list of providers that makes up one scope.
//!
//! The head of the list is the most recently registered provider, so a later
//! registration of the same key shadows an earlier one within the scope.

use crate::injector::constructor_factory::{
    ConstructorFactoryContainer, RefConstructorFactoryContainer,
};
use crate::injector::factory::{FactoryContainer, RefFactoryContainer};
use crate::injector::singleton::SingletonContainer;
use vstd::prelude::*;

verus! {

/// One slot of the registry: a provider tagged with its strategy.
pub enum Provider<T, F> {
    /// A stored concrete value.
    Singleton(SingletonContainer<T>),
    /// A callable that builds its result from owned dependencies.
    Factory(FactoryContainer<F>),
    /// A callable that builds its result from borrowed dependencies.
    RefFactory(RefFactoryContainer<F>),
    /// A produced key whose build operation takes owned dependencies.
    ConstructorFactory(ConstructorFactoryContainer),
    /// A produced key whose build operation takes borrowed dependencies.
    RefConstructorFactory(RefConstructorFactoryContainer),
}

impl<T, F> Provider<T, F> {
    /// Key of the value this provider produces.
    pub open spec fn spec_key(self) -> u64 {
        match self {
            Provider::Singleton(c) => c.key,
            Provider::Factory(c) => c.key,
            Provider::RefFactory(c) => c.key,
            Provider::ConstructorFactory(c) => c.key,
            Provider::RefConstructorFactory(c) => c.key,
        }
    }

    /// Whether this slot stores a concrete value.
    pub open spec fn is_singleton(self) -> bool {
        self is Singleton
    }

    /// The stored value of a singleton slot.
    pub open spec fn singleton_value(self) -> T
        recommends
            self.is_singleton(),
    {
        self->Singleton_0.value
    }

    /// Key of the value this provider produces.
    pub fn key(&self) -> (k: u64)
        ensures
            k == self.spec_key(),
    {
        match self {
            Provider::Singleton(c) => c.key,
            Provider::Factory(c) => c.key,
            Provider::RefFactory(c) => c.key,
            Provider::ConstructorFactory(c) => c.key,
            Provider::RefConstructorFactory(c) => c.key,
        }
    }
}

/// First provider of any kind for `key`, scanning from the head.
pub open spec fn find_slot<T, F>(s: Seq<Provider<T, F>>, key: u64) -> Option<Provider<T, F>>
    decreases s.len(),
{
    if s.len() == 0 {
        None
    } else if s[0].spec_key() == key {
        Some(s[0])
    } else {
        find_slot(s.skip(1), key)
    }
}

/// First singleton value for `key`, scanning from the head; slots of other
/// kinds are passed over even when their key matches.
pub open spec fn find_singleton<T, F>(s: Seq<Provider<T, F>>, key: u64) -> Option<T>
    decreases s.len(),
{
    if s.len() == 0 {
        None
    } else if s[0].is_singleton() && s[0].spec_key() == key {
        Some(s[0].singleton_value())
    } else {
        find_singleton(s.skip(1), key)
    }
}

/// The list with its first singleton slot for `key` excised; the list itself
/// when it holds none.
pub open spec fn remove_singleton<T, F>(s: Seq<Provider<T, F>>, key: u64) -> Seq<Provider<T, F>>
    decreases s.len(),
{
    if s.len() == 0 {
        s
    } else if s[0].is_singleton() && s[0].spec_key() == key {
        s.skip(1)
    } else {
        seq![s[0]] + remove_singleton(s.skip(1), key)
    }
}

/// The list with the value of its first singleton slot for `key` replaced by
/// `v`; the list itself when it holds none.
pub open spec fn update_singleton<T, F>(s: Seq<Provider<T, F>>, key: u64, v: T) -> Seq<
    Provider<T, F>,
>
    decreases s.len(),
{
    if s.len() == 0 {
        s
    } else if s[0].is_singleton() && s[0].spec_key() == key {
        seq![Provider::Singleton(SingletonContainer { key, value: v })] + s.skip(1)
    } else {
        seq![s[0]] + update_singleton(s.skip(1), key, v)
    }
}

/// An ordered, head-first list of providers: one scope of a container.
pub struct DepsList<T, F> {
    /// The slots, most recently registered first.
    pub items: Vec<Provider<T, F>>,
}

impl<T, F> View for DepsList<T, F> {
    type V = Seq<Provider<T, F>>;

    open spec fn view(&self) -> Seq<Provider<T, F>> {
        self.items@
    }
}

/// When the first `i` slots' keys all miss, the slot search is decided by
/// the rest of the list.
proof fn lemma_skip_misses<T, F>(s: Seq<Provider<T, F>>, key: u64, i: int)
    requires
        0 <= i <= s.len(),
        forall|j: int| 0 <= j < i ==> s[j].spec_key() != key,
    ensures
        find_slot(s, key) == find_slot(s.skip(i), key),
    decreases i,
{
    if i == 0 {
        assert(s.skip(0) =~= s);
    } else {
        lemma_skip_misses(s, key, i - 1);
        assert(s.skip(i - 1).skip(1) =~= s.skip(i));
        assert(s.skip(i - 1)[0] == s[i - 1]);
    }
}

impl<T, F> DepsList<T, F> {
    /// The empty scope.
    pub fn new() -> (r: Self)
        ensures
            r@ =~= Seq::<Provider<T, F>>::empty(),
    {
        DepsList { items: Vec::new() }
    }

    /// Prepend a provider; it shadows every older slot of the same key.
    pub fn prepend(self, p: Provider<T, F>) -> (r: Self)
        ensures
            r@ =~= seq![p] + self@,
    {
        let mut items = self.items;
        items.insert(0, p);
        DepsList { items }
    }

    /// Number of slots in the scope.
    pub fn len(&self) -> (r: usize)
        ensures
            r == self@.len(),
    {
        self.items.len()
    }

    /// Shared reference to the first provider of any kind for `key`.
    pub fn get(&self, key: u64) -> (r: Option<&Provider<T, F>>)
        ensures
            match r {
                Some(p) => find_slot(self@, key) == Some(*p),
                None => find_slot(self@, key) is None,
            },
    {
        let n = self.items.len();
        let mut i: usize = 0;
        while i < n
            invariant
                i <= n,
                n == self@.len(),
                forall|j: int| 0 <= j < i ==> self@[j].spec_key() != key,
            decreases n - i,
        {
            if self.items[i].key() == key {
                proof {
                    lemma_skip_misses(self@, key, i as int);
                    assert(self@.skip(i as int)[0] == self@[i as int]);
                }
                return Some(&self.items[i]);
            }
            i += 1;
        }
        proof {
            lemma_skip_misses(self@, key, n as int);
            assert(self@.skip(n as int) =~= Seq::<Provider<T, F>>::empty());
        }
        None
    }

    /// Shared reference to the first singleton value for `key`.
    pub fn get_singleton(&self, key: u64) -> (r: Option<&T>)
        ensures
            match r {
                Some(v) => find_singleton(self@, key) == Some(*v),
                None => find_singleton(self@, key) is None,
            },
    {
        let idx = match self.find_singleton_index(key) {
            Some(i) => i,
            None => {
                return None;
            },
        };
        proof {
            lemma_find_singleton_at(self@, key, idx as int);
        }
        match &self.items[idx] {
            Provider::Singleton(c) => Some(&c.value),
            _ => None,
        }
    }

    /// Exclusive reference to the first singleton value for `key`; the caller
    /// may rewrite the stored value through it.
    pub fn get_mut(&mut self, key: u64) -> (r: Option<&mut T>)
        ensures
            match r {
                Some(m) => {
                    &&& find_singleton(old(self)@, key) == Some(*m)
                    &&& final (self)@ == update_singleton(old(self)@, key, *final (m))
                },
                None => {
                    &&& find_singleton(old(self)@, key) is None
                    &&& *final (self) == *old(self)
                },
            },
    {
        let idx = match self.find_singleton_index(key) {
            Some(i) => i,
            None => {
                return None;
            },
        };
        proof {
            lemma_find_singleton_at(self@, key, idx as int);
        }
        match &mut self.items[idx] {
            Provider::Singleton(c) => Some(&mut c.value),
            _ => None,
        }
    }

    /// Position of the first singleton slot for `key`, if any.
    fn find_singleton_index(&self, key: u64) -> (r: Option<usize>)
        ensures
            match r {
                Some(i) => {
                    &&& i < self@.len()
                    &&& self@[i as int].is_singleton()
                    &&& self@[i as int].spec_key() == key
                    &&& forall|j: int|
                        0 <= j < i ==> !(self@[j].is_singleton() && self@[j].spec_key() == key)
                },
                None => find_singleton(self@, key) is None,
            },
    {
        let n = self.items.len();
        let mut i: usize = 0;
        while i < n
            invariant
                i <= n,
                n == self@.len(),
                forall|j: int|
                    0 <= j < i ==> !(self@[j].is_singleton() && self@[j].spec_key() == key),
            decreases n - i,
        {
            let hit = match &self.items[i] {
                Provider::Singleton(c) => c.key == key,
                _ => false,
            };
            if hit {
                return Some(i);
            }
            i += 1;
        }
        proof {
            lemma_find_singleton_misses(self@, key, n as int);
            assert(self@.skip(n as int) =~= Seq::<Provider<T, F>>::empty());
        }
        None
    }

    /// Remove the first singleton slot for `key` and hand its value out.
    pub fn remove(&mut self, key: u64) -> (r: Option<T>)
        ensures
            match r {
                Some(v) => {
                    &&& find_singleton(old(self)@, key) == Some(v)
                    &&& final (self)@ == remove_singleton(old(self)@, key)
                },
                None => {
                    &&& find_singleton(old(self)@, key) is None
                    &&& *final (self) == *old(self)
                },
            },
    {
        let idx = match self.find_singleton_index(key) {
            Some(i) => i,
            None => {
                return None;
            },
        };
        proof {
            lemma_find_singleton_at(self@, key, idx as int);
        }
        let p = self.items.remove(idx);
        proof {
            assert(old(self)@.subrange(0, idx as int) + old(self)@.skip(idx as int + 1) =~= old(
                self,
            )@.remove(idx as int));
        }
        match p {
            Provider::Singleton(c) => Some(c.value),
            _ => None,
        }
    }
}

/// When the first `i` slots are no singleton for `key`, the singleton search
/// and surgeries are decided by the rest of the list.
proof fn lemma_find_singleton_misses<T, F>(s: Seq<Provider<T, F>>, key: u64, i: int)
    requires
        0 <= i <= s.len(),
        forall|j: int| 0 <= j < i ==> !(s[j].is_singleton() && s[j].spec_key() == key),
    ensures
        find_singleton(s, key) == find_singleton(s.skip(i), key),
        remove_singleton(s, key) =~= s.subrange(0, i) + remove_singleton(s.skip(i), key),
        forall|v: T| update_singleton(s, key, v) =~= s.subrange(0, i) + update_singleton(
            s.skip(i),
            key,
            v,
        ),
    decreases i,
{
    if i == 0 {
        assert(s.skip(0) =~= s);
        assert(s.subrange(0, 0) =~= Seq::<Provider<T, F>>::empty());
    } else {
        lemma_find_singleton_misses(s, key, i - 1);
        assert(s.skip(i - 1).skip(1) =~= s.skip(i));
        assert(s.skip(i - 1)[0] == s[i - 1]);
        assert(s.subrange(0, i - 1) + seq![s[i - 1]] =~= s.subrange(0, i));
    }
}

/// A singleton hit at position `i`, with only misses before it, settles the
/// singleton search and both surgeries.
proof fn lemma_find_singleton_at<T, F>(s: Seq<Provider<T, F>>, key: u64, i: int)
    requires
        0 <= i < s.len(),
        forall|j: int| 0 <= j < i ==> !(s[j].is_singleton() && s[j].spec_key() == key),
        s[i].is_singleton(),
        s[i].spec_key() == key,
    ensures
        find_singleton(s, key) == Some(s[i].singleton_value()),
        remove_singleton(s, key) =~= s.subrange(0, i) + s.skip(i + 1),
        forall|v: T| update_singleton(s, key, v) =~= s.update(
            i,
            Provider::Singleton(SingletonContainer { key, value: v }),
        ),
{
    lemma_find_singleton_misses(s, key, i);
    assert(s.skip(i)[0] == s[i]);
    assert(s.skip(i).skip(1) =~= s.skip(i + 1));
    assert forall|v: T|
        update_singleton(s, key, v) =~= s.update(
            i,
            Provider::Singleton(SingletonContainer { key, value: v }),
        ) by {
        assert(update_singleton(s.skip(i), key, v) =~= seq![
            Provider::Singleton(SingletonContainer { key, value: v }),
        ] + s.skip(i + 1));
    }
}

} // verus!
