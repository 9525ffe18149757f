//! Factories: callables stored in the registry that build their result from
//! dependencies resolved beforehand.

use vstd::prelude::*;

verus! {

/// A callable that builds a value of the produced type from owned
/// dependencies, resolved for its declared shape in order.
pub trait Factory<T> {
    /// Build the result from the resolved dependencies.
    fn build(&self, deps: Vec<T>) -> T;
}

/// A callable that builds a value of the produced type from borrowed
/// dependencies: the resolved singletons are lent to it for the duration of
/// the call instead of being cloned into it.
pub trait RefFactory<T> {
    /// Build the result from the borrowed dependencies.
    fn build(&self, deps: Vec<&T>) -> T;
}

/// A provider slot holding a [`Factory`] with its key and declared shape.
pub struct FactoryContainer<F> {
    /// Key of the produced value.
    pub key: u64,
    /// Keys of the dependencies the factory is built over, in order.
    pub shape: Vec<u64>,
    /// The factory itself.
    pub factory: F,
}

/// A provider slot holding a [`RefFactory`] with its key and declared shape.
pub struct RefFactoryContainer<F> {
    /// Key of the produced value.
    pub key: u64,
    /// Keys of the dependencies the factory borrows, in order.
    pub shape: Vec<u64>,
    /// The factory itself.
    pub factory: F,
}

} // verus!
