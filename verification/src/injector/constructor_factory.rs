//! Constructor factories: the produced value type itself carries the build
//! operation, so the registry stores only the key and the declared shape.

use vstd::prelude::*;

verus! {

/// A value type that can construct itself from owned dependencies.  The key
/// tells a type serving several produced keys which product to build.
pub trait ConstructorFactory: Sized {
    /// Build the product registered under `key` from the resolved
    /// dependencies.
    fn build(key: u64, deps: Vec<Self>) -> Self;
}

/// A value type that can construct itself from borrowed dependencies: the
/// resolved singletons are lent to the build for the duration of the call.
pub trait RefConstructorFactory: Sized {
    /// Build the product registered under `key` from the borrowed
    /// dependencies.
    fn build(key: u64, deps: Vec<&Self>) -> Self;
}

/// A provider slot for a [`ConstructorFactory`]-built value.
pub struct ConstructorFactoryContainer {
    /// Key of the produced value.
    pub key: u64,
    /// Keys of the dependencies the build is given, in order.
    pub shape: Vec<u64>,
}

/// A provider slot for a [`RefConstructorFactory`]-built value.
pub struct RefConstructorFactoryContainer {
    /// Key of the produced value.
    pub key: u64,
    /// Keys of the dependencies the build borrows, in order.
    pub shape: Vec<u64>,
}

} // verus!
