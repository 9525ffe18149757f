//! A dependency-injection container.
//!
//! The crate keeps a keyed registry of *providers* — stored singletons and
//! factories — and resolves a requested key against it: the current scope is
//! searched first, head (most recently registered) to tail, then the parent
//! chain, so nearer registrations shadow farther ones.  A singleton can be
//! borrowed, borrowed exclusively, cloned, or consumed (which removes its
//! slot); a factory has its declared dependency shape resolved recursively
//! before its build operation runs.

pub mod container;
pub mod deps_list;
pub mod injector;

pub use container::DependencyContainer;
pub use deps_list::{DepsList, Provider};
pub use injector::InjectError;
