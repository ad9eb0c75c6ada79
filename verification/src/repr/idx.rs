//! Indices of packages and classes in a model, and maps indexed by them.
use vstd::prelude::*;

verus! {

/// Index of a package.
pub type Pack = usize;

/// Index of a class.
pub type Class = usize;

/// Values indexed by package indices: the value of package `i` is at `i`.
pub type PackMap<T> = Vec<T>;

} // verus!
