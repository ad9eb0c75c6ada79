//! A verified in-memory representation of Ecore metamodels: packages, classes,
//! structural features, operations, literals, annotations and reference bounds.
use vstd::prelude::*;

pub mod error;
pub mod repr;
pub mod text;

verus! {
}
