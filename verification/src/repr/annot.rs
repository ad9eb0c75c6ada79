//! The string types of annotations.
use vstd::prelude::*;

verus! {

/// The source of an annotation.
pub type Source = String;

/// A key of an annotation's details.
pub type Key = String;

/// A value of an annotation's details.
pub type Val = String;

} // verus!
