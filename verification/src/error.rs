use vstd::prelude::*;

verus! {

/// Which end of a pair of bounds a textual value was meant for.
#[derive(Debug, Clone, Copy, PartialEq, Eq, Structural)]
pub enum BoundSide {
    /// The lower bound, an unsigned integer.
    Lower,
    /// The upper bound, `-1` or an unsigned integer.
    Upper,
}

/// The kind of entity whose identifier was rejected.
#[derive(Debug, Clone, Copy, PartialEq, Eq, Structural)]
pub enum IdentKind {
    /// The name of an operation.
    Operation,
    /// The name of a structural feature (reference or attribute).
    StructuralFeature,
    /// The class name at the end of an `eType` path.
    EType,
}

/// Everything that can go wrong while building a representation.
#[derive(Debug, Clone, PartialEq, Eq)]
pub enum Error {
    /// The upper bound is smaller than the lower bound.
    IllegalBounds { lbound: usize, ubound: usize },
    /// A bound could not be read as a number (or `-1` for an upper bound).
    UnexpectedBound { side: BoundSide, found: String },
    /// A name is not a valid identifier.
    IllegalIdent { kind: IdentKind, ident: String },
    /// A builtin-type URL names no builtin type.
    UnknownBuiltinUrl { url: String },
    /// A structural feature's `xsi:type` is neither an attribute nor a reference.
    UnexpectedXsiType { value: String },
    /// An annotation detail key was bound twice; holds the key, the value
    /// already bound and the value that was refused.
    Redefinition { key: String, old_val: String, new_val: String },
    /// An `eType` path is neither builtin nor relative (`#//...`).
    UnsupportedEType { etype: String },
}

/// Result type of the fallible operations of this crate.
pub type Res<T> = Result<T, Error>;

}
