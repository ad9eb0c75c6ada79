//! Structural features of classes: references and attributes.
use vstd::prelude::*;

use crate::error::{Error, IdentKind, Res};
use crate::repr::bounds::{from_str_result, opt_str_view, Bounds};
use crate::repr::{idx, Annots};
use crate::text::{
    chars_eq_str, chars_of, decimal_string, is_valid_ident, law_parse_usize_of_decimal,
    spec_is_valid_ident, string_from,
};

verus! {

/// The kind of a structural feature.
#[derive(Debug, Clone, Copy, PartialEq, Eq, Structural)]
pub enum Typ {
    EReference,
    EAttribute,
}

/// The name of a kind of structural feature.
pub open spec fn typ_name(t: Typ) -> Seq<char> {
    match t {
        Typ::EReference => "EReference"@,
        Typ::EAttribute => "EAttribute"@,
    }
}

/// The kind of structural feature that an `xsi:type` value names.
pub open spec fn spec_from_xsi_type(s: Seq<char>) -> Option<Typ> {
    if s == "ecore:EAttribute"@ {
        Some(Typ::EAttribute)
    } else if s == "ecore:EReference"@ {
        Some(Typ::EReference)
    } else {
        None
    }
}

/// The lower bound a structural feature gets when none is given: `0` for a
/// reference, `1` for an attribute.
pub open spec fn default_lbound(t: Typ) -> Seq<char> {
    match t {
        Typ::EReference => "0"@,
        Typ::EAttribute => "1"@,
    }
}

impl Typ {
    /// The name of the kind, as text.
    pub fn to_string(&self) -> (res: String)
        ensures
            res@ == typ_name(*self),
    {
        match self {
            Typ::EReference => string_from("EReference"),
            Typ::EAttribute => string_from("EAttribute"),
        }
    }

    /// The kind that the `xsi:type` attribute value `s` names.
    pub fn from_xsi_type(s: &str) -> (res: Res<Self>)
        ensures
            match spec_from_xsi_type(s@) {
                Some(t) => res == Res::<Typ>::Ok(t),
                None => res matches Err(Error::UnexpectedXsiType { value }) && value@ == s@,
            },
    {
        let v = chars_of(s);
        if chars_eq_str(&v, "ecore:EAttribute") {
            Ok(Self::EAttribute)
        } else if chars_eq_str(&v, "ecore:EReference") {
            Ok(Self::EReference)
        } else {
            Err(Error::UnexpectedXsiType { value: string_from(s) })
        }
    }

    /// Parses the bounds of a structural feature of this kind; an absent
    /// lower bound is `0` for a reference and `1` for an attribute.
    pub fn parse_bounds(self, lbound: Option<&str>, ubound: Option<&str>) -> (res: Res<Bounds>)
        ensures
            from_str_result(
                Some(
                    match lbound {
                        Some(l) => l@,
                        None => default_lbound(self),
                    },
                ),
                opt_str_view(ubound),
                res,
            ),
            res matches Ok(b) ==> b.wf(),
    {
        let lbound: &str = match (lbound, self) {
            (Some(lbound), _) => lbound,
            (None, Self::EReference) => "0",
            (None, Self::EAttribute) => "1",
        };
        Bounds::from_str(Some(lbound), ubound)
    }
}

/// A structural feature of a class: a reference or an attribute.
#[derive(Debug, Clone)]
pub struct StructuralFeature {
    pub name: String,
    pub kind: Typ,
    pub typ: idx::Class,
    pub bounds: Bounds,
    pub annotations: Annots,
    /// Corresponds to the attribute `containment`.
    pub containment: bool,
    /// Corresponds to the attribute `iD`.
    pub is_id: bool,
    pub ordered: bool,
}

impl StructuralFeature {
    /// A feature named `name`, of kind `kind`, type `typ` and bounds `bounds`,
    /// without annotations and with every flag unset; fails when `name` is not
    /// a valid identifier.
    pub fn new(name: &str, kind: Typ, typ: idx::Class, bounds: Bounds) -> (res: Res<Self>)
        ensures
            spec_is_valid_ident(name@) ==> (res matches Ok(f) && {
                &&& f.name@ == name@
                &&& f.kind == kind
                &&& f.typ == typ
                &&& f.bounds == bounds
                &&& f.annotations@ == Seq::<crate::repr::Annot>::empty()
                &&& !f.containment
                &&& !f.is_id
                &&& !f.ordered
            }),
            !spec_is_valid_ident(name@) ==> (res matches Err(
                Error::IllegalIdent { kind: IdentKind::StructuralFeature, ident },
            ) && ident@ == name@),
    {
        if !is_valid_ident(name) {
            return Err(
                Error::IllegalIdent { kind: IdentKind::StructuralFeature, ident: string_from(name) },
            );
        }
        Ok(
            Self {
                name: string_from(name),
                kind,
                typ,
                bounds,
                annotations: Vec::with_capacity(3),
                containment: false,
                is_id: false,
                ordered: false,
            },
        )
    }

    /// Sets the `containment` flag.
    pub fn set_containment(&mut self, flag: bool)
        ensures
            *final(self) == (Self { containment: flag, ..*old(self) }),
    {
        self.containment = flag
    }

    /// Sets the `containment` flag when a value is given.
    pub fn try_set_containment(&mut self, flag: Option<bool>)
        ensures
            *final(self) == (match flag {
                Some(f) => Self { containment: f, ..*old(self) },
                None => *old(self),
            }),
    {
        if let Some(flag) = flag {
            self.set_containment(flag)
        }
    }

    /// Sets the `iD` flag.
    pub fn set_is_id(&mut self, flag: bool)
        ensures
            *final(self) == (Self { is_id: flag, ..*old(self) }),
    {
        self.is_id = flag
    }

    /// Sets the `iD` flag when a value is given.
    pub fn try_set_is_id(&mut self, flag: Option<bool>)
        ensures
            *final(self) == (match flag {
                Some(f) => Self { is_id: f, ..*old(self) },
                None => *old(self),
            }),
    {
        if let Some(flag) = flag {
            self.set_is_id(flag)
        }
    }
}

/// Without any text, the bounds of a reference are `[0, 1]` and those of an
/// attribute are `[1, 1]`.
pub proof fn law_parse_bounds_defaults(t: Typ, res: Res<Bounds>)
    requires
        from_str_result(Some(default_lbound(t)), None, res),
    ensures
        t == Typ::EReference ==> res == Res::<Bounds>::Ok(Bounds { lbound: 0, ubound: Some(1) }),
        t == Typ::EAttribute ==> res == Res::<Bounds>::Ok(Bounds { lbound: 1, ubound: Some(1) }),
{
    reveal_strlit("0");
    reveal_strlit("1");
    law_parse_usize_of_decimal(0);
    law_parse_usize_of_decimal(1);
    assert(decimal_string(0) =~= "0"@);
    assert(decimal_string(1) =~= "1"@);
}

/// The `xsi:type` of a kind of feature is `ecore:` followed by its name, and
/// reading it gives the kind back.
pub proof fn law_xsi_type_roundtrip(t: Typ)
    ensures
        spec_from_xsi_type("ecore:"@ + typ_name(t)) == Some(t),
{
    reveal_strlit("ecore:");
    reveal_strlit("EReference");
    reveal_strlit("EAttribute");
    reveal_strlit("ecore:EAttribute");
    reveal_strlit("ecore:EReference");
    assert("ecore:"@ + "EAttribute"@ =~= "ecore:EAttribute"@);
    assert("ecore:"@ + "EReference"@ =~= "ecore:EReference"@);
    assert("ecore:EAttribute"@[7] != "ecore:EReference"@[7]);
}

} // verus!
