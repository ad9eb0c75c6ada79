//! Builtin Ecore classes/types.
use vstd::prelude::*;

use crate::error::{Error, Res};
use crate::repr::{idx, Class, ClassModel, Path};
use crate::text::{
    chars_of, has_prefix, is_whitespace, range_eq_str, starts_with_str, string_from,
    string_of_range, trim, trim_end, trim_range, trim_start,
};

verus! {

/// The builtin Ecore data types.
#[derive(Debug, Clone, Copy, PartialEq, Eq, Structural, PartialOrd, Ord, Hash)]
pub enum Typ {
    Object,
    EByte,
    EShort,
    EInt,
    ELong,
    EFloat,
    EDouble,
    EBoolean,
    EChar,
    EString,
}

impl AsRef<Typ> for Typ {
    fn as_ref(&self) -> (res: &Typ)
        ensures
            *res == *self,
    {
        self
    }
}

/// The name of a builtin type.
pub open spec fn typ_name(t: Typ) -> Seq<char> {
    match t {
        Typ::Object => "Object"@,
        Typ::EByte => "EByte"@,
        Typ::EShort => "EShort"@,
        Typ::EInt => "EInt"@,
        Typ::ELong => "ELong"@,
        Typ::EFloat => "EFloat"@,
        Typ::EDouble => "EDouble"@,
        Typ::EBoolean => "EBoolean"@,
        Typ::EChar => "EChar"@,
        Typ::EString => "EString"@,
    }
}

/// The builtin type a name names, if any.
pub open spec fn spec_typ_of_name(n: Seq<char>) -> Option<Typ> {
    if n == "Object"@ {
        Some(Typ::Object)
    } else if n == "EByte"@ {
        Some(Typ::EByte)
    } else if n == "EShort"@ {
        Some(Typ::EShort)
    } else if n == "EInt"@ {
        Some(Typ::EInt)
    } else if n == "ELong"@ {
        Some(Typ::ELong)
    } else if n == "EFloat"@ {
        Some(Typ::EFloat)
    } else if n == "EDouble"@ {
        Some(Typ::EDouble)
    } else if n == "EBoolean"@ {
        Some(Typ::EBoolean)
    } else if n == "EChar"@ {
        Some(Typ::EChar)
    } else if n == "EString"@ {
        Some(Typ::EString)
    } else {
        None
    }
}

/// The start of every builtin type URL.
pub open spec fn url_prefix() -> Seq<char> {
    "http://www.eclipse.org/emf/2002/Ecore#//"@
}

/// The URL of a builtin type.
pub open spec fn typ_url(t: Typ) -> Seq<char> {
    url_prefix() + typ_name(t)
}

/// The builtin type a URL names, if any.
pub open spec fn spec_parse_etype_url(s: Seq<char>) -> Option<Typ> {
    if has_prefix(s, url_prefix()) {
        spec_typ_of_name(s.subrange(url_prefix().len() as int, s.len() as int))
    } else {
        None
    }
}

/// The header of a builtin type in an `eType` attribute.
pub open spec fn etype_header() -> Seq<char> {
    "ecore:EDataType"@
}

/// What `Typ::try_parse_etype` gives on `s`: nothing when `s` does not start
/// with the builtin header, else the type that the trimmed rest names.
pub open spec fn try_parse_etype_result(s: Seq<char>, res: Res<Option<Typ>>) -> bool {
    if !has_prefix(s, etype_header()) {
        res == Res::<Option<Typ>>::Ok(None)
    } else {
        let url = trim(s.subrange(etype_header().len() as int, s.len() as int));
        match spec_parse_etype_url(url) {
            Some(t) => res == Res::<Option<Typ>>::Ok(Some(t)),
            None => res matches Err(Error::UnknownBuiltinUrl { url: u }) && u@ == url,
        }
    }
}

/// The abstract value of the class that `Typ::build` makes for `t`.
pub open spec fn builtin_class(t: Typ, path: Seq<idx::Pack>, idx: idx::Class) -> ClassModel {
    ClassModel {
        idx,
        path,
        concrete: true,
        is_interface: false,
        typ: "ecore:Builtin"@,
        name: typ_name(t),
        inst_name: None,
        literals: Seq::empty(),
        annotations: Seq::empty(),
        sup: Set::empty(),
        sub: Set::empty(),
        structural: Seq::empty(),
        operations: Seq::empty(),
    }
}

/// All builtin types, in order.
pub open spec fn all_typs() -> Seq<Typ> {
    seq![
        Typ::Object,
        Typ::EByte,
        Typ::EShort,
        Typ::EInt,
        Typ::ELong,
        Typ::EFloat,
        Typ::EDouble,
        Typ::EBoolean,
        Typ::EChar,
        Typ::EString,
    ]
}

/// The builtin type that the characters `v[from..]` name, if any.
fn typ_of_name_range(v: &Vec<char>, from: usize) -> (res: Option<Typ>)
    requires
        from <= v@.len(),
    ensures
        res == spec_typ_of_name(v@.subrange(from as int, v@.len() as int)),
{
    if range_eq_str(v, from, "Object") {
        Some(Typ::Object)
    } else if range_eq_str(v, from, "EByte") {
        Some(Typ::EByte)
    } else if range_eq_str(v, from, "EShort") {
        Some(Typ::EShort)
    } else if range_eq_str(v, from, "EInt") {
        Some(Typ::EInt)
    } else if range_eq_str(v, from, "ELong") {
        Some(Typ::ELong)
    } else if range_eq_str(v, from, "EFloat") {
        Some(Typ::EFloat)
    } else if range_eq_str(v, from, "EDouble") {
        Some(Typ::EDouble)
    } else if range_eq_str(v, from, "EBoolean") {
        Some(Typ::EBoolean)
    } else if range_eq_str(v, from, "EChar") {
        Some(Typ::EChar)
    } else if range_eq_str(v, from, "EString") {
        Some(Typ::EString)
    } else {
        None
    }
}

/// The builtin type that the URL in `v` names, if any.
fn typ_of_url(v: &Vec<char>) -> (res: Option<Typ>)
    ensures
        res == spec_parse_etype_url(v@),
{
    let (ok, plen) = starts_with_str(v, "http://www.eclipse.org/emf/2002/Ecore#//");
    if !ok {
        return None;
    }
    typ_of_name_range(v, plen)
}

impl Typ {
    /// The name of the type.
    pub fn name(&self) -> (res: &'static str)
        ensures
            res@ == typ_name(*self),
    {
        match self {
            Typ::Object => "Object",
            Typ::EByte => "EByte",
            Typ::EShort => "EShort",
            Typ::EInt => "EInt",
            Typ::ELong => "ELong",
            Typ::EFloat => "EFloat",
            Typ::EDouble => "EDouble",
            Typ::EBoolean => "EBoolean",
            Typ::EChar => "EChar",
            Typ::EString => "EString",
        }
    }

    /// The name of the type, as text.
    pub fn to_string(&self) -> (res: String)
        ensures
            res@ == typ_name(*self),
    {
        string_from(self.name())
    }

    /// The class of this builtin type, with index `idx` in package path
    /// `path`: concrete, not an interface, of type `ecore:Builtin`, named after
    /// the type.
    pub fn build(self, path: Path, idx: idx::Class) -> (res: Class)
        ensures
            res@ == builtin_class(self, path@, idx),
            res@.concrete,
            !res@.is_interface,
            res@.idx == idx,
            res@.path == path@,
            res@.name == typ_name(self),
            res@.typ == "ecore:Builtin"@,
            res@.inst_name is None,
    {
        Class::new(idx, path, "ecore:Builtin", self.name(), None, Some(false), Some(false))
    }

    /// Lists all builtin types; `Typ::build` makes the class of each.
    pub fn builders() -> (res: Vec<Typ>)
        ensures
            res@ == all_typs(),
    {
        let res = vec![
            Typ::Object,
            Typ::EByte,
            Typ::EShort,
            Typ::EInt,
            Typ::ELong,
            Typ::EFloat,
            Typ::EDouble,
            Typ::EBoolean,
            Typ::EChar,
            Typ::EString,
        ];
        assert(res@ =~= all_typs());
        res
    }

    /// Parses a builtin type URL appearing after a `ecore:EDataType` in an
    /// `eType` attribute.
    pub fn parse_etype_url(s: &str) -> (res: Res<Self>)
        ensures
            match spec_parse_etype_url(s@) {
                Some(t) => res == Res::<Typ>::Ok(t),
                None => res matches Err(Error::UnknownBuiltinUrl { url }) && url@ == s@,
            },
    {
        let v = chars_of(s);
        match typ_of_url(&v) {
            Some(t) => Ok(t),
            None => Err(Error::UnknownBuiltinUrl { url: string_from(s) }),
        }
    }

    /// Recognizes a builtin `ecore` datatype from its `eType` description.
    ///
    /// Returns `None` if `s` does not start with `ecore:EDataType`, otherwise
    /// returns the type if it is recognized from the (trimmed) URL part and an
    /// error if not.
    pub fn try_parse_etype(s: &str) -> (res: Res<Option<Self>>)
        ensures
            try_parse_etype_result(s@, res),
    {
        let v = chars_of(s);
        let (ok, plen) = starts_with_str(&v, "ecore:EDataType");
        if !ok {
            return Ok(None);
        }
        let (i, j) = trim_range(&v, plen);
        let mut url: Vec<char> = Vec::new();
        let mut k = i;
        while k < j
            invariant
                i <= k <= j <= v@.len(),
                url@ == v@.subrange(i as int, k as int),
            decreases j - k,
        {
            url.push(v[k]);
            k += 1;
            assert(url@ =~= v@.subrange(i as int, k as int));
        }
        match typ_of_url(&url) {
            Some(t) => Ok(Some(t)),
            None => Err(Error::UnknownBuiltinUrl { url: string_of_range(&v, i, j) }),
        }
    }
}

/// The class of every builtin type is concrete, not an interface, of type
/// `ecore:Builtin`, without instance name, named after the type, and has the
/// index and path it was built with.
pub proof fn law_builtin_classes_concrete(t: Typ, path: Seq<idx::Pack>, idx: idx::Class)
    ensures
        builtin_class(t, path, idx).concrete,
        !builtin_class(t, path, idx).is_interface,
        builtin_class(t, path, idx).typ == "ecore:Builtin"@,
        builtin_class(t, path, idx).inst_name is None,
        builtin_class(t, path, idx).name == typ_name(t),
        builtin_class(t, path, idx).idx == idx,
        builtin_class(t, path, idx).path == path,
{
}

/// Each builtin type is named by its own name only.
pub proof fn law_typ_name_roundtrip(t: Typ)
    ensures
        spec_typ_of_name(typ_name(t)) == Some(t),
{
    reveal_strlit("Object");
    assert("Object"@.len() == 6 && "Object"@[1] == 'b');
    reveal_strlit("EByte");
    assert("EByte"@.len() == 5 && "EByte"@[1] == 'B');
    reveal_strlit("EShort");
    assert("EShort"@.len() == 6 && "EShort"@[1] == 'S');
    reveal_strlit("EInt");
    assert("EInt"@.len() == 4 && "EInt"@[1] == 'I');
    reveal_strlit("ELong");
    assert("ELong"@.len() == 5 && "ELong"@[1] == 'L');
    reveal_strlit("EFloat");
    assert("EFloat"@.len() == 6 && "EFloat"@[1] == 'F');
    reveal_strlit("EDouble");
    assert("EDouble"@.len() == 7 && "EDouble"@[1] == 'D');
    reveal_strlit("EBoolean");
    assert("EBoolean"@.len() == 8 && "EBoolean"@[1] == 'B');
    reveal_strlit("EChar");
    assert("EChar"@.len() == 5 && "EChar"@[1] == 'C');
    reveal_strlit("EString");
    assert("EString"@.len() == 7 && "EString"@[1] == 'S');
}

/// Parsing the URL of a builtin type gives that type back.
pub proof fn law_parse_etype_url_roundtrip(t: Typ)
    ensures
        spec_parse_etype_url(typ_url(t)) == Some(t),
{
    let u = typ_url(t);
    assert(u.subrange(0, url_prefix().len() as int) =~= url_prefix());
    assert(u.subrange(url_prefix().len() as int, u.len() as int) =~= typ_name(t));
    law_typ_name_roundtrip(t);
}

/// Every builtin type name is a non-empty word ending with a letter.
proof fn lemma_typ_name_ends_with_letter(t: Typ)
    ensures
        typ_name(t).len() > 0,
        'a' <= typ_name(t).last() <= 'z' || 'A' <= typ_name(t).last() <= 'Z',
{
    match t {
        Typ::Object => {
            reveal_strlit("Object");
            assert(typ_name(t).len() == 6 && typ_name(t)[5] == 't');
        },
        Typ::EByte => {
            reveal_strlit("EByte");
            assert(typ_name(t).len() == 5 && typ_name(t)[4] == 'e');
        },
        Typ::EShort => {
            reveal_strlit("EShort");
            assert(typ_name(t).len() == 6 && typ_name(t)[5] == 't');
        },
        Typ::EInt => {
            reveal_strlit("EInt");
            assert(typ_name(t).len() == 4 && typ_name(t)[3] == 't');
        },
        Typ::ELong => {
            reveal_strlit("ELong");
            assert(typ_name(t).len() == 5 && typ_name(t)[4] == 'g');
        },
        Typ::EFloat => {
            reveal_strlit("EFloat");
            assert(typ_name(t).len() == 6 && typ_name(t)[5] == 't');
        },
        Typ::EDouble => {
            reveal_strlit("EDouble");
            assert(typ_name(t).len() == 7 && typ_name(t)[6] == 'e');
        },
        Typ::EBoolean => {
            reveal_strlit("EBoolean");
            assert(typ_name(t).len() == 8 && typ_name(t)[7] == 'n');
        },
        Typ::EChar => {
            reveal_strlit("EChar");
            assert(typ_name(t).len() == 5 && typ_name(t)[4] == 'r');
        },
        Typ::EString => {
            reveal_strlit("EString");
            assert(typ_name(t).len() == 7 && typ_name(t)[6] == 'g');
        },
    }
}

/// An `eType` made of the builtin header, a space and the URL of a builtin
/// type names that type.
pub proof fn law_try_parse_etype_roundtrip(t: Typ)
    ensures
        try_parse_etype_result(etype_header() + " "@ + typ_url(t), Res::<Option<Typ>>::Ok(Some(t))),
{
    let s = etype_header() + " "@ + typ_url(t);
    let h = etype_header();
    let u = typ_url(t);
    reveal_strlit(" ");
    reveal_strlit("http://www.eclipse.org/emf/2002/Ecore#//");
    law_typ_name_roundtrip(t);
    assert(s.subrange(0, h.len() as int) =~= h);
    let rest = s.subrange(h.len() as int, s.len() as int);
    assert(rest =~= " "@ + u);
    assert(rest.drop_first() =~= u);
    assert(u[0] == 'h');
    assert(trim_start(u) == u);
    lemma_typ_name_ends_with_letter(t);
    assert(u.last() == typ_name(t).last());
    assert(!is_whitespace(u.last()));
    assert(trim_end(u) == u);
    assert(trim(rest) == u);
    law_parse_etype_url_roundtrip(t);
}

} // verus!
