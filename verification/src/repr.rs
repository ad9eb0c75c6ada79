//! The representation of Ecore models: annotations, package paths, enum
//! literals, parameters, operations, classes and packages.
use vstd::prelude::*;

pub mod annot;
pub mod bounds;
pub mod builtin;
pub mod structural;
pub mod idx;

pub use bounds::Bounds;
pub use structural::StructuralFeature;

use std::collections::BTreeSet;

use crate::error::{Error, IdentKind, Res};
use crate::text::{has_prefix, spec_is_valid_ident, split, string_from};

verus! {

// ---------------------------------------------------------------------------
// Annotations
// ---------------------------------------------------------------------------

/// The key/value bindings that a list of pairs stands for; later pairs win.
pub open spec fn pairs_map(s: Seq<(String, String)>) -> Map<Seq<char>, Seq<char>>
    decreases s.len(),
{
    if s.len() == 0 {
        Map::empty()
    } else {
        pairs_map(s.drop_last()).insert(s.last().0@, s.last().1@)
    }
}

/// No key occurs twice in a list of pairs.
pub open spec fn keys_distinct(s: Seq<(String, String)>) -> bool {
    forall|i: int, j: int| 0 <= i < j < s.len() ==> #[trigger] s[i].0@ != #[trigger] s[j].0@
}

/// A key is bound in the map of a list of pairs exactly when some pair holds
/// it, and then to the value of that pair when no key occurs twice.
proof fn lemma_pairs_map(s: Seq<(String, String)>, k: Seq<char>)
    ensures
        pairs_map(s).contains_key(k) <==> exists|i: int| 0 <= i < s.len() && #[trigger] s[i].0@ == k,
        forall|i: int|
            0 <= i < s.len() && keys_distinct(s) && #[trigger] s[i].0@ == k ==> pairs_map(s)[k]
                == s[i].1@,
    decreases s.len(),
{
    if s.len() > 0 {
        let t = s.drop_last();
        lemma_pairs_map(t, k);
        if pairs_map(s).contains_key(k) && s.last().0@ != k {
            let i = choose|i: int| 0 <= i < t.len() && #[trigger] t[i].0@ == k;
            assert(s[i].0@ == k);
        }
        if exists|i: int| 0 <= i < s.len() && #[trigger] s[i].0@ == k {
            let i = choose|i: int| 0 <= i < s.len() && #[trigger] s[i].0@ == k;
            if i < t.len() {
                assert(t[i].0@ == k);
            }
        }
        assert forall|i: int|
            0 <= i < s.len() && keys_distinct(s) && #[trigger] s[i].0@ == k implies pairs_map(s)[k]
            == s[i].1@ by {
            if i < t.len() {
                assert(t[i].0@ == k);
                assert(s[s.len() - 1].0@ != k);
            }
        }
    }
}

/// The abstract value of an annotation: its source and its details, a map
/// from keys to values.
pub struct AnnotModel {
    pub source: Seq<char>,
    pub details: Map<Seq<char>, Seq<char>>,
}

/// A package/class annotation.
///
/// Unlike packages/classes, annotations are not stored by the factory/context.
/// They just appear as-is in the package/class they annotate.
#[derive(Debug)]
pub struct Annot {
    source: annot::Source,
    details: Vec<(annot::Key, annot::Val)>,
}

/// A list of annotations.
pub type Annots = Vec<Annot>;

impl View for Annot {
    type V = AnnotModel;

    closed spec fn view(&self) -> AnnotModel {
        AnnotModel { source: self.source@, details: pairs_map(self.details@) }
    }
}

impl Clone for Annot {
    fn clone(&self) -> (res: Self)
        ensures
            res@ == self@,
    {
        proof {
            use_type_invariant(self);
        }
        let mut details: Vec<(annot::Key, annot::Val)> = Vec::new();
        let mut i: usize = 0;
        while i < self.details.len()
            invariant
                i <= self.details@.len(),
                details@ == self.details@.subrange(0, i as int),
            decreases self.details@.len() - i,
        {
            let (k, v) = (self.details[i].0.clone(), self.details[i].1.clone());
            details.push((k, v));
            i += 1;
            assert(details@ =~= self.details@.subrange(0, i as int));
        }
        assert(details@ =~= self.details@);
        Annot { source: self.source.clone(), details }
    }
}

impl std::ops::Deref for Annot {
    type Target = Vec<(annot::Key, annot::Val)>;

    /// An annotation reads as its details.
    fn deref(&self) -> (res: &Self::Target)
        ensures
            pairs_map(res@) == self@.details,
    {
        &self.details
    }
}

impl Annot {
    /// The details are stored without repeating a key.
    #[verifier::type_invariant]
    closed spec fn inv(self) -> bool {
        keys_distinct(self.details@)
    }

    /// An annotation with source `source` and no details yet.
    pub fn with_capacity(source: &str, details_capa: usize) -> (res: Self)
        ensures
            res@.source == source@,
            res@.details == Map::<Seq<char>, Seq<char>>::empty(),
    {
        Self { source: string_from(source), details: Vec::with_capacity(details_capa) }
    }

    /// Releases spare memory; the annotation is unchanged.
    pub fn shrink_to_fit(&mut self)
        ensures
            final(self)@ == old(self)@,
    {
        proof {
            use_type_invariant(&*self);
        }
        let mut details = Vec::new();
        std::mem::swap(&mut details, &mut self.details);
        crate::text::shrink_vec(&mut details);
        self.details = details;
    }

    /// The source of the annotation.
    pub fn source(&self) -> (res: &str)
        ensures
            res@ == self@.source,
    {
        self.source.as_str()
    }

    /// The details of the annotation, as key/value pairs in which no key
    /// occurs twice.
    pub fn details(&self) -> (res: &Vec<(annot::Key, annot::Val)>)
        ensures
            pairs_map(res@) == self@.details,
            keys_distinct(res@),
    {
        proof {
            use_type_invariant(self);
        }
        &self.details
    }

    /// The position of `key` among the details, if it is bound.
    fn find(&self, key: &String) -> (res: Option<usize>)
        ensures
            match res {
                Some(i) => i < self.details@.len() && self.details@[i as int].0@ == key@,
                None => forall|i: int|
                    0 <= i < self.details@.len() ==> #[trigger] self.details@[i].0@ != key@,
            },
    {
        let mut i: usize = 0;
        while i < self.details.len()
            invariant
                i <= self.details@.len(),
                forall|j: int| 0 <= j < i ==> #[trigger] self.details@[j].0@ != key@,
            decreases self.details@.len() - i,
        {
            if self.details[i].0 == *key {
                return Some(i);
            }
            i += 1;
        }
        None
    }

    /// The value bound to `key`, if any.
    pub fn get(&self, key: &str) -> (res: Option<&annot::Val>)
        ensures
            match res {
                Some(v) => self@.details.contains_key(key@) && v@ == self@.details[key@],
                None => !self@.details.contains_key(key@),
            },
    {
        proof {
            use_type_invariant(self);
            lemma_pairs_map(self.details@, key@);
        }
        let k = string_from(key);
        match self.find(&k) {
            Some(i) => Some(&self.details[i].1),
            None => None,
        }
    }

    /// Whether `key` is bound.
    pub fn contains_key(&self, key: &str) -> (res: bool)
        ensures
            res == self@.details.contains_key(key@),
    {
        self.get(key).is_some()
    }

    /// Binds `key` to `val`, like a map's `insert`, but fails on overwrite:
    /// when `key` is already bound the annotation is left unchanged and the
    /// error holds the key, the value already bound and the refused value.
    pub fn insert(&mut self, key: &str, val: &str) -> (res: Res<()>)
        ensures
            old(self)@.details.contains_key(key@) ==> {
                &&& res matches Err(Error::Redefinition { key: k, old_val, new_val })
                &&& k@ == key@
                &&& old_val@ == old(self)@.details[key@]
                &&& new_val@ == val@
                &&& final(self)@ == old(self)@
            },
            !old(self)@.details.contains_key(key@) ==> {
                &&& res is Ok
                &&& final(self)@.source == old(self)@.source
                &&& final(self)@.details == old(self)@.details.insert(key@, val@)
            },
    {
        proof {
            use_type_invariant(&*self);
            lemma_pairs_map(self.details@, key@);
        }
        let k = string_from(key);
        match self.find(&k) {
            Some(i) => {
                let old_val = self.details[i].1.clone();
                Err(Error::Redefinition { key: k, old_val, new_val: string_from(val) })
            },
            None => {
                let ghost old_details = self.details@;
                let mut details = Vec::new();
                std::mem::swap(&mut details, &mut self.details);
                details.push((k, string_from(val)));
                proof {
                    assert(details@.drop_last() =~= old_details);
                    assert forall|a: int, b: int|
                        0 <= a < b < details@.len() implies #[trigger] details@[a].0@
                        != #[trigger] details@[b].0@ by {
                        if b == details@.len() - 1 {
                            assert(old_details[a].0@ != key@);
                        } else {
                            assert(old_details[a].0@ != old_details[b].0@);
                        }
                    }
                }
                self.details = details;
                Ok(())
            },
        }
    }
}

/// A read gives back what a write wrote: once `insert` binds `key` to `val`,
/// `get` on `key` answers `val`.
pub proof fn law_annot_insert_then_get(
    before: AnnotModel,
    after: AnnotModel,
    key: Seq<char>,
    val: Seq<char>,
)
    requires
        !before.details.contains_key(key),
        after.details == before.details.insert(key, val),
    ensures
        after.details.contains_key(key),
        after.details[key] == val,
        forall|k: Seq<char>|
            k != key ==> (after.details.contains_key(k) == before.details.contains_key(k)),
{
}


// ---------------------------------------------------------------------------
// Paths
// ---------------------------------------------------------------------------

/// The state of a path after `Path::push(idx)`: `idx` becomes the last
/// package.
pub open spec fn spec_path_push(p: Seq<idx::Pack>, idx: idx::Pack) -> Seq<idx::Pack> {
    p.push(idx)
}

/// What `Path::pop` gives on a path: the last package and the shorter path,
/// or nothing (and the path unchanged) when only one package is left.
pub open spec fn spec_path_pop(p: Seq<idx::Pack>) -> (Option<idx::Pack>, Seq<idx::Pack>) {
    if p.len() > 1 {
        (Some(p.last()), p.drop_last())
    } else {
        (None, p)
    }
}

/// A sequence of package indices, understood as an **absolute** path.
///
/// Its view is the list of its packages, from the outermost one to the last
/// one; it is never empty.
#[derive(Debug, Clone, PartialEq, Eq, PartialOrd, Ord, Hash)]
pub struct Path {
    last: idx::Pack,
    path: Vec<idx::Pack>,
}

impl View for Path {
    type V = Seq<idx::Pack>;

    closed spec fn view(&self) -> Seq<idx::Pack> {
        self.path@.push(self.last)
    }
}

/// Every path has at least one package.
pub proof fn lemma_path_nonempty(p: Path)
    ensures
        p@.len() > 0,
{
}

impl Path {
    /// The path made of the single package `idx`.
    pub fn new(idx: idx::Pack) -> (res: Self)
        ensures
            res@ == seq![idx],
    {
        let res = Self { last: idx, path: Vec::new() };
        assert(res@ =~= seq![idx]);
        res
    }

    /// The packages of the path, from the outermost one to the last one.
    pub fn iter(&self) -> (res: Vec<idx::Pack>)
        ensures
            res@ == self@,
    {
        let mut res = self.path.clone();
        assert(res@ =~= self.path@);
        res.push(self.last);
        res
    }

    /// The packages of the path but the last one.
    pub fn iter_pref(&self) -> (res: Vec<idx::Pack>)
        ensures
            res@ == self@.drop_last(),
    {
        let res = self.path.clone();
        assert(res@ =~= self.path@);
        assert(self@.drop_last() =~= self.path@);
        res
    }

    /// The number of packages in the path.
    pub fn len(&self) -> (res: usize)
        requires
            self@.len() <= usize::MAX,
        ensures
            res == self@.len(),
    {
        self.pref_len() + 1
    }

    /// The number of packages in the path but the last one.
    pub fn pref_len(&self) -> (res: usize)
        ensures
            res == self@.len() - 1,
    {
        self.path.len()
    }

    /// Extends the path with `idx`, which becomes its last package.
    pub fn push(&mut self, idx: idx::Pack)
        ensures
            final(self)@ == spec_path_push(old(self)@, idx),
    {
        let to_push = self.last;
        self.last = idx;
        self.path.push(to_push);
        assert(self@ =~= spec_path_push(old(self)@, idx));
    }

    /// Removes the last package and returns it, unless it is the only one.
    pub fn pop(&mut self) -> (res: Option<idx::Pack>)
        ensures
            (res, final(self)@) == spec_path_pop(old(self)@),
    {
        match self.path.pop() {
            Some(new_last) => {
                let old_last = self.last;
                self.last = new_last;
                assert(self@ =~= old(self)@.drop_last());
                Some(old_last)
            },
            None => {
                assert(old(self)@.len() == 1);
                None
            },
        }
    }

    /// The last package of the path.
    pub fn last(&self) -> (res: idx::Pack)
        ensures
            res == self@.last(),
    {
        self.last
    }

    /// The first (outermost) package of the path.
    pub fn first(&self) -> (res: idx::Pack)
        ensures
            res == self@[0],
    {
        if self.path.len() > 0 {
            self.path[0]
        } else {
            self.last
        }
    }
}

/// Popping right after pushing `idx` gives `idx` back and restores the path.
pub proof fn law_path_push_pop(p: Seq<idx::Pack>, idx: idx::Pack)
    requires
        p.len() > 0,
    ensures
        spec_path_pop(spec_path_push(p, idx)) == (Some(idx), p),
{
    assert(spec_path_push(p, idx).drop_last() =~= p);
}


// ---------------------------------------------------------------------------
// Enum literals
// ---------------------------------------------------------------------------

/// The abstract value of an enum literal.
pub struct ELitModel {
    pub name: Seq<char>,
    pub value: Option<Seq<char>>,
    pub annots: Seq<Annot>,
}

/// A literal, which are used to specify enum variants.
#[derive(Debug, Clone)]
pub struct ELit {
    name: String,
    value: Option<String>,
    annots: Annots,
}

/// A list of enum literals.
pub type ELits = Vec<ELit>;

/// The characters of an optional string.
pub open spec fn opt_string_view(s: Option<String>) -> Option<Seq<char>> {
    match s {
        Some(s) => Some(s@),
        None => None,
    }
}

/// An owned copy of an optional string slice.
fn opt_string_from(s: Option<&str>) -> (res: Option<String>)
    ensures
        opt_string_view(res) == bounds::opt_str_view(s),
{
    match s {
        Some(s) => Some(string_from(s)),
        None => None,
    }
}

/// The optional string slice of an optional string.
fn opt_as_str(s: &Option<String>) -> (res: Option<&str>)
    ensures
        bounds::opt_str_view(res) == opt_string_view(*s),
{
    match s {
        Some(s) => Some(s.as_str()),
        None => None,
    }
}

impl View for ELit {
    type V = ELitModel;

    closed spec fn view(&self) -> ELitModel {
        ELitModel { name: self.name@, value: opt_string_view(self.value), annots: self.annots@ }
    }
}

impl ELit {
    /// A literal named `name` with an optional value, without annotations.
    pub fn new(name: &str, value: Option<&str>) -> (res: Self)
        ensures
            res@.name == name@,
            res@.value == bounds::opt_str_view(value),
            res@.annots == Seq::<Annot>::empty(),
    {
        Self { name: string_from(name), value: opt_string_from(value), annots: Vec::new() }
    }

    /// A literal named `name`, without value or annotations.
    pub fn new_name(name: &str) -> (res: Self)
        ensures
            res@.name == name@,
            res@.value is None,
            res@.annots == Seq::<Annot>::empty(),
    {
        Self { name: string_from(name), value: None, annots: Vec::new() }
    }

    /// The name of the literal.
    pub fn name(&self) -> (res: &str)
        ensures
            res@ == self@.name,
    {
        self.name.as_str()
    }

    /// The value of the literal, if any.
    pub fn value(&self) -> (res: Option<&str>)
        ensures
            bounds::opt_str_view(res) == self@.value,
    {
        opt_as_str(&self.value)
    }
}

// ---------------------------------------------------------------------------
// Parameters
// ---------------------------------------------------------------------------

/// The abstract value of an operation parameter.
pub struct ParamModel {
    pub name: Seq<char>,
    pub bounds: Bounds,
    pub typ: idx::Class,
    pub ordered: bool,
}

/// A parameter of an operation.
#[derive(Debug, Clone)]
pub struct Param {
    name: String,
    bounds: Bounds,
    typ: idx::Class,
    pub ordered: bool,
}

/// A list of parameters.
pub type Params = Vec<Param>;

impl View for Param {
    type V = ParamModel;

    closed spec fn view(&self) -> ParamModel {
        ParamModel { name: self.name@, bounds: self.bounds, typ: self.typ, ordered: self.ordered }
    }
}

impl Param {
    /// A parameter named `name`, of bounds `bounds` and type `typ`, not
    /// ordered.
    pub fn new(name: &str, bounds: Bounds, typ: idx::Class) -> (res: Self)
        ensures
            res@ == (ParamModel { name: name@, bounds, typ, ordered: false }),
    {
        Self { name: string_from(name), bounds, ordered: false, typ }
    }

    /// The name of the parameter.
    pub fn name(&self) -> (res: &str)
        ensures
            res@ == self@.name,
    {
        self.name.as_str()
    }

    /// The bounds of the parameter.
    pub fn bounds(&self) -> (res: &Bounds)
        ensures
            *res == self@.bounds,
    {
        &self.bounds
    }

    /// The type of the parameter.
    pub fn typ(&self) -> (res: idx::Class)
        ensures
            res == self@.typ,
    {
        self.typ
    }
}

// ---------------------------------------------------------------------------
// Operations
// ---------------------------------------------------------------------------

/// The abstract value of an operation.
pub struct OperationModel {
    pub name: Seq<char>,
    pub typ: Option<idx::Class>,
    pub parameters: Seq<Param>,
    pub annotations: Seq<Annot>,
    pub bounds: Bounds,
}

/// An operation of a class.
#[derive(Debug, Clone)]
pub struct Operation {
    name: String,
    typ: Option<idx::Class>,
    parameters: Params,
    annotations: Annots,
    bounds: Bounds,
}

/// A list of operations.
pub type Operations = Vec<Operation>;

impl View for Operation {
    type V = OperationModel;

    closed spec fn view(&self) -> OperationModel {
        OperationModel {
            name: self.name@,
            typ: self.typ,
            parameters: self.parameters@,
            annotations: self.annotations@,
            bounds: self.bounds,
        }
    }
}

/// What `Operation::new` and `Operation::with_capacity` give: the operation
/// when `name` is a valid identifier, else an error naming it.
pub open spec fn new_operation_result(
    name: Seq<char>,
    typ: Option<idx::Class>,
    bounds: Bounds,
    res: Res<Operation>,
) -> bool {
    if crate::text::spec_is_valid_ident(name) {
        res matches Ok(op) && op@ == (OperationModel {
            name,
            typ,
            parameters: Seq::empty(),
            annotations: Seq::empty(),
            bounds,
        })
    } else {
        res matches Err(Error::IllegalIdent { kind: IdentKind::Operation, ident }) && ident@
            == name
    }
}

/// An operation is built exactly when its name is a valid identifier, and it
/// then keeps the name, return type and bounds it was given, with no
/// parameters or annotations yet.
pub proof fn law_new_operation_keeps_inputs(
    name: Seq<char>,
    typ: Option<idx::Class>,
    bounds: Bounds,
    res: Res<Operation>,
)
    requires
        new_operation_result(name, typ, bounds, res),
    ensures
        res is Ok <==> crate::text::spec_is_valid_ident(name),
        res matches Ok(op) ==> op@.name == name && op@.typ == typ && op@.bounds == bounds
            && op@.parameters.len() == 0 && op@.annotations.len() == 0,
        res matches Err(e) ==> e matches Error::IllegalIdent { kind: IdentKind::Operation, .. },
{
}

impl Operation {
    /// An operation named `name`, returning `typ`, with bounds `bounds`, room
    /// for `param_capa` parameters and no parameter or annotation yet; fails
    /// when `name` is not a valid identifier.
    pub fn with_capacity(
        name: &str,
        typ: Option<idx::Class>,
        param_capa: usize,
        bounds: Bounds,
    ) -> (res: Res<Self>)
        ensures
            new_operation_result(name@, typ, bounds, res),
            res is Ok <==> crate::text::spec_is_valid_ident(name@),
            res matches Ok(op) ==> op@.name == name@ && op@.typ == typ && op@.bounds == bounds
                && op@.parameters.len() == 0 && op@.annotations.len() == 0,
    {
        if !crate::text::is_valid_ident(name) {
            return Err(Error::IllegalIdent { kind: IdentKind::Operation, ident: string_from(name) });
        }
        let res = Self {
            name: string_from(name),
            typ: typ,
            parameters: Vec::with_capacity(param_capa),
            annotations: Vec::new(),
            bounds: bounds,
        };
        assert(res@.parameters =~= Seq::<Param>::empty());
        assert(res@.annotations =~= Seq::<Annot>::empty());
        Ok(res)
    }

    /// An operation named `name`, returning `typ`, with bounds `bounds`; fails
    /// when `name` is not a valid identifier.
    pub fn new(name: &str, typ: Option<idx::Class>, bounds: Bounds) -> (res: Res<Self>)
        ensures
            new_operation_result(name@, typ, bounds, res),
            res is Ok <==> crate::text::spec_is_valid_ident(name@),
            res matches Ok(op) ==> op@.name == name@ && op@.typ == typ && op@.bounds == bounds
                && op@.parameters.len() == 0 && op@.annotations.len() == 0,
    {
        Self::with_capacity(name, typ, 3, bounds)
    }

    /// Appends a parameter.
    pub fn add_parameter(&mut self, param: Param)
        ensures
            final(self)@ == (OperationModel {
                parameters: old(self)@.parameters.push(param),
                ..old(self)@
            }),
    {
        self.parameters.push(param)
    }

    /// The name of the operation.
    pub fn name(&self) -> (res: &str)
        ensures
            res@ == self@.name,
    {
        self.name.as_str()
    }

    /// The return type of the operation, if any.
    pub fn typ(&self) -> (res: Option<idx::Class>)
        ensures
            res == self@.typ,
    {
        self.typ
    }

    /// The parameters of the operation, in order.
    pub fn parameters(&self) -> (res: &Params)
        ensures
            res@ == self@.parameters,
    {
        &self.parameters
    }

    /// The bounds of the operation.
    pub fn bounds(&self) -> (res: &Bounds)
        ensures
            *res == self@.bounds,
    {
        &self.bounds
    }
}


// ---------------------------------------------------------------------------
// Classes
// ---------------------------------------------------------------------------

/// The abstract value of a class.
pub struct ClassModel {
    pub idx: idx::Class,
    pub path: Seq<idx::Pack>,
    pub concrete: bool,
    pub is_interface: bool,
    pub typ: Seq<char>,
    pub name: Seq<char>,
    pub inst_name: Option<Seq<char>>,
    pub literals: Seq<ELit>,
    pub annotations: Seq<Annot>,
    pub sup: Set<idx::Class>,
    pub sub: Set<idx::Class>,
    pub structural: Seq<StructuralFeature>,
    pub operations: Seq<Operation>,
}

/// A class (or data type) of a model.
#[derive(Debug)]
pub struct Class {
    pub idx: idx::Class,
    pub path: Path,
    concrete: bool,
    is_interface: bool,
    typ: String,
    name: String,
    inst_name: Option<String>,
    literals: Vec<ELit>,
    annotations: Annots,
    sup: BTreeSet<idx::Class>,
    sub: BTreeSet<idx::Class>,
    structural: Vec<StructuralFeature>,
    operations: Operations,
}

impl View for Class {
    type V = ClassModel;

    closed spec fn view(&self) -> ClassModel {
        ClassModel {
            idx: self.idx,
            path: self.path@,
            concrete: self.concrete,
            is_interface: self.is_interface,
            typ: self.typ@,
            name: self.name@,
            inst_name: opt_string_view(self.inst_name),
            literals: self.literals@,
            annotations: self.annotations@,
            sup: self.sup@,
            sub: self.sub@,
            structural: self.structural@,
            operations: self.operations@,
        }
    }
}

/// The text of a class in `Class::display`: its package path, `/`, its name.
pub open spec fn class_text(packs: Seq<Pack>, c: ClassModel) -> Seq<char> {
    path_text(packs, c.path) + "/"@ + c.name
}

impl Class {
    /// A class with index `idx` in package path `path`, of type `typ`, named
    /// `name`; concrete unless `is_abstract` says so, an interface only if
    /// `is_interface` says so, and without literals, annotations, super or sub
    /// classes, structural features or operations.
    pub fn new(
        idx: idx::Class,
        path: Path,
        typ: &str,
        name: &str,
        inst_name: Option<&str>,
        is_abstract: Option<bool>,
        is_interface: Option<bool>,
    ) -> (res: Self)
        ensures
            res@ == (ClassModel {
                idx,
                path: path@,
                concrete: !(is_abstract == Some(true)),
                is_interface: is_interface == Some(true),
                typ: typ@,
                name: name@,
                inst_name: bounds::opt_str_view(inst_name),
                literals: Seq::empty(),
                annotations: Seq::empty(),
                sup: Set::empty(),
                sub: Set::empty(),
                structural: Seq::empty(),
                operations: Seq::empty(),
            }),
    {
        let concrete = match is_abstract {
            Some(a) => !a,
            None => true,
        };
        let is_interface = match is_interface {
            Some(i) => i,
            None => false,
        };
        let res = Self {
            idx,
            path,
            typ: string_from(typ),
            name: string_from(name),
            inst_name: opt_string_from(inst_name),
            concrete,
            is_interface,
            literals: Vec::with_capacity(7),
            annotations: Vec::with_capacity(3),
            sup: BTreeSet::new(),
            sub: BTreeSet::new(),
            structural: Vec::with_capacity(5),
            operations: Vec::with_capacity(7),
        };
        assert(res@.literals =~= Seq::<ELit>::empty());
        assert(res@.annotations =~= Seq::<Annot>::empty());
        assert(res@.structural =~= Seq::<StructuralFeature>::empty());
        assert(res@.operations =~= Seq::<Operation>::empty());
        res
    }

    /// Releases spare memory; the class is unchanged.
    pub fn shrink_to_fit(&mut self)
        ensures
            final(self)@ == old(self)@,
    {
        crate::text::shrink_vec(&mut self.literals);
        crate::text::shrink_vec(&mut self.annotations);
        crate::text::shrink_vec(&mut self.structural);
        crate::text::shrink_vec(&mut self.operations);
    }

    /// Whether the class is concrete.
    pub fn is_concrete(&self) -> (res: bool)
        ensures
            res == self@.concrete,
    {
        self.concrete
    }

    /// Whether the class is an interface.
    pub fn is_interface(&self) -> (res: bool)
        ensures
            res == self@.is_interface,
    {
        self.is_interface
    }

    /// Whether the class is abstract, that is not concrete.
    pub fn is_abstract(&self) -> (res: bool)
        ensures
            res == !self@.concrete,
    {
        !self.is_concrete()
    }

    /// The name of the class.
    pub fn name(&self) -> (res: &str)
        ensures
            res@ == self@.name,
    {
        self.name.as_str()
    }

    /// The instance name of the class, if any.
    pub fn inst_name(&self) -> (res: Option<&str>)
        ensures
            bounds::opt_str_view(res) == self@.inst_name,
    {
        opt_as_str(&self.inst_name)
    }

    /// Whether the class lives in the builtin package `builtin_pack`.
    pub fn is_builtin(&self, builtin_pack: idx::Pack) -> (res: bool)
        ensures
            res == (builtin_pack == self@.path.last()),
    {
        builtin_pack == self.path.last()
    }

    /// The enum literals of the class, in order.
    pub fn literals(&self) -> (res: &ELits)
        ensures
            res@ == self@.literals,
    {
        &self.literals
    }

    /// Appends an enum literal.
    pub fn add_literal(&mut self, lit: ELit)
        ensures
            final(self)@ == (ClassModel { literals: old(self)@.literals.push(lit), ..old(self)@ }),
    {
        self.literals.push(lit)
    }

    /// The operations of the class, in order.
    pub fn operations(&self) -> (res: &Operations)
        ensures
            res@ == self@.operations,
    {
        &self.operations
    }

    /// Appends an operation.
    pub fn add_operation(&mut self, op: Operation)
        ensures
            final(self)@ == (ClassModel {
                operations: old(self)@.operations.push(op),
                ..old(self)@
            }),
    {
        self.operations.push(op)
    }

    /// The type of the class.
    pub fn typ(&self) -> (res: &String)
        ensures
            res@ == self@.typ,
    {
        &self.typ
    }

    /// The super classes of the class.
    pub fn sup(&self) -> (res: &BTreeSet<idx::Class>)
        ensures
            res@ == self@.sup,
    {
        &self.sup
    }

    /// Adds a super class; tells whether it was not one already.
    pub fn add_sup(&mut self, sup: idx::Class) -> (res: bool)
        ensures
            res == !old(self)@.sup.contains(sup),
            final(self)@ == (ClassModel { sup: old(self)@.sup.insert(sup), ..old(self)@ }),
    {
        broadcast use vstd::laws_cmp::group_laws_cmp;

        self.sup.insert(sup)
    }

    /// The sub classes of the class.
    pub fn sub(&self) -> (res: &BTreeSet<idx::Class>)
        ensures
            res@ == self@.sub,
    {
        &self.sub
    }

    /// Adds a sub class; tells whether it was not one already.
    pub fn add_sub(&mut self, sub: idx::Class) -> (res: bool)
        ensures
            res == !old(self)@.sub.contains(sub),
            final(self)@ == (ClassModel { sub: old(self)@.sub.insert(sub), ..old(self)@ }),
    {
        broadcast use vstd::laws_cmp::group_laws_cmp;

        self.sub.insert(sub)
    }

    /// The structural features of the class, in order.
    pub fn structural(&self) -> (res: &[StructuralFeature])
        ensures
            res@ == self@.structural,
    {
        self.structural.as_slice()
    }

    /// Appends a structural feature.
    pub fn add_structural(&mut self, val: StructuralFeature)
        ensures
            final(self)@ == (ClassModel {
                structural: old(self)@.structural.push(val),
                ..old(self)@
            }),
    {
        self.structural.push(val)
    }

    /// The class as text: its package path, `/`, its name.
    pub fn display(&self, packs: &idx::PackMap<Pack>) -> (res: String)
        requires
            path_in(packs@, self@.path),
        ensures
            res@ == class_text(packs@, self@),
    {
        let mut res = self.path.display(packs);
        crate::text::push_str(&mut res, "/");
        crate::text::push_str(&mut res, self.name.as_str());
        res
    }
}

// ---------------------------------------------------------------------------
// Packages
// ---------------------------------------------------------------------------

/// The abstract value of a package.
pub struct PackModel {
    pub idx: idx::Pack,
    pub sup: Option<idx::Pack>,
    pub sub: Set<idx::Pack>,
    pub name: Seq<char>,
    pub classes: Set<idx::Class>,
    pub annotations: Seq<Annot>,
}

/// A package of a model.
#[derive(Debug, Clone)]
pub struct Pack {
    pub idx: idx::Pack,
    sup: Option<idx::Pack>,
    sub: BTreeSet<idx::Pack>,
    name: String,
    classes: BTreeSet<idx::Class>,
    annotations: Annots,
}

impl View for Pack {
    type V = PackModel;

    closed spec fn view(&self) -> PackModel {
        PackModel {
            idx: self.idx,
            sup: self.sup,
            sub: self.sub@,
            name: self.name@,
            classes: self.classes@,
            annotations: self.annotations@,
        }
    }
}

impl Pack {
    /// A package with index `idx`, named `name`, inside `sup` if given, and
    /// without sub packages, classes or annotations.
    pub fn with_capacity(idx: idx::Pack, name: &str, sup: Option<idx::Pack>) -> (res: Self)
        ensures
            res@ == (PackModel {
                idx,
                sup,
                sub: Set::empty(),
                name: name@,
                classes: Set::empty(),
                annotations: Seq::empty(),
            }),
    {
        let res = Self {
            idx,
            sup,
            sub: BTreeSet::new(),
            name: string_from(name),
            classes: BTreeSet::new(),
            annotations: Vec::with_capacity(3),
        };
        assert(res@.annotations =~= Seq::<Annot>::empty());
        res
    }

    /// A package with index `idx`, named `name`, inside `sup` if given, and
    /// without sub packages, classes or annotations.
    pub fn new(idx: idx::Pack, name: &str, sup: Option<idx::Pack>) -> (res: Self)
        ensures
            res@ == (PackModel {
                idx,
                sup,
                sub: Set::empty(),
                name: name@,
                classes: Set::empty(),
                annotations: Seq::empty(),
            }),
    {
        Self::with_capacity(idx, name, sup)
    }

    /// A package is empty if it has nothing but an index, a name, and
    /// optionally a `sup`.
    pub fn is_empty(&self) -> (res: bool)
        ensures
            res == (self@.sub.is_empty() && self@.classes.is_empty()
                && self@.annotations.len() == 0),
    {
        self.sub.is_empty() && self.classes.is_empty() && self.annotations.is_empty()
    }

    /// The absolute path of this package among the packages `packs`.
    pub fn path(&self, packs: &idx::PackMap<Pack>) -> (res: Path)
        requires
            has_root_path(packs@, self@.idx),
        ensures
            res@ == root_path(packs@, self@.idx),
    {
        Path::of_idx(packs, self.idx)
    }

    /// Whether this is the builtin package `builtin_pack`.
    pub fn is_builtin(&self, builtin_pack: idx::Pack) -> (res: bool)
        ensures
            res == (builtin_pack == self@.idx),
    {
        builtin_pack == self.idx
    }

    /// Whether this is the top package `top_pack`.
    pub fn is_top(&self, top_pack: idx::Pack) -> (res: bool)
        ensures
            res == (top_pack == self@.idx),
    {
        top_pack == self.idx
    }

    /// The package containing this one, if any.
    pub fn sup(&self) -> (res: Option<idx::Pack>)
        ensures
            res == self@.sup,
    {
        self.sup
    }

    /// Sets the package containing this one; returns the previous one.
    pub fn set_sup(&mut self, sup: idx::Pack) -> (res: Option<idx::Pack>)
        ensures
            res == old(self)@.sup,
            final(self)@ == (PackModel { sup: Some(sup), ..old(self)@ }),
    {
        let res = self.sup;
        self.sup = Some(sup);
        res
    }

    /// Whether `sup` is the package containing this one.
    pub fn has_sup(&mut self, sup: idx::Pack) -> (res: bool)
        ensures
            res == (old(self)@.sup == Some(sup)),
            final(self)@ == old(self)@,
    {
        match self.sup {
            Some(s) => s == sup,
            None => false,
        }
    }

    /// The packages directly inside this one.
    pub fn sub(&self) -> (res: &BTreeSet<idx::Pack>)
        ensures
            res@ == self@.sub,
    {
        &self.sub
    }

    /// Adds a package directly inside this one; tells whether it was not
    /// there already.
    pub fn add_sub(&mut self, sub: idx::Pack) -> (res: bool)
        ensures
            res == !old(self)@.sub.contains(sub),
            final(self)@ == (PackModel { sub: old(self)@.sub.insert(sub), ..old(self)@ }),
    {
        broadcast use vstd::laws_cmp::group_laws_cmp;

        self.sub.insert(sub)
    }

    /// Whether `sub` is directly inside this package.
    pub fn has_sub(&self, sub: idx::Pack) -> (res: bool)
        ensures
            res == self@.sub.contains(sub),
    {
        broadcast use vstd::laws_cmp::group_laws_cmp;
        broadcast use vstd::std_specs::btree::group_btree_axioms;

        self.sub.contains(&sub)
    }

    /// The name of the package.
    pub fn name(&self) -> (res: &str)
        ensures
            res@ == self@.name,
    {
        self.name.as_str()
    }

    /// The classes of the package.
    pub fn classes(&self) -> (res: &BTreeSet<idx::Class>)
        ensures
            res@ == self@.classes,
    {
        &self.classes
    }

    /// Adds a class to the package; tells whether it was not there already.
    pub fn classes_insert(&mut self, idx: idx::Class) -> (res: bool)
        ensures
            res == !old(self)@.classes.contains(idx),
            final(self)@ == (PackModel { classes: old(self)@.classes.insert(idx), ..old(self)@ }),
    {
        broadcast use vstd::laws_cmp::group_laws_cmp;

        self.classes.insert(idx)
    }
}

// ---------------------------------------------------------------------------
// Paths of packages among the packages of a model
// ---------------------------------------------------------------------------

/// Following the links to containing packages from package `i` among `packs`
/// stays among `packs` and reaches a top-level package in at most `fuel`
/// steps.
pub open spec fn reaches_root(packs: Seq<Pack>, i: idx::Pack, fuel: nat) -> bool
    decreases fuel,
{
    i < packs.len() && match packs[i as int]@.sup {
        None => true,
        Some(p) => fuel > 0 && reaches_root(packs, p, (fuel - 1) as nat),
    }
}

/// The packages containing package `i`, from the top-level one down to the
/// one directly containing `i`, found in at most `fuel` steps.
pub open spec fn ancestors(packs: Seq<Pack>, i: idx::Pack, fuel: nat) -> Seq<idx::Pack>
    decreases fuel,
{
    if i < packs.len() && fuel > 0 {
        match packs[i as int]@.sup {
            None => Seq::empty(),
            Some(p) => ancestors(packs, p, (fuel - 1) as nat).push(p),
        }
    } else {
        Seq::empty()
    }
}

/// Package `i` has a finite chain of containing packages among `packs`.
pub open spec fn has_root_path(packs: Seq<Pack>, i: idx::Pack) -> bool {
    exists|fuel: nat| reaches_root(packs, i, fuel)
}

/// The absolute path of package `i` among `packs`: its containing packages
/// from the top-level one down, then `i`.
pub open spec fn root_path(packs: Seq<Pack>, i: idx::Pack) -> Seq<idx::Pack> {
    ancestors(packs, i, choose|fuel: nat| reaches_root(packs, i, fuel)).push(i)
}

/// More fuel changes neither reaching a root nor the ancestors found.
proof fn lemma_ancestors_fuel(packs: Seq<Pack>, i: idx::Pack, f1: nat, f2: nat)
    requires
        reaches_root(packs, i, f1),
        f1 <= f2,
    ensures
        reaches_root(packs, i, f2),
        ancestors(packs, i, f1) == ancestors(packs, i, f2),
    decreases f1,
{
    match packs[i as int]@.sup {
        None => {},
        Some(p) => {
            lemma_ancestors_fuel(packs, p, (f1 - 1) as nat, (f2 - 1) as nat);
        },
    }
}

/// The ancestors found with any sufficient fuel are those of the root path.
proof fn lemma_root_path(packs: Seq<Pack>, i: idx::Pack, f: nat)
    requires
        reaches_root(packs, i, f),
    ensures
        root_path(packs, i) == ancestors(packs, i, f).push(i),
{
    let g = choose|fuel: nat| reaches_root(packs, i, fuel);
    assert(reaches_root(packs, i, g));
    if f <= g {
        lemma_ancestors_fuel(packs, i, f, g);
    } else {
        lemma_ancestors_fuel(packs, i, g, f);
    }
}

/// Every package of `p` is among `packs`.
pub open spec fn path_in(packs: Seq<Pack>, p: Seq<idx::Pack>) -> bool {
    forall|k: int| 0 <= k < p.len() ==> #[trigger] p[k] < packs.len()
}

/// The names of the packages `items`, each followed by `::`.
pub open spec fn names_with_seps(packs: Seq<Pack>, items: Seq<idx::Pack>) -> Seq<char>
    decreases items.len(),
{
    if items.len() == 0 {
        Seq::empty()
    } else {
        names_with_seps(packs, items.drop_last()) + packs[items.last() as int]@.name + "::"@
    }
}

/// The text of a package path: the names of its packages separated by `::`.
pub open spec fn path_text(packs: Seq<Pack>, p: Seq<idx::Pack>) -> Seq<char> {
    names_with_seps(packs, p.drop_last()) + packs[p.last() as int]@.name
}

impl Path {
    /// Constructs the path of package `idx` among the packages `packs`: the
    /// packages containing it, from the top-level one down, then `idx`.
    pub fn of_idx(packs: &idx::PackMap<Pack>, idx: idx::Pack) -> (res: Self)
        requires
            has_root_path(packs@, idx),
        ensures
            res@ == root_path(packs@, idx),
    {
        let ghost f0 = choose|fuel: nat| reaches_root(packs@, idx, fuel);
        let ghost mut f = f0;
        let mut rev_path: Vec<idx::Pack> = Vec::new();
        let mut current = idx;
        loop
            invariant
                reaches_root(packs@, current, f),
                reaches_root(packs@, idx, f0),
                ancestors(packs@, idx, f0) == ancestors(packs@, current, f) + rev_path@.reverse(),
            ensures
                current < packs@.len(),
                packs@[current as int]@.sup is None,
            decreases f,
        {
            match packs[current].sup() {
                Some(parent) => {
                    proof {
                        assert(ancestors(packs@, current, f) == ancestors(
                            packs@,
                            parent,
                            (f - 1) as nat,
                        ).push(parent));
                        assert(rev_path@.push(parent).reverse() =~= seq![parent]
                            + rev_path@.reverse());
                        assert(ancestors(packs@, parent, (f - 1) as nat).push(parent)
                            + rev_path@.reverse() =~= ancestors(packs@, parent, (f - 1) as nat)
                            + rev_path@.push(parent).reverse());
                        f = (f - 1) as nat;
                    }
                    rev_path.push(parent);
                    current = parent;
                },
                None => {
                    break;
                },
            }
        }
        assert(ancestors(packs@, current, f) =~= Seq::<idx::Pack>::empty());
        let mut path: Vec<idx::Pack> = Vec::new();
        let mut i = rev_path.len();
        while i > 0
            invariant
                i <= rev_path@.len(),
                path@ =~= rev_path@.reverse().subrange(0, rev_path@.len() - i),
            decreases i,
        {
            i -= 1;
            path.push(rev_path[i]);
            assert(path@ =~= rev_path@.reverse().subrange(0, rev_path@.len() - i));
        }
        proof {
            assert(rev_path@.reverse().subrange(0, rev_path@.len() as int) =~= rev_path@.reverse());
            lemma_root_path(packs@, idx, f0);
        }
        let res = Self { last: idx, path };
        assert(res@ =~= root_path(packs@, idx));
        res
    }

    /// The path as text: the names of its packages separated by `::`.
    pub fn display(&self, packs: &idx::PackMap<Pack>) -> (res: String)
        requires
            path_in(packs@, self@),
        ensures
            res@ == path_text(packs@, self@),
    {
        let mut res = String::new();
        let mut i: usize = 0;
        while i < self.path.len()
            invariant
                i <= self.path@.len(),
                path_in(packs@, self@),
                self@ == self.path@.push(self.last),
                res@ == names_with_seps(packs@, self.path@.subrange(0, i as int)),
            decreases self.path@.len() - i,
        {
            let p = self.path[i];
            assert(self@[i as int] == p);
            crate::text::push_str(&mut res, packs[p].name());
            crate::text::push_str(&mut res, "::");
            proof {
                let q = self.path@.subrange(0, i + 1);
                assert(q.drop_last() =~= self.path@.subrange(0, i as int));
            }
            i += 1;
        }
        assert(self.path@.subrange(0, self.path@.len() as int) =~= self.path@);
        assert(self@.drop_last() =~= self.path@);
        assert(self@[self.path@.len() as int] == self.last);
        crate::text::push_str(&mut res, packs[self.last].name());
        res
    }

    /// Splits a relative `eType` path `#//p1/.../pn/C` into the names of the
    /// packages `p1` to `pn` and the class name `C`, which must be a valid
    /// identifier. Any other `eType` path is refused. Resolving the names
    /// among the packages and classes of a model is up to the model's context.
    pub fn parse_relative_etype(s: &str) -> (res: Res<(Vec<String>, String)>)
        ensures
            !has_prefix(s@, relative_etype_prefix()) ==> (res matches Err(
                Error::UnsupportedEType { etype },
            ) && etype@ == s@),
            has_prefix(s@, relative_etype_prefix()) ==> ({
                let parts = relative_etype_parts(s@);
                if spec_is_valid_ident(parts.last()) {
                    &&& res matches Ok((packs, class))
                    &&& class@ == parts.last()
                    &&& packs@.len() == parts.len() - 1
                    &&& forall|k: int| 0 <= k < packs@.len() ==> #[trigger] packs@[k]@ == parts[k]
                } else {
                    res matches Err(Error::IllegalIdent { kind: IdentKind::EType, ident }) && ident@
                        == parts.last()
                }
            }),
    {
        let v = crate::text::chars_of(s);
        let (ok, plen) = crate::text::starts_with_str(&v, "#//");
        if !ok {
            return Err(Error::UnsupportedEType { etype: string_from(s) });
        }
        let mut parts = crate::text::split_range(&v, plen, '/');
        proof {
            crate::text::lemma_split_nonempty(v@.subrange(plen as int, v@.len() as int), '/');
        }
        let ghost all = parts@;
        let last = match parts.pop() {
            Some(last) => last,
            None => {
                return Err(Error::UnsupportedEType { etype: string_from(s) });
            },
        };
        assert(last@ == relative_etype_parts(s@).last());
        if !crate::text::is_valid_ident(last.as_str()) {
            return Err(Error::IllegalIdent { kind: IdentKind::EType, ident: last });
        }
        assert forall|k: int| 0 <= k < parts@.len() implies #[trigger] parts@[k]@
            == relative_etype_parts(s@)[k] by {
            assert(parts@[k] == all[k]);
        }
        Ok((parts, last))
    }

    /// The path as text followed by `::`.
    pub fn display_sep(&self, packs: &idx::PackMap<Pack>) -> (res: String)
        requires
            path_in(packs@, self@),
        ensures
            res@ == path_text(packs@, self@) + "::"@,
    {
        let mut res = self.display(packs);
        crate::text::push_str(&mut res, "::");
        res
    }
}

/// The start of a relative `eType` path.
pub open spec fn relative_etype_prefix() -> Seq<char> {
    "#//"@
}

/// The names in a relative `eType` path, between its `/` separators.
pub open spec fn relative_etype_parts(s: Seq<char>) -> Seq<Seq<char>> {
    split(s.subrange(relative_etype_prefix().len() as int, s.len() as int), '/')
}

/// The path that `Path::of_idx` builds starts with a top-level package, ends
/// with the package it was built for, and each package in it directly
/// contains the next one.
pub proof fn law_of_idx_is_parent_chain(packs: Seq<Pack>, i: idx::Pack)
    requires
        has_root_path(packs, i),
    ensures
        root_path(packs, i).last() == i,
        path_in(packs, root_path(packs, i)),
        packs[root_path(packs, i)[0] as int]@.sup is None,
        forall|k: int|
            0 <= k < root_path(packs, i).len() - 1 ==> packs[root_path(packs, i)[k + 1] as int]@.sup
                == Some(#[trigger] root_path(packs, i)[k]),
{
    let f = choose|fuel: nat| reaches_root(packs, i, fuel);
    lemma_root_path(packs, i, f);
    lemma_parent_chain(packs, i, f);
}

proof fn lemma_parent_chain(packs: Seq<Pack>, i: idx::Pack, f: nat)
    requires
        reaches_root(packs, i, f),
    ensures
        ({
            let p = ancestors(packs, i, f).push(i);
            &&& path_in(packs, p)
            &&& packs[p[0] as int]@.sup is None
            &&& forall|k: int|
                0 <= k < p.len() - 1 ==> packs[p[k + 1] as int]@.sup == Some(#[trigger] p[k])
        }),
    decreases f,
{
    let p = ancestors(packs, i, f).push(i);
    match packs[i as int]@.sup {
        None => {
            assert(p =~= seq![i]);
        },
        Some(q) => {
            lemma_parent_chain(packs, q, (f - 1) as nat);
            let pq = ancestors(packs, q, (f - 1) as nat).push(q);
            assert(p =~= pq.push(i));
            assert forall|k: int| 0 <= k < p.len() - 1 implies packs[p[k + 1] as int]@.sup
                == Some(#[trigger] p[k]) by {
                if k < pq.len() - 1 {
                    assert(p[k] == pq[k] && p[k + 1] == pq[k + 1]);
                }
            }
        },
    }
}


// ---------------------------------------------------------------------------
// Access to annotations and structural features
// ---------------------------------------------------------------------------

/// Things that carry annotations.
pub trait HasAnnots {
    /// The annotations carried.
    spec fn annots_view(&self) -> Seq<Annot>;

    /// The annotations carried, in order.
    fn annotations(&self) -> (res: &Annots)
        ensures
            res@ == self.annots_view(),
    ;

    /// The annotations carried, for modification.
    fn annotations_mut(&mut self) -> (res: &mut Annots)
        ensures
            res@ == old(self).annots_view(),
            final(self).annots_view() == final(res)@,
    ;
}

/// Things that carry structural features.
pub trait HasStructural {
    /// The structural features carried.
    spec fn structural_view(&self) -> Seq<StructuralFeature>;

    /// The structural features carried, in order.
    fn structural(&self) -> (res: &[StructuralFeature])
        ensures
            res@ == self.structural_view(),
    ;

    /// The structural features carried, for modification.
    fn structural_mut(&mut self) -> (res: &mut Vec<StructuralFeature>)
        ensures
            res@ == old(self).structural_view(),
            final(self).structural_view() == final(res)@,
    ;
}

impl HasAnnots for ELit {
    open spec fn annots_view(&self) -> Seq<Annot> {
        self@.annots
    }

    fn annotations(&self) -> (res: &Annots) {
        &self.annots
    }

    fn annotations_mut(&mut self) -> (res: &mut Annots)
        ensures
            final(self)@ == (ELitModel { annots: final(res)@, ..old(self)@ }),
    {
        &mut self.annots
    }
}

impl HasAnnots for Operation {
    open spec fn annots_view(&self) -> Seq<Annot> {
        self@.annotations
    }

    fn annotations(&self) -> (res: &Annots) {
        &self.annotations
    }

    fn annotations_mut(&mut self) -> (res: &mut Annots)
        ensures
            final(self)@ == (OperationModel { annotations: final(res)@, ..old(self)@ }),
    {
        &mut self.annotations
    }
}

impl HasAnnots for Class {
    open spec fn annots_view(&self) -> Seq<Annot> {
        self@.annotations
    }

    fn annotations(&self) -> (res: &Annots) {
        &self.annotations
    }

    fn annotations_mut(&mut self) -> (res: &mut Annots)
        ensures
            final(self)@ == (ClassModel { annotations: final(res)@, ..old(self)@ }),
    {
        &mut self.annotations
    }
}

impl HasStructural for Class {
    open spec fn structural_view(&self) -> Seq<StructuralFeature> {
        self@.structural
    }

    fn structural(&self) -> (res: &[StructuralFeature]) {
        self.structural.as_slice()
    }

    fn structural_mut(&mut self) -> (res: &mut Vec<StructuralFeature>)
        ensures
            final(self)@ == (ClassModel { structural: final(res)@, ..old(self)@ }),
    {
        &mut self.structural
    }
}

impl HasAnnots for Pack {
    open spec fn annots_view(&self) -> Seq<Annot> {
        self@.annotations
    }

    fn annotations(&self) -> (res: &Annots) {
        &self.annotations
    }

    fn annotations_mut(&mut self) -> (res: &mut Annots)
        ensures
            final(self)@ == (PackModel { annotations: final(res)@, ..old(self)@ }),
    {
        &mut self.annotations
    }
}

impl HasAnnots for StructuralFeature {
    open spec fn annots_view(&self) -> Seq<Annot> {
        self.annotations@
    }

    fn annotations(&self) -> (res: &Annots) {
        &self.annotations
    }

    fn annotations_mut(&mut self) -> (res: &mut Annots)
        ensures
            *final(self) == (StructuralFeature { annotations: *final(res), ..*old(self) }),
    {
        &mut self.annotations
    }
}

} // verus!
