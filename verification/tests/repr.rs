use lib::error::{Error, IdentKind};
use lib::repr::bounds::Bounds;
use lib::repr::structural::Typ as FeatureKind;
use lib::repr::{Annot, Class, ELit, HasAnnots, HasStructural, Operation, Pack, Param, Path, StructuralFeature};

#[test]
fn annot_insert_then_get() {
    let mut a = Annot::with_capacity("http://src", 2);
    assert_eq!(a.source(), "http://src");
    assert!(a.details().is_empty());
    assert_eq!(a.insert("k", "v"), Ok(()));
    assert_eq!(a.insert("k2", "v2"), Ok(()));
    assert_eq!(a.get("k").map(|s| s.as_str()), Some("v"));
    assert_eq!(a.get("k2").map(|s| s.as_str()), Some("v2"));
    assert_eq!(a.get("k3"), None);
    assert!(a.contains_key("k"));
    assert!(!a.contains_key("v"));
    assert_eq!(a.details().len(), 2);
    assert_eq!(a.len(), 2);
}

#[test]
fn annot_insert_refuses_overwrite() {
    let mut a = Annot::with_capacity("src", 0);
    a.insert("key", "old").unwrap();
    let err = a.insert("key", "new").unwrap_err();
    assert_eq!(
        err,
        Error::Redefinition { key: "key".to_string(), old_val: "old".to_string(), new_val: "new".to_string() }
    );
    assert_eq!(a.get("key").map(|s| s.as_str()), Some("old"));
    assert_eq!(a.details().len(), 1);
}

#[test]
fn annot_clone_and_shrink() {
    let mut a = Annot::with_capacity("src", 10);
    a.insert("a", "1").unwrap();
    a.insert("b", "2").unwrap();
    a.shrink_to_fit();
    assert_eq!(a.details().len(), 2);
    assert_eq!(a.get("b").map(|s| s.as_str()), Some("2"));
    let b = a.clone();
    assert_eq!(b.source(), "src");
    assert_eq!(b.get("a").map(|s| s.as_str()), Some("1"));
}

#[test]
fn path_push_pop() {
    let mut p = Path::new(4);
    assert_eq!(p.len(), 1);
    assert_eq!(p.pref_len(), 0);
    assert_eq!(p.first(), 4);
    assert_eq!(p.last(), 4);
    assert_eq!(p.pop(), None);
    assert_eq!(p.iter(), vec![4]);
    p.push(7);
    p.push(9);
    assert_eq!(p.iter(), vec![4, 7, 9]);
    assert_eq!(p.iter_pref(), vec![4, 7]);
    assert_eq!(p.len(), 3);
    assert_eq!(p.first(), 4);
    assert_eq!(p.last(), 9);
    assert_eq!(p.pop(), Some(9));
    assert_eq!(p.iter(), vec![4, 7]);
    p.push(1);
    assert_eq!(p.pop(), Some(1));
    assert_eq!(p.iter(), vec![4, 7]);
}

fn packs() -> Vec<Pack> {
    // 0: top, 1: top/a, 2: top/a/b, 3: other
    vec![
        Pack::new(0, "top", None),
        Pack::new(1, "a", Some(0)),
        Pack::with_capacity(2, "b", Some(1)),
        Pack::new(3, "other", None),
    ]
}

#[test]
fn path_of_idx_and_display() {
    let packs = packs();
    let p = Path::of_idx(&packs, 2);
    assert_eq!(p.iter(), vec![0, 1, 2]);
    assert_eq!(p.display(&packs), "top::a::b");
    assert_eq!(p.display_sep(&packs), "top::a::b::");
    assert_eq!(Path::of_idx(&packs, 3).iter(), vec![3]);
    assert_eq!(Path::of_idx(&packs, 3).display(&packs), "other");
    assert_eq!(packs[1].path(&packs).iter(), vec![0, 1]);
}

#[test]
fn relative_etype() {
    let (packs, class) = Path::parse_relative_etype("#//a/b/Class").unwrap();
    assert_eq!(packs, vec!["a".to_string(), "b".to_string()]);
    assert_eq!(class, "Class");
    let (packs, class) = Path::parse_relative_etype("#//Top").unwrap();
    assert!(packs.is_empty());
    assert_eq!(class, "Top");
    let (packs, _) = Path::parse_relative_etype("#//a//C").unwrap();
    assert_eq!(packs, vec!["a".to_string(), "".to_string()]);
    assert_eq!(
        Path::parse_relative_etype("#//a/").unwrap_err(),
        Error::IllegalIdent { kind: IdentKind::EType, ident: "".to_string() }
    );
    assert_eq!(
        Path::parse_relative_etype("#//").unwrap_err(),
        Error::IllegalIdent { kind: IdentKind::EType, ident: "".to_string() }
    );
    assert_eq!(
        Path::parse_relative_etype("#//a/1x").unwrap_err(),
        Error::IllegalIdent { kind: IdentKind::EType, ident: "1x".to_string() }
    );
    assert_eq!(
        Path::parse_relative_etype("http://x").unwrap_err(),
        Error::UnsupportedEType { etype: "http://x".to_string() }
    );
}

#[test]
fn elit() {
    let l = ELit::new("RED", Some("1"));
    assert_eq!(l.name(), "RED");
    assert_eq!(l.value(), Some("1"));
    assert!(l.annotations().is_empty());
    let mut l = ELit::new_name("GREEN");
    assert_eq!(l.name(), "GREEN");
    assert_eq!(l.value(), None);
    l.annotations_mut().push(Annot::with_capacity("s", 0));
    assert_eq!(l.annotations().len(), 1);
}

#[test]
fn param_and_operation() {
    let b = Bounds::new(0, Some(1)).unwrap();
    let mut p = Param::new("x", b, 3);
    assert_eq!(p.name(), "x");
    assert_eq!(p.bounds().lbound, 0);
    assert_eq!(p.typ(), 3);
    assert!(!p.ordered);
    p.ordered = true;
    let mut op = Operation::new("run", Some(2), Bounds::default_operation().unwrap()).unwrap();
    assert_eq!(op.name(), "run");
    assert_eq!(op.typ(), Some(2));
    assert_eq!(op.bounds().ubound, Some(1));
    assert!(op.parameters().is_empty());
    op.add_parameter(p);
    assert_eq!(op.parameters().len(), 1);
    assert!(op.parameters()[0].ordered);
    let op2 = Operation::with_capacity("f", None, 8, b).unwrap();
    assert_eq!(op2.typ(), None);
    assert_eq!(
        Operation::new("not valid", None, b).unwrap_err(),
        Error::IllegalIdent { kind: IdentKind::Operation, ident: "not valid".to_string() }
    );
}

#[test]
fn class_basics() {
    let packs = packs();
    let mut c = Class::new(5, Path::of_idx(&packs, 1), "ecore:EClass", "Thing", Some("java.Thing"), None, Some(true));
    assert_eq!(c.idx, 5);
    assert!(c.is_concrete());
    assert!(!c.is_abstract());
    assert!(c.is_interface());
    assert_eq!(c.name(), "Thing");
    assert_eq!(c.typ(), "ecore:EClass");
    assert_eq!(c.inst_name(), Some("java.Thing"));
    assert!(c.is_builtin(1));
    assert!(!c.is_builtin(0));
    assert_eq!(c.display(&packs), "top::a/Thing");
    assert!(c.add_sup(2));
    assert!(!c.add_sup(2));
    assert!(c.add_sup(1));
    assert_eq!(c.sup().iter().copied().collect::<Vec<_>>(), vec![1, 2]);
    assert!(c.add_sub(8));
    assert!(c.sub().contains(&8));
    c.add_literal(ELit::new_name("A"));
    assert_eq!(c.literals().len(), 1);
    let b = Bounds::new(0, None).unwrap();
    c.add_operation(Operation::new("op", None, b).unwrap());
    assert_eq!(c.operations().len(), 1);
    c.add_structural(StructuralFeature::new("f", FeatureKind::EAttribute, 4, b).unwrap());
    assert_eq!(Class::structural(&c).len(), 1);
    assert_eq!(HasStructural::structural(&c).len(), 1);
    c.structural_mut().clear();
    assert!(Class::structural(&c).is_empty());
    c.annotations_mut().push(Annot::with_capacity("s", 0));
    c.shrink_to_fit();
    assert_eq!(c.annotations().len(), 1);
    assert_eq!(c.literals().len(), 1);
    let abs = Class::new(6, Path::new(0), "t", "Abs", None, Some(true), None);
    assert!(abs.is_abstract());
    assert!(!abs.is_interface());
    assert_eq!(abs.inst_name(), None);
}

#[test]
fn pack_basics() {
    let mut p = Pack::new(1, "a", None);
    assert!(p.is_empty());
    assert_eq!(p.name(), "a");
    assert_eq!(p.sup(), None);
    assert_eq!(p.set_sup(0), None);
    assert_eq!(p.set_sup(2), Some(0));
    assert!(p.has_sup(2));
    assert!(!p.has_sup(0));
    assert!(p.add_sub(4));
    assert!(!p.add_sub(4));
    assert!(p.has_sub(4));
    assert!(!p.has_sub(5));
    assert!(!p.is_empty());
    assert!(p.classes_insert(9));
    assert!(!p.classes_insert(9));
    assert_eq!(p.classes().len(), 1);
    assert_eq!(p.sub().len(), 1);
    assert!(p.is_builtin(1));
    assert!(!p.is_top(0));
    assert!(p.is_top(1));
    let mut q = Pack::new(3, "q", None);
    q.annotations_mut().push(Annot::with_capacity("s", 0));
    assert!(!q.is_empty());
}
