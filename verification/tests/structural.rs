use lib::error::{BoundSide, Error, IdentKind};
use lib::repr::bounds::Bounds;
use lib::repr::structural::Typ;
use lib::repr::{HasAnnots, StructuralFeature};

fn pair(b: &Bounds) -> (usize, Option<usize>) {
    (b.lbound, b.ubound)
}

#[test]
fn kinds() {
    assert_eq!(Typ::from_xsi_type("ecore:EAttribute"), Ok(Typ::EAttribute));
    assert_eq!(Typ::from_xsi_type("ecore:EReference"), Ok(Typ::EReference));
    assert_eq!(
        Typ::from_xsi_type("ecore:EOperation"),
        Err(Error::UnexpectedXsiType { value: "ecore:EOperation".to_string() })
    );
    assert_eq!(Typ::EAttribute.to_string(), "EAttribute");
    assert_eq!(Typ::EReference.to_string(), "EReference");
    for t in [Typ::EAttribute, Typ::EReference] {
        assert_eq!(Typ::from_xsi_type(&format!("ecore:{}", t.to_string())), Ok(t));
    }
}

#[test]
fn default_bounds() {
    assert_eq!(pair(&Typ::EReference.parse_bounds(None, None).unwrap()), (0, Some(1)));
    assert_eq!(pair(&Typ::EAttribute.parse_bounds(None, None).unwrap()), (1, Some(1)));
    assert_eq!(pair(&Typ::EReference.parse_bounds(None, Some("-1")).unwrap()), (0, None));
    assert_eq!(pair(&Typ::EAttribute.parse_bounds(Some("2"), None).unwrap()), (2, Some(2)));
    assert_eq!(
        Typ::EAttribute.parse_bounds(None, Some("0")).unwrap_err(),
        Error::IllegalBounds { lbound: 1, ubound: 0 }
    );
    assert_eq!(
        Typ::EReference.parse_bounds(Some("a"), None).unwrap_err(),
        Error::UnexpectedBound { side: BoundSide::Lower, found: "a".to_string() }
    );
}

#[test]
fn features() {
    let b = Bounds::new(0, Some(1)).unwrap();
    let mut f = StructuralFeature::new("owner", Typ::EReference, 3, b).unwrap();
    assert_eq!(f.name, "owner");
    assert_eq!(f.kind, Typ::EReference);
    assert_eq!(f.typ, 3);
    assert!(!f.containment && !f.is_id && !f.ordered);
    assert!(f.annotations().is_empty());
    f.set_containment(true);
    assert!(f.containment);
    f.try_set_containment(None);
    assert!(f.containment);
    f.try_set_containment(Some(false));
    assert!(!f.containment);
    f.set_is_id(true);
    assert!(f.is_id);
    f.try_set_is_id(None);
    assert!(f.is_id);
    f.try_set_is_id(Some(false));
    assert!(!f.is_id);
    assert_eq!(
        StructuralFeature::new("0bad", Typ::EAttribute, 1, b).unwrap_err(),
        Error::IllegalIdent { kind: IdentKind::StructuralFeature, ident: "0bad".to_string() }
    );
}
