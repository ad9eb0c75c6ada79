use lib::error::{BoundSide, Error};
use lib::repr::bounds::{BoundedColl, Bounds};

fn bounds(l: usize, u: Option<usize>) -> (usize, Option<usize>) {
    (l, u)
}

fn pair(b: &Bounds) -> (usize, Option<usize>) {
    (b.lbound, b.ubound)
}

#[test]
fn new_accepts_ordered_bounds() {
    assert_eq!(pair(&Bounds::new(2, Some(5)).unwrap()), bounds(2, Some(5)));
    assert_eq!(pair(&Bounds::new(3, Some(3)).unwrap()), bounds(3, Some(3)));
    assert_eq!(pair(&Bounds::new(7, None).unwrap()), bounds(7, None));
}

#[test]
fn new_refuses_upper_below_lower() {
    assert_eq!(Bounds::new(5, Some(2)).unwrap_err(), Error::IllegalBounds { lbound: 5, ubound: 2 });
}

#[test]
fn default_operation_is_zero_one() {
    assert_eq!(pair(&Bounds::default_operation().unwrap()), bounds(0, Some(1)));
}

#[test]
fn from_str_defaults() {
    assert_eq!(pair(&Bounds::from_str(None, None).unwrap()), bounds(1, Some(1)));
    assert_eq!(pair(&Bounds::from_str(Some("0"), None).unwrap()), bounds(0, Some(1)));
    assert_eq!(pair(&Bounds::from_str(Some("3"), None).unwrap()), bounds(3, Some(3)));
    assert_eq!(pair(&Bounds::from_str(None, Some("-1")).unwrap()), bounds(1, None));
}

#[test]
fn from_str_explicit() {
    assert_eq!(pair(&Bounds::from_str(Some("2"), Some("5")).unwrap()), bounds(2, Some(5)));
    assert_eq!(pair(&Bounds::from_str(Some("0"), Some("-1")).unwrap()), bounds(0, None));
    assert_eq!(pair(&Bounds::from_str(Some("+4"), None).unwrap()), bounds(4, Some(4)));
    assert_eq!(pair(&Bounds::from_str(Some("007"), Some("10")).unwrap()), bounds(7, Some(10)));
}

#[test]
fn from_str_errors() {
    assert_eq!(
        Bounds::from_str(Some("5"), Some("2")).unwrap_err(),
        Error::IllegalBounds { lbound: 5, ubound: 2 }
    );
    assert_eq!(
        Bounds::from_str(Some("x"), Some("y")).unwrap_err(),
        Error::UnexpectedBound { side: BoundSide::Lower, found: "x".to_string() }
    );
    assert_eq!(
        Bounds::from_str(Some("1"), Some("y")).unwrap_err(),
        Error::UnexpectedBound { side: BoundSide::Upper, found: "y".to_string() }
    );
    assert_eq!(
        Bounds::from_str(Some("-1"), None).unwrap_err(),
        Error::UnexpectedBound { side: BoundSide::Lower, found: "-1".to_string() }
    );
    assert_eq!(
        Bounds::from_str(Some(""), None).unwrap_err(),
        Error::UnexpectedBound { side: BoundSide::Lower, found: "".to_string() }
    );
    assert_eq!(
        Bounds::from_str(Some("+"), None).unwrap_err(),
        Error::UnexpectedBound { side: BoundSide::Lower, found: "+".to_string() }
    );
    assert_eq!(
        Bounds::from_str(None, Some("-2")).unwrap_err(),
        Error::UnexpectedBound { side: BoundSide::Upper, found: "-2".to_string() }
    );
    assert_eq!(
        Bounds::from_str(Some(" 1"), None).unwrap_err(),
        Error::UnexpectedBound { side: BoundSide::Lower, found: " 1".to_string() }
    );
    let too_big = "99999999999999999999999999";
    assert_eq!(
        Bounds::from_str(Some(too_big), None).unwrap_err(),
        Error::UnexpectedBound { side: BoundSide::Lower, found: too_big.to_string() }
    );
}

#[test]
fn from_str_max_value() {
    let max = usize::MAX.to_string();
    assert_eq!(pair(&Bounds::from_str(Some(&max), None).unwrap()), bounds(usize::MAX, Some(usize::MAX)));
}

#[test]
fn get_exact_and_is_empty() {
    let b = Bounds::new(2, Some(2)).unwrap();
    assert_eq!(b.get_exact(), Some(2));
    assert!(!b.is_empty());
    let b = Bounds::new(0, Some(0)).unwrap();
    assert_eq!(b.get_exact(), Some(0));
    assert!(b.is_empty());
    let b = Bounds::new(0, Some(1)).unwrap();
    assert_eq!(b.get_exact(), None);
    assert!(!b.is_empty());
    let b = Bounds::new(0, None).unwrap();
    assert_eq!(b.get_exact(), None);
    assert!(!b.is_empty());
}

fn coll(c: &BoundedColl) -> (usize, bool, Option<usize>) {
    (c.pref, c.tail, c.tail_bound)
}

#[test]
fn to_coll_shapes() {
    assert_eq!(coll(&Bounds::new(3, Some(3)).unwrap().to_coll()), (3, false, None));
    assert_eq!(coll(&Bounds::new(1, Some(4)).unwrap().to_coll()), (1, true, Some(4)));
    assert_eq!(coll(&Bounds::new(0, None).unwrap().to_coll()), (0, true, None));
}

#[test]
fn bounded_coll_builders() {
    let c = BoundedColl::exact(5);
    assert_eq!(coll(&c), (5, false, None));
    assert_eq!(coll(&c.with_tail(Some(9))), (5, true, Some(9)));
    assert_eq!(coll(&c.with_tail(None)), (5, true, None));
}

#[test]
fn bounds_text() {
    assert_eq!(Bounds::new(1, Some(2)).unwrap().to_string(), "[1, 2]");
    assert_eq!(Bounds::new(0, None).unwrap().to_string(), "[0, ∞[");
    assert_eq!(Bounds::new(10, Some(305)).unwrap().to_string(), "[10, 305]");
}

#[test]
fn bounds_text_reads_back() {
    for (l, u) in [(0usize, Some(0usize)), (1, Some(1)), (2, Some(17)), (3, None), (0, None), (usize::MAX, None)] {
        let b = Bounds::new(l, u).unwrap();
        let ub = match u {
            Some(u) => u.to_string(),
            None => "-1".to_string(),
        };
        let back = Bounds::from_str(Some(&l.to_string()), Some(&ub)).unwrap();
        assert_eq!(pair(&back), pair(&b));
    }
}
