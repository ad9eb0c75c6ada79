use lib::text::{is_valid_ident, parse_usize};

#[test]
fn decimal_reading_matches_std() {
    for s in ["0", "12", "+12", "", "+", "-", "-0", "1_0", " 1", "1 ", "00", "18446744073709551615", "18446744073709551616", "abc"] {
        assert_eq!(parse_usize(s), s.parse::<usize>().ok(), "on {:?}", s);
    }
}

#[test]
fn decimal_roundtrip() {
    for n in [0usize, 1, 9, 10, 99, 100, 12345, usize::MAX] {
        assert_eq!(parse_usize(&n.to_string()), Some(n));
    }
}

#[test]
fn identifiers() {
    assert!(is_valid_ident("name"));
    assert!(is_valid_ident("_x9"));
    assert!(is_valid_ident("EString"));
    assert!(!is_valid_ident(""));
    assert!(!is_valid_ident("9lives"));
    assert!(!is_valid_ident("with space"));
    assert!(!is_valid_ident("dash-ed"));
}
