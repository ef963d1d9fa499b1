use elm_json::semver::{Bound, Constraint, Range, Version};
use elm_json::text::{decimal_text, parse_number, split};

fn v(major: u64, minor: u64, patch: u64) -> Version {
    Version::new(major, minor, patch)
}

#[test]
fn splits_at_every_separator() {
    assert_eq!(split("a/b", '/'), vec!["a", "b"]);
    assert_eq!(split("", '/'), vec![""]);
    assert_eq!(split("//", '/'), vec!["", "", ""]);
    assert_eq!(split("é.ü", '.'), vec!["é", "ü"]);
}

#[test]
fn numbers_read_back() {
    for n in [0, 7, 10, 99, 100, 123_456_789, u64::MAX] {
        assert_eq!(decimal_text(n), n.to_string());
        assert_eq!(parse_number(&decimal_text(n)), Some(n));
    }
    assert_eq!(parse_number("18446744073709551615"), Some(u64::MAX));
    assert_eq!(parse_number("18446744073709551616"), None);
    assert_eq!(parse_number("99999999999999999999999"), None);
    assert_eq!(parse_number("007"), Some(7));
    assert_eq!(parse_number(""), None);
    assert_eq!(parse_number("1a"), None);
    assert_eq!(parse_number("-1"), None);
}

#[test]
fn versions_read_back() {
    assert_eq!(Version::parse("1.0.5"), Some(v(1, 0, 5)));
    assert_eq!(v(0, 19, 1).to_text(), "0.19.1");
    assert_eq!(Version::parse(&v(12, 0, 345).to_text()), Some(v(12, 0, 345)));
    assert_eq!(Version::parse("1.0"), None);
    assert_eq!(Version::parse("1.0.0.0"), None);
    assert_eq!(Version::parse("1..0"), None);
    assert_eq!(Version::parse("1.0.x"), None);
}

#[test]
fn versions_are_ordered() {
    assert!(v(1, 9, 9).is_before(&v(2, 0, 0)));
    assert!(v(1, 1, 9).is_before(&v(1, 2, 0)));
    assert!(v(1, 1, 1).is_before(&v(1, 1, 2)));
    assert!(!v(1, 1, 1).is_before(&v(1, 1, 1)));
    assert!(!v(2, 0, 0).is_before(&v(1, 9, 9)));
    assert!(v(1, 9, 9) < v(2, 0, 0));
}

#[test]
fn ranges_read_back() {
    let range = Range::new(Bound::Inclusive(v(1, 0, 0)), Bound::Exclusive(v(2, 0, 0)));
    assert_eq!(Range::parse("1.0.0 <= v < 2.0.0"), Some(range));
    assert_eq!(range.to_text(), "1.0.0 <= v < 2.0.0");
    let other = Range::new(Bound::Exclusive(v(1, 0, 0)), Bound::Inclusive(v(1, 5, 0)));
    assert_eq!(Range::parse(&other.to_text()), Some(other));
    assert_eq!(Range::parse("1.0.0"), None);
    assert_eq!(Range::parse("1.0.0 <= w < 2.0.0"), None);
    assert_eq!(Range::parse("1.0.0 >= v < 2.0.0"), None);
    assert_eq!(Range::parse("1.0 <= v < 2.0.0"), None);
    assert_eq!(Range::parse("1.0.0 <= v <  2.0.0"), None);
}

#[test]
fn ranges_hold_what_is_between_their_bounds() {
    let range = Range::new(Bound::Inclusive(v(1, 0, 0)), Bound::Exclusive(v(2, 0, 0)));
    assert!(!range.contains(&v(0, 9, 9)));
    assert!(range.contains(&v(1, 0, 0)));
    assert!(range.contains(&v(1, 99, 0)));
    assert!(!range.contains(&v(2, 0, 0)));
    let open = Range::new(Bound::Exclusive(v(1, 0, 0)), Bound::Unbounded);
    assert!(!open.contains(&v(1, 0, 0)));
    assert!(open.contains(&v(1, 0, 1)));
}

#[test]
fn complement_is_the_other_versions() {
    let range = Range::new(Bound::Inclusive(v(1, 0, 0)), Bound::Exclusive(v(2, 0, 0)));
    let inside = range.to_constraint();
    let outside = inside.complement();
    let again = outside.complement();
    for version in [v(0, 0, 0), v(0, 9, 9), v(1, 0, 0), v(1, 5, 0), v(2, 0, 0), v(3, 1, 4)] {
        assert_eq!(inside.satisfies(&version), range.contains(&version));
        assert_eq!(outside.satisfies(&version), !range.contains(&version));
        assert_eq!(again.satisfies(&version), range.contains(&version));
    }
    assert!(!Constraint::empty().satisfies(&v(1, 0, 0)));
    assert!(Constraint::empty().complement().satisfies(&v(1, 0, 0)));
}

#[test]
fn constraints_have_a_text() {
    let range = Range::new(Bound::Inclusive(v(1, 0, 0)), Bound::Exclusive(v(2, 0, 0)));
    assert_eq!(range.to_constraint().to_text(), "1.0.0 <= v < 2.0.0");
    assert_eq!(
        range.to_constraint().complement().to_text(),
        "v < 1.0.0 || 2.0.0 <= v"
    );
    assert_eq!(Constraint::empty().to_text(), "none");
}
