use flatindex::FieldPath;
use flatindex::render::bool_to_string;
use flatindex::render::i64_to_string;
use flatindex::render::u64_to_string;

#[test]
fn unsigned_decimal_rendering() {
    assert_eq!(u64_to_string(0), "0");
    assert_eq!(u64_to_string(7), "7");
    assert_eq!(u64_to_string(10), "10");
    assert_eq!(u64_to_string(123), "123");
    assert_eq!(u64_to_string(u64::MAX), "18446744073709551615");
}

#[test]
fn signed_decimal_rendering() {
    assert_eq!(i64_to_string(0), "0");
    assert_eq!(i64_to_string(-5), "-5");
    assert_eq!(i64_to_string(42), "42");
    assert_eq!(i64_to_string(i64::MIN), "-9223372036854775808");
}

#[test]
fn boolean_rendering() {
    assert_eq!(bool_to_string(true), "true");
    assert_eq!(bool_to_string(false), "false");
}

#[test]
fn path_joins_segments_with_dots() {
    let mut p = FieldPath::new();
    assert_eq!(p.current(), "");
    p.push(true, "c".to_owned());
    assert_eq!(p.current(), "c");
    p.push(true, "b".to_owned());
    assert_eq!(p.current(), "c.b");
    assert_eq!(p.current_to("x"), "c.b.x");
    p.pop();
    assert_eq!(p.current(), "c");
}

#[test]
fn path_hands_out_ordinals_per_component() {
    let mut p = FieldPath::new();
    p.push(true, "c".to_owned());
    assert_eq!(p.anonymous(), "_0");
    assert_eq!(p.anonymous(), "_1");
    p.push(true, "inner".to_owned());
    assert_eq!(p.anonymous(), "_0");
    p.pop();
    assert_eq!(p.anonymous(), "_2");
}

#[test]
fn root_path_hands_out_its_own_ordinals() {
    let mut p = FieldPath::new();
    assert_eq!(p.anonymous(), "_0");
    assert_eq!(p.anonymous(), "_1");
    assert_eq!(p.current_to("_1"), "_1");
}

#[test]
fn internal_current_to_appends_an_optional_segment() {
    let mut p = FieldPath::new();
    p.push(false, "d".to_owned());
    assert_eq!(p.internal_current_to(None), "d");
    assert_eq!(p.internal_current_to(Some("x")), "d.x");
}
