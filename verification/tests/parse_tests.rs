use rs_movie_db::parse::{parse_i32, parse_page, parse_page_size, parse_usize, parse_year};

#[test]
fn unsigned_plain_digits() {
    assert_eq!(parse_usize("0"), Some(0));
    assert_eq!(parse_usize("10"), Some(10));
    assert_eq!(parse_usize("007"), Some(7));
}

#[test]
fn unsigned_accepts_leading_plus() {
    assert_eq!(parse_usize("+5"), Some(5));
}

#[test]
fn unsigned_rejects_junk() {
    assert_eq!(parse_usize(""), None);
    assert_eq!(parse_usize("+"), None);
    assert_eq!(parse_usize("-1"), None);
    assert_eq!(parse_usize(" 1"), None);
    assert_eq!(parse_usize("1 "), None);
    assert_eq!(parse_usize("1.5"), None);
    assert_eq!(parse_usize("abc"), None);
    assert_eq!(parse_usize("12a"), None);
}

#[test]
fn unsigned_overflow_is_rejected() {
    assert_eq!(parse_usize("18446744073709551615"), Some(usize::MAX));
    assert_eq!(parse_usize("18446744073709551616"), None);
    assert_eq!(parse_usize("99999999999999999999999999"), None);
}

#[test]
fn signed_values_and_signs() {
    assert_eq!(parse_i32("2001"), Some(2001));
    assert_eq!(parse_i32("+2001"), Some(2001));
    assert_eq!(parse_i32("-2001"), Some(-2001));
    assert_eq!(parse_i32("0"), Some(0));
    assert_eq!(parse_i32("-0"), Some(0));
}

#[test]
fn signed_limits() {
    assert_eq!(parse_i32("2147483647"), Some(i32::MAX));
    assert_eq!(parse_i32("2147483648"), None);
    assert_eq!(parse_i32("-2147483648"), Some(i32::MIN));
    assert_eq!(parse_i32("-2147483649"), None);
}

#[test]
fn signed_rejects_junk() {
    assert_eq!(parse_i32(""), None);
    assert_eq!(parse_i32("-"), None);
    assert_eq!(parse_i32("+"), None);
    assert_eq!(parse_i32("--1"), None);
    assert_eq!(parse_i32("19a9"), None);
}

#[test]
fn page_defaults_to_zero() {
    assert_eq!(parse_page(&None), 0);
    assert_eq!(parse_page(&Some("xyz".to_string())), 0);
    assert_eq!(parse_page(&Some("3".to_string())), 3);
}

#[test]
fn page_size_defaults_to_ten() {
    assert_eq!(parse_page_size(&None), 10);
    assert_eq!(parse_page_size(&Some("xyz".to_string())), 10);
    assert_eq!(parse_page_size(&Some("2".to_string())), 2);
}

#[test]
fn year_defaults_to_sentinel_zero() {
    assert_eq!(parse_year(&None), 0);
    assert_eq!(parse_year(&Some("abc".to_string())), 0);
    assert_eq!(parse_year(&Some("1999".to_string())), 1999);
    assert_eq!(parse_year(&Some("-44".to_string())), -44);
}
