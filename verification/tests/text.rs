use jobshell::text::{
    append_padded, chars_of, parse_i32, parse_usize, same_text, text_of, to_decimal,
    to_signed_decimal,
};

#[test]
fn decimal_of_small_and_large_numbers() {
    assert_eq!(to_decimal(0), "0");
    assert_eq!(to_decimal(7), "7");
    assert_eq!(to_decimal(10), "10");
    assert_eq!(to_decimal(1234567890), "1234567890");
    assert_eq!(to_decimal(usize::MAX), usize::MAX.to_string());
}

#[test]
fn signed_decimal_shows_the_sign() {
    assert_eq!(to_signed_decimal(0), "0");
    assert_eq!(to_signed_decimal(42), "42");
    assert_eq!(to_signed_decimal(-42), "-42");
    assert_eq!(to_signed_decimal(i32::MIN), "-2147483648");
    assert_eq!(to_signed_decimal(i32::MAX), "2147483647");
}

#[test]
fn unsigned_numbers_are_read() {
    assert_eq!(parse_usize("0"), Some(0));
    assert_eq!(parse_usize("12"), Some(12));
    assert_eq!(parse_usize("+12"), Some(12));
    assert_eq!(parse_usize("0012"), Some(12));
    assert_eq!(parse_usize(&usize::MAX.to_string()), Some(usize::MAX));
}

#[test]
fn what_is_no_unsigned_number_is_refused() {
    assert_eq!(parse_usize(""), None);
    assert_eq!(parse_usize("+"), None);
    assert_eq!(parse_usize("-1"), None);
    assert_eq!(parse_usize("-0"), None);
    assert_eq!(parse_usize("1a"), None);
    assert_eq!(parse_usize(" 1"), None);
    assert_eq!(parse_usize("++1"), None);
    assert_eq!(parse_usize("18446744073709551616"), None);
    assert_eq!(parse_usize("99999999999999999999999999"), None);
}

#[test]
fn signed_numbers_are_read() {
    assert_eq!(parse_i32("0"), Some(0));
    assert_eq!(parse_i32("-0"), Some(0));
    assert_eq!(parse_i32("4242"), Some(4242));
    assert_eq!(parse_i32("+7"), Some(7));
    assert_eq!(parse_i32("-7"), Some(-7));
    assert_eq!(parse_i32("2147483647"), Some(i32::MAX));
    assert_eq!(parse_i32("-2147483648"), Some(i32::MIN));
}

#[test]
fn what_is_no_signed_number_is_refused() {
    assert_eq!(parse_i32(""), None);
    assert_eq!(parse_i32("-"), None);
    assert_eq!(parse_i32("+"), None);
    assert_eq!(parse_i32("2147483648"), None);
    assert_eq!(parse_i32("-2147483649"), None);
    assert_eq!(parse_i32("12x"), None);
    assert_eq!(parse_i32("%1"), None);
}

#[test]
fn reading_agrees_with_writing() {
    for n in [0usize, 1, 9, 10, 99, 100, 65535, 4294967296] {
        assert_eq!(parse_usize(&to_decimal(n)), Some(n));
    }
}

#[test]
fn texts_are_compared_by_their_characters() {
    assert!(same_text("", ""));
    assert!(same_text("jobs", "jobs"));
    assert!(!same_text("jobs", "job"));
    assert!(!same_text("jobs", "jobz"));
}

#[test]
fn characters_and_ranges() {
    let v = chars_of("héllo");
    assert_eq!(v, vec!['h', 'é', 'l', 'l', 'o']);
    assert_eq!(text_of(&v, 1, 4), "éll");
    assert_eq!(text_of(&v, 2, 2), "");
}

#[test]
fn padding_fills_up_on_the_right() {
    let mut s = String::from("[");
    append_padded(&mut s, "ab", 5);
    s.push(']');
    assert_eq!(s, "[ab   ]");
    let mut t = String::new();
    append_padded(&mut t, "abcdef", 3);
    assert_eq!(t, "abcdef");
    let mut u = String::new();
    append_padded(&mut u, "", 2);
    assert_eq!(u, "  ");
}
