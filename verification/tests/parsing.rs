//! The optional-integer form field: blank means absent, anything else must
//! be a decimal integer in `i32` range.

use needadrop::forms::{parse_i32, parse_optional_int, FormFieldError};

#[test]
fn blank_fields_are_absent() {
    assert_eq!(parse_optional_int(""), Ok(None));
    assert_eq!(parse_optional_int("   "), Ok(None));
    assert_eq!(parse_optional_int("\t\n"), Ok(None));
}

#[test]
fn integers_parse_with_surrounding_space() {
    assert_eq!(parse_optional_int("42"), Ok(Some(42)));
    assert_eq!(parse_optional_int(" 7 "), Ok(Some(7)));
    assert_eq!(parse_optional_int("-3"), Ok(Some(-3)));
    assert_eq!(parse_optional_int("+5"), Ok(Some(5)));
    assert_eq!(parse_optional_int("007"), Ok(Some(7)));
    assert_eq!(parse_optional_int("0"), Ok(Some(0)));
}

#[test]
fn malformed_fields_are_rejected() {
    assert_eq!(parse_optional_int("abc"), Err(FormFieldError::NotAnInteger));
    assert_eq!(parse_optional_int("1.5"), Err(FormFieldError::NotAnInteger));
    assert_eq!(parse_optional_int("--1"), Err(FormFieldError::NotAnInteger));
    assert_eq!(parse_optional_int("+"), Err(FormFieldError::NotAnInteger));
    assert_eq!(parse_optional_int("-"), Err(FormFieldError::NotAnInteger));
    assert_eq!(parse_optional_int("1 2"), Err(FormFieldError::NotAnInteger));
    assert_eq!(parse_optional_int("12h"), Err(FormFieldError::NotAnInteger));
}

#[test]
fn range_ends_are_exact() {
    assert_eq!(parse_optional_int("2147483647"), Ok(Some(i32::MAX)));
    assert_eq!(parse_optional_int("2147483648"), Err(FormFieldError::NotAnInteger));
    assert_eq!(parse_optional_int("-2147483648"), Ok(Some(i32::MIN)));
    assert_eq!(parse_optional_int("-2147483649"), Err(FormFieldError::NotAnInteger));
    assert_eq!(parse_optional_int("99999999999999999999"), Err(FormFieldError::NotAnInteger));
}

#[test]
fn bare_parse_matches_the_standard_parser() {
    for s in [
        "", "0", "42", "-42", "+42", "2147483647", "2147483648", "-2147483648", "-2147483649",
        " 1", "1 ", "++1", "0x10", "১২", "1٢", "00000000000000000042",
    ] {
        assert_eq!(parse_i32(s), s.parse::<i32>().ok(), "input {:?}", s);
    }
}
