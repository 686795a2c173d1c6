use oracle::text::{
    chars_of, join_strings, parse_in_range, push_decimal, push_padded_decimal,
    push_signed_decimal, ParseReason,
};

fn decimal_string(n: u64) -> String {
    let mut s = String::new();
    push_decimal(&mut s, n);
    s
}

#[test]
fn parses_whole_numbers_with_optional_sign() {
    assert_eq!(parse_in_range("7", -10, 10), Ok(7));
    assert_eq!(parse_in_range("+7", -10, 10), Ok(7));
    assert_eq!(parse_in_range("-7", -10, 10), Ok(-7));
    assert_eq!(parse_in_range("007", -10, 10), Ok(7));
    assert_eq!(parse_in_range("-0", -10, 10), Ok(0));
    assert_eq!(parse_in_range("10", -10, 10), Ok(10));
    assert_eq!(parse_in_range("-10", -10, 10), Ok(-10));
}

#[test]
fn refuses_what_is_no_number() {
    assert_eq!(parse_in_range("", -10, 10), Err(ParseReason::Empty));
    assert_eq!(parse_in_range("+", -10, 10), Err(ParseReason::InvalidDigit));
    assert_eq!(parse_in_range("-", -10, 10), Err(ParseReason::InvalidDigit));
    assert_eq!(parse_in_range("abc", -10, 10), Err(ParseReason::InvalidDigit));
    assert_eq!(parse_in_range(" 7", -10, 10), Err(ParseReason::InvalidDigit));
    assert_eq!(parse_in_range("7 ", -10, 10), Err(ParseReason::InvalidDigit));
    assert_eq!(parse_in_range("+-7", -10, 10), Err(ParseReason::InvalidDigit));
    assert_eq!(parse_in_range("1_0", -10, 10), Err(ParseReason::InvalidDigit));
    assert_eq!(parse_in_range("٧", -10, 10), Err(ParseReason::InvalidDigit));
    assert_eq!(parse_in_range("11", -10, 10), Err(ParseReason::PosOverflow));
    assert_eq!(parse_in_range("-11", -10, 10), Err(ParseReason::NegOverflow));
    assert_eq!(parse_in_range("99x", -10, 10), Err(ParseReason::PosOverflow));
    assert_eq!(parse_in_range("9x9", -10, 10), Err(ParseReason::InvalidDigit));
}

#[test]
fn parses_as_the_standard_library_does() {
    let texts = [
        "0", "-0", "+0", "1", "-1", "32767", "32768", "-32768", "-32769", "", "+", "-", "1a",
        "a1", "00000000000000000000000001", "99999999999999999999", "-99999999999999999999",
        "9223372036854775807", "9223372036854775808", "-9223372036854775808",
        "-9223372036854775809", "12 ", "１２",
    ];
    for t in texts {
        assert_eq!(
            parse_in_range(t, i16::MIN as i64, i16::MAX as i64).ok(),
            t.parse::<i16>().ok().map(|v| v as i64),
            "{:?}",
            t
        );
        assert_eq!(parse_in_range(t, i64::MIN, i64::MAX).ok(), t.parse::<i64>().ok(), "{:?}", t);
    }
}

#[test]
fn decimal_notation() {
    assert_eq!(decimal_string(0), "0");
    assert_eq!(decimal_string(9), "9");
    assert_eq!(decimal_string(10), "10");
    assert_eq!(decimal_string(u64::MAX), "18446744073709551615");
    let mut s = String::from("x");
    push_signed_decimal(&mut s, i64::MIN);
    assert_eq!(s, "x-9223372036854775808");
    let mut s = String::new();
    push_signed_decimal(&mut s, 42);
    assert_eq!(s, "42");
    let mut s = String::new();
    push_padded_decimal(&mut s, 7, 4);
    push_padded_decimal(&mut s, 12345, 4);
    push_padded_decimal(&mut s, 0, 2);
    assert_eq!(s, "00071234500");
}

#[test]
fn joins_with_separator_between_neighbours() {
    let none: Vec<String> = vec![];
    assert_eq!(join_strings(&none, ","), "");
    assert_eq!(join_strings(&vec!["a".to_string()], ","), "a");
    assert_eq!(
        join_strings(&vec!["a".to_string(), "".to_string(), "c".to_string()], " AND "),
        "a AND  AND c"
    );
}

#[test]
fn characters_in_order() {
    let chars = chars_of("zażółć");
    assert_eq!(chars, vec!['z', 'a', 'ż', 'ó', 'ł', 'ć']);
}
