use l1ght::decimal::{parse_numeric_value, render_numeric_value};
use l1ght::error::Error;

#[test]
fn parses_plain_value() {
    assert_eq!(parse_numeric_value("100"), Ok(100));
}

#[test]
fn parses_newline_terminated_value() {
    assert_eq!(parse_numeric_value("100\n"), Ok(100));
}

#[test]
fn parses_surrounding_whitespace() {
    assert_eq!(parse_numeric_value(" \t42\r\n"), Ok(42));
}

#[test]
fn parses_signs() {
    assert_eq!(parse_numeric_value("-5\n"), Ok(-5));
    assert_eq!(parse_numeric_value("+7"), Ok(7));
}

#[test]
fn parses_leading_zeros() {
    assert_eq!(parse_numeric_value("00042"), Ok(42));
}

#[test]
fn parses_extreme_values() {
    assert_eq!(parse_numeric_value("2147483647"), Ok(i32::MAX));
    assert_eq!(parse_numeric_value("-2147483648"), Ok(i32::MIN));
}

#[test]
fn rejects_out_of_range_values() {
    assert_eq!(parse_numeric_value("2147483648"), Err(Error::InvalidData));
    assert_eq!(parse_numeric_value("-2147483649"), Err(Error::InvalidData));
    assert_eq!(
        parse_numeric_value("99999999999999999999"),
        Err(Error::InvalidData)
    );
}

#[test]
fn rejects_non_numeric_content() {
    assert_eq!(parse_numeric_value("garbage"), Err(Error::InvalidData));
    assert_eq!(parse_numeric_value("12a"), Err(Error::InvalidData));
    assert_eq!(parse_numeric_value("1 2"), Err(Error::InvalidData));
    assert_eq!(parse_numeric_value(""), Err(Error::InvalidData));
    assert_eq!(parse_numeric_value("  \n"), Err(Error::InvalidData));
    assert_eq!(parse_numeric_value("-"), Err(Error::InvalidData));
    assert_eq!(parse_numeric_value("+"), Err(Error::InvalidData));
}

#[test]
fn renders_decimal_text() {
    assert_eq!(render_numeric_value(0), "0");
    assert_eq!(render_numeric_value(100), "100");
    assert_eq!(render_numeric_value(-17), "-17");
    assert_eq!(render_numeric_value(i32::MAX), "2147483647");
    assert_eq!(render_numeric_value(i32::MIN), "-2147483648");
}

#[test]
fn rendered_text_parses_back() {
    for v in [0, 1, -1, 9, 10, 255, -4096, i32::MAX, i32::MIN] {
        assert_eq!(parse_numeric_value(&render_numeric_value(v)), Ok(v));
    }
}
