use iherb_cli::price::{parse_decimal_hundredths, parse_price_chars, parse_price_str};

fn chars(s: &str) -> Vec<char> {
    s.chars().collect()
}

#[test]
fn us_format_with_thousands() {
    assert_eq!(parse_price_str("1,234.56"), Some(123456));
}

#[test]
fn european_format_with_thousands() {
    assert_eq!(parse_price_str("1.234,56"), Some(123456));
}

#[test]
fn lone_comma_as_decimal() {
    assert_eq!(parse_price_str("23,99"), Some(2399));
}

#[test]
fn lone_comma_as_thousands() {
    assert_eq!(parse_price_str("1,000"), Some(100000));
}

#[test]
fn empty_string_is_none() {
    assert_eq!(parse_price_str(""), None);
}

#[test]
fn currency_symbols_are_stripped() {
    assert_eq!(parse_price_str("$19.99"), Some(1999));
    assert_eq!(parse_price_str("CHF 4.46"), Some(446));
    assert_eq!(parse_price_str("€1.234,56"), Some(123456));
}

#[test]
fn plain_integer() {
    assert_eq!(parse_price_str("7"), Some(700));
    assert_eq!(parse_price_str("120"), Some(12000));
}

#[test]
fn garbage_is_none() {
    assert_eq!(parse_price_str("abc"), None);
    assert_eq!(parse_price_str("."), None);
    assert_eq!(parse_price_str("1.2.3"), None);
}

#[test]
fn multiple_commas_after_normalization_fail() {
    // "23,9,9": the last comma has one digit after it, so the comma is a
    // decimal separator; a second comma remains and the string denotes no
    // one number.
    assert_eq!(parse_price_str("23,9,9"), None);
}

#[test]
fn trailing_dot_reads_as_whole() {
    assert_eq!(parse_price_str("1."), Some(100));
    assert_eq!(parse_price_str(".5"), Some(50));
}

#[test]
fn chars_entry_point_agrees() {
    let v = chars("1,234.56");
    assert_eq!(parse_price_chars(&v), Some(123456));
}

#[test]
fn strict_decimal_parser() {
    assert_eq!(parse_decimal_hundredths(&chars("4.8")), Some(480));
    assert_eq!(parse_decimal_hundredths(&chars("19.99")), Some(1999));
    assert_eq!(parse_decimal_hundredths(&chars("20")), Some(2000));
    assert_eq!(parse_decimal_hundredths(&chars("4.8.1")), None);
    assert_eq!(parse_decimal_hundredths(&chars("4,8")), None);
    assert_eq!(parse_decimal_hundredths(&chars("")), None);
    assert_eq!(parse_decimal_hundredths(&chars("-2")), None);
}
