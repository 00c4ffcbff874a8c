use nft_series::text::{decimal_string, make_token_id, parse_decimal, series_id_of};
use nft_series::text::{EDITION_DELIMETER, TITLE_DELIMETER, TOKEN_DELIMETER};

#[test]
fn decimal_string_writes_numerals() {
    assert_eq!(decimal_string(0), "0");
    assert_eq!(decimal_string(7), "7");
    assert_eq!(decimal_string(10), "10");
    assert_eq!(decimal_string(907), "907");
    assert_eq!(decimal_string(u64::MAX), "18446744073709551615");
}

#[test]
fn parse_decimal_reads_what_decimal_string_writes() {
    for n in [0u64, 1, 9, 10, 11, 99, 100, 12345, u64::MAX - 1, u64::MAX] {
        assert_eq!(parse_decimal(&decimal_string(n)), Some(n));
    }
}

#[test]
fn parse_decimal_refuses_other_text() {
    assert_eq!(parse_decimal(""), None);
    assert_eq!(parse_decimal("01"), None);
    assert_eq!(parse_decimal("00"), None);
    assert_eq!(parse_decimal("+1"), None);
    assert_eq!(parse_decimal("-1"), None);
    assert_eq!(parse_decimal("1 "), None);
    assert_eq!(parse_decimal("1a"), None);
    assert_eq!(parse_decimal("١"), None);
    assert_eq!(parse_decimal("18446744073709551616"), None);
    assert_eq!(parse_decimal("99999999999999999999999"), None);
}

#[test]
fn token_id_joins_series_and_number() {
    assert_eq!(make_token_id("1", 1), "1:1");
    assert_eq!(make_token_id("12", 345), "12:345");
    assert_eq!(TOKEN_DELIMETER, ':');
    assert_eq!(TITLE_DELIMETER, " #");
    assert_eq!(EDITION_DELIMETER, "/");
}

#[test]
fn series_id_is_the_text_before_the_first_delimiter() {
    assert_eq!(series_id_of("12:345"), "12");
    assert_eq!(series_id_of("1:2:3"), "1");
    assert_eq!(series_id_of("17"), "17");
    assert_eq!(series_id_of(":4"), "");
    assert_eq!(series_id_of(""), "");
    assert_eq!(series_id_of(&make_token_id("8", 3)), "8");
}
