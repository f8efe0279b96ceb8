use symbol_price::extractor::{
    check_numerals, extract, number_to_cents, parse_price, price_from_response, HttpError, JsonNumber,
};

#[test]
fn extracts_usd_in_cents() {
    assert_eq!(parse_price("{\"USD\": 23456.78}"), Some(2345678));
    assert_eq!(extract(b"{\"USD\": 23456.78}"), Some(2345678));
}

#[test]
fn truncates_long_fractions() {
    assert_eq!(parse_price("{\"USD\": 1.23456}"), Some(123));
    assert_eq!(parse_price("{\"USD\": 1.999}"), Some(199));
}

#[test]
fn short_fractions_are_not_scaled() {
    assert_eq!(parse_price("{\"USD\": 1.5}"), Some(105));
    assert_eq!(parse_price("{\"USD\": 7}"), Some(700));
}

#[test]
fn first_usd_member_wins() {
    assert_eq!(parse_price("{\"EUR\": 3.00, \"USD\": 1.00, \"USD\": 2.00}"), Some(100));
}

#[test]
fn missing_or_malformed_gives_none() {
    assert_eq!(parse_price("{\"EUR\": 3.00}"), None);
    assert_eq!(parse_price("{\"USD\": \"3.00\"}"), None);
    assert_eq!(parse_price("[1, 2]"), None);
    assert_eq!(parse_price("not json"), None);
    assert_eq!(parse_price("{\"USD\": -4.00}"), None);
    assert_eq!(parse_price("{\"USD\": 99999999.00}"), None);
    assert_eq!(extract(&[0xff, 0xfe, 0x7b]), None);
}

#[test]
fn number_conversion_edges() {
    let n = JsonNumber { integer: 42949672, fraction: 95, fraction_length: 2 };
    assert_eq!(number_to_cents(&n), Some(u32::MAX));
    let n = JsonNumber { integer: 42949672, fraction: 96, fraction_length: 2 };
    assert_eq!(number_to_cents(&n), None);
    let n = JsonNumber { integer: 1, fraction: u64::MAX, fraction_length: 40 };
    assert_eq!(number_to_cents(&n), Some(100));
    let n = JsonNumber { integer: 0, fraction: 0, fraction_length: 0 };
    assert_eq!(number_to_cents(&n), Some(0));
}

#[test]
fn response_needs_status_ok() {
    assert_eq!(price_from_response(200, b"{\"USD\": 10.25}"), Ok(1025));
    assert_eq!(price_from_response(404, b"{\"USD\": 10.25}"), Err(HttpError::Unknown));
    assert_eq!(price_from_response(200, b"{}"), Err(HttpError::Unknown));
}

#[test]
fn long_numerals_are_refused_before_parsing() {
    assert_eq!(parse_price("{\"USD\": 1.123456789012345678}"), Some(112));
    assert_eq!(parse_price("{\"USD\": 1.1234567890123456789012}"), None);
    assert_eq!(parse_price("{\"USD\": 123456789012345678901234}"), None);
    assert_eq!(parse_price("{\"USD\": 1e1234567890}"), None);
    assert_eq!(parse_price("{\"USD\": 1.5e3}"), Some(105));
    assert_eq!(parse_price("{\"id\": \"12345678901234567890\", \"USD\": 2}"), None);
}

#[test]
fn check_numerals_limits() {
    assert!(check_numerals(b"123456789012345678"));
    assert!(!check_numerals(b"1234567890123456789"));
    assert!(check_numerals(b"1e123456789"));
    assert!(!check_numerals(b"1E-1234567890"));
    assert!(check_numerals(b""));
}
