use config::cursor::{cursor_decode, cursor_encode, parse_decimal, to_decimal};

#[test]
fn decimal_digits_of_small_and_large_values() {
    assert_eq!(to_decimal(0), b"0".to_vec());
    assert_eq!(to_decimal(7), b"7".to_vec());
    assert_eq!(to_decimal(1001), b"1001".to_vec());
    assert_eq!(to_decimal(i64::MAX), b"9223372036854775807".to_vec());
}

#[test]
fn parse_decimal_reads_digits_back() {
    assert_eq!(parse_decimal(&b"0".to_vec()), Some(0));
    assert_eq!(parse_decimal(&b"1001".to_vec()), Some(1001));
    assert_eq!(parse_decimal(&b"9223372036854775807".to_vec()), Some(i64::MAX));
}

#[test]
fn parse_decimal_refuses_empty_and_non_digits() {
    assert_eq!(parse_decimal(&b"".to_vec()), None);
    assert_eq!(parse_decimal(&b"12a4".to_vec()), None);
    assert_eq!(parse_decimal(&b"-5".to_vec()), None);
    assert_eq!(parse_decimal(&b" 12".to_vec()), None);
}

#[test]
fn parse_decimal_refuses_overflow() {
    assert_eq!(parse_decimal(&b"9223372036854775808".to_vec()), None);
    assert_eq!(parse_decimal(&b"99999999999999999999999".to_vec()), None);
}

#[test]
fn cursor_is_base64_url_of_decimal() {
    // base64-url, no padding: "1001" encodes to "MTAwMQ", "0" to "MA"
    assert_eq!(cursor_encode(1001).as_str(), "MTAwMQ");
    assert_eq!(cursor_encode(0).as_str(), "MA");
}

#[test]
fn cursor_round_trip() {
    for id in [0i64, 1, 9, 10, 1001, 2001, 123456789, i64::MAX] {
        let token = cursor_encode(id);
        assert_eq!(cursor_decode(token.as_str()), Some(id));
    }
}

#[test]
fn cursor_decode_refuses_malformed_tokens() {
    // not base64-url at all
    assert_eq!(cursor_decode("!!!"), None);
    // valid base64-url, but the bytes are not decimal digits ("YWI" is "ab")
    assert_eq!(cursor_decode("YWI"), None);
    // valid base64-url of a decimal that overflows an identifier
    assert_eq!(cursor_decode(cursor_encode(i64::MAX).as_str()), Some(i64::MAX));
    let over = config::cursor::cursor_decode("OTIyMzM3MjAzNjg1NDc3NTgwOA"); // "9223372036854775808"
    assert_eq!(over, None);
    // empty token decodes to zero bytes, which is no decimal
    assert_eq!(cursor_decode(""), None);
}
