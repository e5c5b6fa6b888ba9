use netspeed::{counter_delta, parse_address, parse_bits_counter, parse_counter, parse_u64, NetError};

#[test]
fn parses_plain_digits() {
    assert_eq!(parse_u64("0"), Ok(0));
    assert_eq!(parse_u64("42"), Ok(42));
    assert_eq!(parse_u64("007"), Ok(7));
    assert_eq!(parse_u64("18446744073709551615"), Ok(u64::MAX));
}

#[test]
fn rejects_empty_and_non_digits() {
    assert_eq!(parse_u64(""), Err(NetError::ParseError));
    assert_eq!(parse_u64("12a3"), Err(NetError::ParseError));
    assert_eq!(parse_u64("-5"), Err(NetError::ParseError));
    assert_eq!(parse_u64("4 2"), Err(NetError::ParseError));
}

#[test]
fn rejects_overflowing_value() {
    assert_eq!(parse_u64("18446744073709551616"), Err(NetError::ParseError));
    assert_eq!(parse_u64("99999999999999999999999"), Err(NetError::ParseError));
}

#[test]
fn counter_accepts_surrounding_whitespace() {
    assert_eq!(parse_counter("1500\n"), Ok(1500));
    assert_eq!(parse_counter("  42  "), Ok(42));
    assert_eq!(parse_counter("\t1000\r\n"), Ok(1000));
}

#[test]
fn counter_rejects_bad_content() {
    assert_eq!(parse_counter("\n"), Err(NetError::ParseError));
    assert_eq!(parse_counter("1 000\n"), Err(NetError::ParseError));
    assert_eq!(parse_counter("fast\n"), Err(NetError::ParseError));
}

#[test]
fn bits_counter_scales_bytes_to_bits() {
    assert_eq!(parse_bits_counter("1000\n"), Ok(8000));
    assert_eq!(parse_bits_counter("0\n"), Ok(0));
}

#[test]
fn bits_counter_rejects_unscalable_value() {
    // The largest byte value whose bit count still fits, and the first that
    // does not.
    assert_eq!(
        parse_bits_counter("2305843009213693951\n"),
        Ok(2305843009213693951 * 8)
    );
    assert_eq!(
        parse_bits_counter("2305843009213693952\n"),
        Err(NetError::ParseError)
    );
}

#[test]
fn address_is_trimmed_content() {
    assert_eq!(parse_address(" aa:bb:cc:dd:ee:ff\n"), "aa:bb:cc:dd:ee:ff");
    assert_eq!(parse_address("00:00:00:00:00:00"), "00:00:00:00:00:00");
    assert_eq!(parse_address("  \n"), "");
}

#[test]
fn delta_of_growing_counter() {
    assert_eq!(counter_delta(5, 10), 5);
    assert_eq!(counter_delta(0, 0), 0);
    assert_eq!(counter_delta(1000, 1000), 0);
    assert_eq!(counter_delta(0, u64::MAX), u64::MAX);
}

#[test]
fn delta_of_shrinking_counter_is_clamped_to_zero() {
    assert_eq!(counter_delta(10, 5), 0);
    assert_eq!(counter_delta(u64::MAX, 0), 0);
    assert_eq!(counter_delta(u64::MAX, u64::MAX - 1), 0);
}
