use kuon_cli::numfmt::{i64_to_dec, parse_i64, parse_u64, u64_to_dec};

#[test]
fn numbers_write_out_in_canonical_decimal() {
    assert_eq!(u64_to_dec(0), "0");
    assert_eq!(u64_to_dec(7), "7");
    assert_eq!(u64_to_dec(105), "105");
    assert_eq!(u64_to_dec(18446744073709551615), "18446744073709551615");
}

#[test]
fn signed_numbers_carry_their_sign() {
    assert_eq!(i64_to_dec(0), "0");
    assert_eq!(i64_to_dec(-1), "-1");
    assert_eq!(i64_to_dec(9223372036854775807), "9223372036854775807");
    assert_eq!(i64_to_dec(-9223372036854775808), "-9223372036854775808");
}

#[test]
fn digit_strings_read_back_as_their_value() {
    assert_eq!(parse_u64("0"), Some(0));
    assert_eq!(parse_u64("105"), Some(105));
    assert_eq!(parse_u64("007"), Some(7));
    assert_eq!(parse_u64("18446744073709551615"), Some(18446744073709551615));
}

#[test]
fn malformed_or_oversized_digit_strings_read_as_nothing() {
    assert_eq!(parse_u64(""), None);
    assert_eq!(parse_u64("12a"), None);
    assert_eq!(parse_u64("-1"), None);
    assert_eq!(parse_u64("18446744073709551616"), None);
}

#[test]
fn signed_digit_strings_read_back_with_their_sign() {
    assert_eq!(parse_i64("-5"), Some(-5));
    assert_eq!(parse_i64("9223372036854775807"), Some(9223372036854775807));
    assert_eq!(parse_i64("-9223372036854775808"), Some(-9223372036854775808));
}

#[test]
fn signed_strings_out_of_range_read_as_nothing() {
    assert_eq!(parse_i64("9223372036854775808"), None);
    assert_eq!(parse_i64("-9223372036854775809"), None);
    assert_eq!(parse_i64("-"), None);
    assert_eq!(parse_i64("--3"), None);
}

#[test]
fn writing_then_reading_is_the_identity_on_samples() {
    for n in [0u64, 1, 9, 10, 99, 1000, 123456789, u64::MAX] {
        let text = u64_to_dec(n);
        assert_eq!(parse_u64(text.as_str()), Some(n));
    }
    for v in [0i64, -1, 42, -42, i64::MIN, i64::MAX] {
        let text = i64_to_dec(v);
        assert_eq!(parse_i64(text.as_str()), Some(v));
    }
}
