use firehose::errors::FirehoseError;
use firehose::hex::{parse_dec, qty2int, to_prefix_hex, u64_to_dec, vec_from_hex};

#[test]
fn odd_length_single_nibble() {
    assert_eq!(vec_from_hex("0x1"), Ok(vec![0x01]));
}

#[test]
fn odd_length_three_nibbles() {
    assert_eq!(vec_from_hex("0x123"), Ok(vec![0x01, 0x23]));
}

#[test]
fn invalid_digits_are_malformed() {
    assert_eq!(vec_from_hex("0xzz"), Err(FirehoseError::MalformedHex));
}

#[test]
fn empty_digit_count_decodes_to_empty() {
    assert_eq!(vec_from_hex("0x"), Ok(vec![]));
}

#[test]
fn missing_prefix_is_malformed() {
    assert_eq!(vec_from_hex("1234"), Err(FirehoseError::MalformedHex));
    assert_eq!(vec_from_hex(""), Err(FirehoseError::MalformedHex));
    assert_eq!(vec_from_hex("0"), Err(FirehoseError::MalformedHex));
}

#[test]
fn even_length_decodes_pairwise() {
    assert_eq!(vec_from_hex("0xdeadbeef"), Ok(vec![0xde, 0xad, 0xbe, 0xef]));
}

#[test]
fn uppercase_digits_accepted() {
    assert_eq!(vec_from_hex("0xAB"), Ok(vec![0xab]));
    assert_eq!(vec_from_hex("0xAbCd"), Ok(vec![0xab, 0xcd]));
}

#[test]
fn decode_agrees_with_reference_codec() {
    let ours = vec_from_hex("0x00ff10a3").unwrap();
    let reference: Vec<u8> = prefix_hex::decode("0x00ff10a3").unwrap();
    assert_eq!(ours, reference);
}

#[test]
fn encode_agrees_with_reference_codec() {
    let bytes = vec![0x01u8, 0x02, 0x03, 0xff];
    assert_eq!(to_prefix_hex(&bytes), prefix_hex::encode(bytes.clone()));
}

#[test]
fn encode_is_prefixed_lowercase() {
    assert_eq!(to_prefix_hex(&vec![0xde, 0xad]), "0xdead");
    assert_eq!(to_prefix_hex(&vec![]), "0x");
    assert_eq!(to_prefix_hex(&vec![0x00, 0x0f]), "0x000f");
}

#[test]
fn encode_then_decode_round_trips() {
    let bytes = vec![0u8, 1, 15, 16, 127, 128, 255];
    assert_eq!(vec_from_hex(&to_prefix_hex(&bytes)), Ok(bytes));
}

#[test]
fn quantity_zero() {
    assert_eq!(qty2int(&"0x0".to_string()), Ok(0));
}

#[test]
fn quantity_ff() {
    assert_eq!(qty2int(&"0xff".to_string()), Ok(255));
}

#[test]
fn quantity_twenty_digits_overflows() {
    assert_eq!(
        qty2int(&"0xffffffffffffffffffff".to_string()),
        Err(FirehoseError::IntegerOverflow)
    );
}

#[test]
fn quantity_seventeen_digits_overflows() {
    assert_eq!(
        qty2int(&"0x10000000000000000".to_string()),
        Err(FirehoseError::IntegerOverflow)
    );
}

#[test]
fn quantity_max_fits() {
    assert_eq!(qty2int(&"0xffffffffffffffff".to_string()), Ok(u64::MAX));
}

#[test]
fn quantity_without_prefix() {
    assert_eq!(qty2int(&"ff".to_string()), Ok(255));
}

#[test]
fn quantity_bad_digits_are_malformed() {
    assert_eq!(qty2int(&"0xzz".to_string()), Err(FirehoseError::MalformedHex));
    assert_eq!(qty2int(&"0x".to_string()), Err(FirehoseError::MalformedHex));
    assert_eq!(qty2int(&"".to_string()), Err(FirehoseError::MalformedHex));
}

#[test]
fn malformed_wins_over_overflow() {
    assert_eq!(
        qty2int(&"0xffffffffffffffffffzz".to_string()),
        Err(FirehoseError::MalformedHex)
    );
}

#[test]
fn cursor_rendering() {
    assert_eq!(u64_to_dec(0), "0");
    assert_eq!(u64_to_dec(7), "7");
    assert_eq!(u64_to_dec(12345), "12345");
    assert_eq!(u64_to_dec(u64::MAX), "18446744073709551615");
}

#[test]
fn cursor_parsing() {
    assert_eq!(parse_dec("0"), Ok(0));
    assert_eq!(parse_dec("12345"), Ok(12345));
    assert_eq!(parse_dec("18446744073709551615"), Ok(u64::MAX));
}

#[test]
fn cursor_round_trips() {
    for n in [0u64, 1, 9, 10, 99, 100, 4096, u64::MAX - 1, u64::MAX] {
        assert_eq!(parse_dec(&u64_to_dec(n)), Ok(n));
    }
}

#[test]
fn bad_cursors_rejected() {
    assert_eq!(parse_dec(""), Err(FirehoseError::InvalidCursor));
    assert_eq!(parse_dec("12a"), Err(FirehoseError::InvalidCursor));
    assert_eq!(parse_dec("-5"), Err(FirehoseError::InvalidCursor));
    assert_eq!(parse_dec("+5"), Err(FirehoseError::InvalidCursor));
    assert_eq!(
        parse_dec("18446744073709551616"),
        Err(FirehoseError::InvalidCursor)
    );
}
