use boraxpr::codec::{decode, decode_wire, encode, DecodeError, WireId};

#[test]
fn encode_writes_plain_decimal() {
    assert_eq!(encode(0), "0");
    assert_eq!(encode(7), "7");
    assert_eq!(encode(42), "42");
    assert_eq!(encode(-1), "-1");
    assert_eq!(encode(1234567890), "1234567890");
}

#[test]
fn encode_reaches_both_ends_of_the_range() {
    assert_eq!(encode(i64::MAX), "9223372036854775807");
    assert_eq!(encode(i64::MIN), "-9223372036854775808");
}

#[test]
fn encode_agrees_with_the_standard_library() {
    for id in [0i64, 1, -1, 9, 10, 99, 100, 9007199254740991, 9007199254740993, i64::MAX, i64::MIN] {
        assert_eq!(encode(id), id.to_string());
    }
}

#[test]
fn round_trip_beyond_two_to_the_53() {
    for id in [
        9007199254740992i64,
        9007199254740993,
        -9007199254740993,
        1 << 60,
        i64::MAX - 1,
        i64::MAX,
        i64::MIN,
        i64::MIN + 1,
        0,
        -1,
    ] {
        assert_eq!(decode(&encode(id)), Ok(id));
    }
}

#[test]
fn decode_reads_leading_zeros() {
    assert_eq!(decode("007"), Ok(7));
    assert_eq!(decode("-0"), Ok(0));
    assert_eq!(decode("0000000000000000000000000000000000000001"), Ok(1));
}

#[test]
fn decode_rejects_the_empty_text() {
    assert_eq!(decode(""), Err(DecodeError::Empty));
}

#[test]
fn decode_rejects_what_is_no_digit() {
    assert_eq!(decode("-"), Err(DecodeError::InvalidDigit));
    assert_eq!(decode("+5"), Err(DecodeError::InvalidDigit));
    assert_eq!(decode("12a"), Err(DecodeError::InvalidDigit));
    assert_eq!(decode(" 12"), Err(DecodeError::InvalidDigit));
    assert_eq!(decode("1.5"), Err(DecodeError::InvalidDigit));
    assert_eq!(decode("--1"), Err(DecodeError::InvalidDigit));
    assert_eq!(decode("١٢"), Err(DecodeError::InvalidDigit));
    assert_eq!(decode("99999999999999999999x"), Err(DecodeError::InvalidDigit));
}

#[test]
fn decode_rejects_what_is_out_of_range() {
    assert_eq!(decode("9223372036854775808"), Err(DecodeError::Overflow));
    assert_eq!(decode("-9223372036854775809"), Err(DecodeError::Overflow));
    assert_eq!(decode("99999999999999999999999"), Err(DecodeError::Overflow));
    assert_eq!(decode("9223372036854775807"), Ok(i64::MAX));
    assert_eq!(decode("-9223372036854775808"), Ok(i64::MIN));
}

#[test]
fn decode_wire_takes_texts_and_numbers() {
    assert_eq!(decode_wire(&WireId::Text("9007199254740993".to_string())), Ok(9007199254740993));
    assert_eq!(decode_wire(&WireId::Number(-12)), Ok(-12));
    assert_eq!(decode_wire(&WireId::Text("twelve".to_string())), Err(DecodeError::InvalidDigit));
    assert_eq!(decode_wire(&WireId::Text(String::new())), Err(DecodeError::Empty));
}
