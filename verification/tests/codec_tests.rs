use auth_core::codec::{decode, encode, DecodeError, TOKEN_TEXT_LEN};

#[test]
fn encode_is_22_chars() {
    assert_eq!(encode(0).len(), TOKEN_TEXT_LEN);
    assert_eq!(encode(u128::MAX).len(), TOKEN_TEXT_LEN);
    assert_eq!(encode(1).len(), TOKEN_TEXT_LEN);
}

#[test]
fn encode_zero_is_all_ones() {
    assert_eq!(encode(0), "1111111111111111111111");
}

#[test]
fn encode_small_values_exactly() {
    // digit 1 is '2', digit 57 is 'z', and 58 is '2' followed by '1'
    assert_eq!(encode(1), "1111111111111111111112");
    assert_eq!(encode(57), "111111111111111111111z");
    assert_eq!(encode(58), "1111111111111111111121");
}

#[test]
fn decode_encode_roundtrip() {
    for x in [
        0u128,
        1,
        57,
        58,
        255,
        65536,
        0xDEAD_BEEF,
        1u128 << 64,
        u128::MAX - 1,
        u128::MAX,
        0x0123_4567_89AB_CDEF_0123_4567_89AB_CDEF,
    ] {
        assert_eq!(decode(&encode(x)), Ok(x));
    }
}

#[test]
fn decode_rejects_wrong_length() {
    assert_eq!(decode(""), Err(DecodeError::InvalidLength));
    assert_eq!(decode("111111111111111111111"), Err(DecodeError::InvalidLength));
    assert_eq!(decode("11111111111111111111111"), Err(DecodeError::InvalidLength));
}

#[test]
fn decode_rejects_foreign_characters() {
    // '0', 'O', 'I' and 'l' are not in the alphabet; neither are '=' or '-'
    assert_eq!(decode("0111111111111111111111"), Err(DecodeError::InvalidCharacter));
    assert_eq!(decode("111111111111111111111O"), Err(DecodeError::InvalidCharacter));
    assert_eq!(decode("11111111111I1111111111"), Err(DecodeError::InvalidCharacter));
    assert_eq!(decode("l111111111111111111111"), Err(DecodeError::InvalidCharacter));
    assert_eq!(decode("111111111111111111111="), Err(DecodeError::InvalidCharacter));
    assert_eq!(decode("åäö1111111111111111111"), Err(DecodeError::InvalidCharacter));
}

#[test]
fn decode_rejects_values_over_128_bits() {
    // 22 'z' digits denote 58^22 - 1, which exceeds 2^128 - 1
    assert_eq!(decode("zzzzzzzzzzzzzzzzzzzzzz"), Err(DecodeError::InvalidLength));
}

#[test]
fn decode_accepts_the_largest_identifier() {
    let top = encode(u128::MAX);
    assert_eq!(decode(&top), Ok(u128::MAX));
}
