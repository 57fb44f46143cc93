use scale_codec::{
    decode_address, decode_bool, decode_compact, decode_i16, decode_i32, decode_i8, decode_string,
    decode_u16, decode_u32, decode_u8, encode_address, CodecError,
};

#[test]
fn bool_invalid_tag() {
    assert_eq!(decode_bool(&[0x02]), Err(CodecError::InvalidTag));
    assert_eq!(decode_bool(&[0xff]), Err(CodecError::InvalidTag));
}

#[test]
fn bool_short_buffer() {
    assert_eq!(decode_bool(&[]), Err(CodecError::InvalidLength));
}

#[test]
fn u32_short_buffer() {
    assert_eq!(decode_u32(&[0x01, 0x02]), Err(CodecError::InvalidLength));
}

#[test]
fn integer_short_buffers() {
    assert_eq!(decode_u8(&[]), Err(CodecError::InvalidLength));
    assert_eq!(decode_u16(&[0x01]), Err(CodecError::InvalidLength));
    assert_eq!(decode_i8(&[]), Err(CodecError::InvalidLength));
    assert_eq!(decode_i16(&[0x01]), Err(CodecError::InvalidLength));
    assert_eq!(decode_i32(&[0x01, 0x02, 0x03]), Err(CodecError::InvalidLength));
}

#[test]
fn compact_short_buffers() {
    assert_eq!(decode_compact(&[]), Err(CodecError::InvalidLength));
    assert_eq!(decode_compact(&[0x01]), Err(CodecError::InvalidLength));
    assert_eq!(decode_compact(&[0x02, 0x00]), Err(CodecError::InvalidLength));
    assert_eq!(decode_compact(&[0x03, 0x00, 0x00, 0x00]), Err(CodecError::InvalidLength));
}

#[test]
fn compact_unrecognized_mode_byte() {
    // Low bits 11 but high bits set: a payload length the codec does not know.
    assert_eq!(decode_compact(&[0x07, 0x00, 0x00, 0x00, 0x00]), Err(CodecError::InvalidTag));
    assert_eq!(decode_compact(&[0xff]), Err(CodecError::InvalidTag));
}

#[test]
fn string_short_buffers() {
    assert_eq!(decode_string(&[]), Err(CodecError::InvalidLength));
    // Declared length 5, only 2 payload bytes follow.
    assert_eq!(decode_string(&[0x14, 0x61, 0x62]), Err(CodecError::InvalidLength));
}

#[test]
fn string_invalid_utf8() {
    // Declared length 1, payload 0xff: not UTF-8.
    assert_eq!(decode_string(&[0x04, 0xff]), Err(CodecError::InvalidEncoding));
    // A lone continuation byte is not UTF-8 either.
    assert_eq!(decode_string(&[0x08, 0x80, 0x80]), Err(CodecError::InvalidEncoding));
}

#[test]
fn address_overflow() {
    let s = format!("0x{}", "f".repeat(41));
    assert_eq!(encode_address(&s), Err(CodecError::InvalidAddressFormat));
    let no_prefix = "f".repeat(41);
    assert_eq!(encode_address(&no_prefix), Err(CodecError::InvalidAddressFormat));
}

#[test]
fn address_at_length_limits() {
    assert!(encode_address(&"f".repeat(40)).is_ok());
    assert!(encode_address(&format!("0x{}", "f".repeat(40))).is_ok());
    assert_eq!(encode_address(&"f".repeat(41)), Err(CodecError::InvalidAddressFormat));
}

#[test]
fn address_invalid_digit() {
    assert_eq!(encode_address("0xzz"), Err(CodecError::InvalidAddressFormat));
    assert_eq!(encode_address("12g4"), Err(CodecError::InvalidAddressFormat));
}

#[test]
fn address_non_ascii() {
    assert_eq!(encode_address("0xcaf\u{e9}"), Err(CodecError::InvalidAddressFormat));
}

#[test]
fn address_short_buffer() {
    assert_eq!(decode_address(&[0u8; 19]), Err(CodecError::InvalidLength));
}
