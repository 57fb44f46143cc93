use scale_codec::{
    decode_address, decode_bool, decode_compact, decode_i16, decode_i32, decode_i8, decode_string,
    decode_u16, decode_u32, decode_u8, encode_address, encode_bool, encode_compact, encode_i16,
    encode_i32, encode_i8, encode_string, encode_u16, encode_u32, encode_u8,
};

#[test]
fn bool_round_trip() {
    assert_eq!(encode_bool(false), vec![0x00]);
    assert_eq!(encode_bool(true), vec![0x01]);
    assert_eq!(decode_bool(&encode_bool(false)), Ok((false, 1)));
    assert_eq!(decode_bool(&encode_bool(true)), Ok((true, 1)));
}

#[test]
fn u8_round_trip() {
    for v in [0u8, 1, 5, 127, 128, 255] {
        let bytes = encode_u8(v);
        assert_eq!(bytes, vec![v]);
        assert_eq!(decode_u8(&bytes), Ok((v, 1)));
    }
}

#[test]
fn u16_round_trip() {
    assert_eq!(encode_u16(0x1234), vec![0x34, 0x12]);
    for v in [0u16, 1, 255, 256, 300, 0x1234, u16::MAX] {
        assert_eq!(decode_u16(&encode_u16(v)), Ok((v, 2)));
    }
}

#[test]
fn u32_round_trip() {
    assert_eq!(encode_u32(0x1234_5678), vec![0x78, 0x56, 0x34, 0x12]);
    for v in [0u32, 1, 255, 65536, 0x1234_5678, u32::MAX] {
        assert_eq!(decode_u32(&encode_u32(v)), Ok((v, 4)));
    }
}

#[test]
fn i8_round_trip() {
    assert_eq!(encode_i8(-1), vec![0xff]);
    assert_eq!(encode_i8(i8::MIN), vec![0x80]);
    for v in [i8::MIN, -1, 0, 1, i8::MAX] {
        assert_eq!(decode_i8(&encode_i8(v)), Ok((v, 1)));
    }
}

#[test]
fn i16_round_trip() {
    assert_eq!(encode_i16(-2), vec![0xfe, 0xff]);
    assert_eq!(encode_i16(i16::MIN), vec![0x00, 0x80]);
    for v in [i16::MIN, -300, -1, 0, 1, 300, i16::MAX] {
        assert_eq!(decode_i16(&encode_i16(v)), Ok((v, 2)));
    }
}

#[test]
fn i32_round_trip() {
    assert_eq!(encode_i32(-2), vec![0xfe, 0xff, 0xff, 0xff]);
    assert_eq!(encode_i32(i32::MIN), vec![0x00, 0x00, 0x00, 0x80]);
    for v in [i32::MIN, -70000, -1, 0, 1, 70000, i32::MAX] {
        assert_eq!(decode_i32(&encode_i32(v)), Ok((v, 4)));
    }
}

#[test]
fn compact_mode_0() {
    assert_eq!(encode_compact(0), vec![0x00]);
    assert_eq!(encode_compact(1), vec![0x04]);
    assert_eq!(encode_compact(63), vec![0xfc]);
    assert_eq!(decode_compact(&[0x04]), Ok((1, 1)));
}

#[test]
fn compact_mode_1() {
    assert_eq!(encode_compact(64), vec![0x01, 0x01]);
    assert_eq!(encode_compact(300), vec![0xb1, 0x04]);
    assert_eq!(encode_compact(16383), vec![0xfd, 0xff]);
    assert_eq!(decode_compact(&[0xb1, 0x04]), Ok((300, 2)));
}

#[test]
fn compact_mode_2() {
    assert_eq!(encode_compact(16384), vec![0x02, 0x00, 0x01, 0x00]);
    assert_eq!(encode_compact(0x3fff_ffff), vec![0xfe, 0xff, 0xff, 0xff]);
    assert_eq!(decode_compact(&[0x02, 0x00, 0x01, 0x00]), Ok((16384, 4)));
}

#[test]
fn compact_mode_3() {
    assert_eq!(encode_compact(0x4000_0000), vec![0x03, 0x00, 0x00, 0x00, 0x40]);
    assert_eq!(encode_compact(u32::MAX), vec![0x03, 0xff, 0xff, 0xff, 0xff]);
    assert_eq!(decode_compact(&[0x03, 0x00, 0x00, 0x00, 0x40]), Ok((0x4000_0000, 5)));
}

#[test]
fn compact_round_trip_all_modes() {
    for v in [0u32, 1, 63, 64, 300, 16383, 16384, 0x3fff_ffff, 0x4000_0000, u32::MAX] {
        let bytes = encode_compact(v);
        let width = if v < 64 {
            1
        } else if v < 16384 {
            2
        } else if v < 0x4000_0000 {
            4
        } else {
            5
        };
        assert_eq!(bytes.len() as u32, width);
        assert_eq!(decode_compact(&bytes), Ok((v, width)));
    }
}

#[test]
fn compact_minimality_at_boundaries() {
    assert_eq!(encode_compact(63).len(), 1);
    assert_eq!(encode_compact(64).len(), 2);
    assert_eq!(encode_compact(16383).len(), 2);
    assert_eq!(encode_compact(16384).len(), 4);
    assert_eq!(encode_compact(0x3fff_ffff).len(), 4);
    assert_eq!(encode_compact(0x4000_0000).len(), 5);
}

#[test]
fn string_empty() {
    let bytes = encode_string("").unwrap();
    assert_eq!(bytes, vec![0x00]);
    let (value, take) = decode_string(&bytes).unwrap();
    assert_eq!(value, "");
    assert_eq!(take, 1);
}

#[test]
fn string_ascii_round_trip() {
    let bytes = encode_string("hello").unwrap();
    let mut expected = vec![0x14];
    expected.extend_from_slice(b"hello");
    assert_eq!(bytes, expected);
    let (value, take) = decode_string(&bytes).unwrap();
    assert_eq!(value, "hello");
    assert_eq!(take, 6);
}

#[test]
fn string_multibyte_round_trip() {
    let s = "caf\u{e9} \u{2603}";
    let bytes = encode_string(s).unwrap();
    let byte_len = s.len() as u32;
    let (value, take) = decode_string(&bytes).unwrap();
    assert_eq!(value, s);
    assert_eq!(take, 1 + byte_len);
}

#[test]
fn address_padding_matches_full_form() {
    let short = encode_address("0x1").unwrap();
    let full = encode_address("0x0000000000000000000000000000000000000001").unwrap();
    assert_eq!(short, full);
    let mut expected = vec![0u8; 20];
    expected[19] = 1;
    assert_eq!(short, expected);
    let (value, take) = decode_address(&short).unwrap();
    assert_eq!(value, "0x0000000000000000000000000000000000000001");
    assert_eq!(take, 20);
}

#[test]
fn address_no_prefix_and_upper_prefix() {
    let a = encode_address("ff").unwrap();
    let b = encode_address("0Xff").unwrap();
    assert_eq!(a, b);
    let mut expected = vec![0u8; 20];
    expected[19] = 0xff;
    assert_eq!(a, expected);
}

#[test]
fn address_mixed_case_digits() {
    let bytes = encode_address("0xAbCdEf").unwrap();
    let mut expected = vec![0u8; 20];
    expected[17] = 0xab;
    expected[18] = 0xcd;
    expected[19] = 0xef;
    assert_eq!(bytes, expected);
    let (value, _) = decode_address(&bytes).unwrap();
    assert_eq!(value, "0x0000000000000000000000000000000000abcdef");
}

#[test]
fn address_empty_string_is_zero() {
    let a = encode_address("").unwrap();
    let b = encode_address("0x").unwrap();
    assert_eq!(a, vec![0u8; 20]);
    assert_eq!(b, vec![0u8; 20]);
}

#[test]
fn address_full_round_trip() {
    let s = "0x00112233445566778899aabbccddeeff00112233";
    let bytes = encode_address(s).unwrap();
    assert_eq!(
        bytes,
        vec![
            0x00, 0x11, 0x22, 0x33, 0x44, 0x55, 0x66, 0x77, 0x88, 0x99, 0xaa, 0xbb, 0xcc, 0xdd,
            0xee, 0xff, 0x00, 0x11, 0x22, 0x33
        ]
    );
    let (value, take) = decode_address(&bytes).unwrap();
    assert_eq!(value, s);
    assert_eq!(take, 20);
}

#[test]
fn sequential_decode() {
    let mut buffer = encode_u8(5);
    buffer.extend(encode_u16(300));
    let (first, take1) = decode_u8(&buffer).unwrap();
    assert_eq!(first, 5);
    assert_eq!(take1, 1);
    let (second, take2) = decode_u16(&buffer[take1 as usize..]).unwrap();
    assert_eq!(second, 300);
    assert_eq!(take2, 2);
}

#[test]
fn decode_consumes_prefix_only() {
    let mut buffer = encode_compact(300);
    buffer.extend_from_slice(&[0xde, 0xad]);
    assert_eq!(decode_compact(&buffer), Ok((300, 2)));
    let mut long = encode_u32(7);
    long.extend_from_slice(&[0x99]);
    assert_eq!(decode_u32(&long), Ok((7, 4)));
}
