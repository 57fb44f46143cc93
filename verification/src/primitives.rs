//! Codecs for booleans and fixed-width integers.
//!
//! A boolean encodes to one byte (`0x00` or `0x01`). An integer encodes to
//! its fixed little-endian byte width; signed types use two's complement.
//! Decoding consumes exactly the type's width and fails with
//! [`CodecError::InvalidLength`] on a shorter buffer.

use crate::error::CodecError;
use vstd::prelude::*;

verus! {

/// The one-byte encoding of a boolean: `0x00` for false, `0x01` for true.
pub open spec fn bool_bytes(b: bool) -> Seq<u8> {
    if b {
        seq![1u8]
    } else {
        seq![0u8]
    }
}

/// What decoding a boolean from a prefix of `buf` yields.
pub open spec fn bool_decoded(buf: Seq<u8>) -> Result<(bool, u32), CodecError> {
    if buf.len() < 1 {
        Err(CodecError::InvalidLength)
    } else if buf[0] == 0u8 {
        Ok((false, 1u32))
    } else if buf[0] == 1u8 {
        Ok((true, 1u32))
    } else {
        Err(CodecError::InvalidTag)
    }
}

/// Encodes a boolean as a single byte.
pub fn encode_bool(b: bool) -> (r: Vec<u8>)
    ensures
        r@ == bool_bytes(b),
{
    let mut out: Vec<u8> = Vec::new();
    out.push(if b { 1 } else { 0 });
    proof {
        assert(out@ =~= bool_bytes(b));
    }
    out
}

/// Decodes a boolean from the first byte of `buf`, reporting one byte
/// consumed. Any leading byte other than 0 or 1 is an invalid tag.
pub fn decode_bool(buf: &[u8]) -> (r: Result<(bool, u32), CodecError>)
    ensures
        r == bool_decoded(buf@),
{
    if buf.len() < 1 {
        Err(CodecError::InvalidLength)
    } else {
        let b = buf[0];
        if b == 0 {
            Ok((false, 1))
        } else if b == 1 {
            Ok((true, 1))
        } else {
            Err(CodecError::InvalidTag)
        }
    }
}

/// Decoding any buffer that starts with the encoding of `b` returns `b`
/// and consumes exactly one byte.
pub proof fn lemma_bool_round_trip(b: bool, rest: Seq<u8>)
    ensures
        bool_decoded(bool_bytes(b) + rest) == Ok::<(bool, u32), CodecError>((b, 1u32)),
{
}

/// The one-byte encoding of a `u8`: the value itself.
pub open spec fn u8_bytes(v: u8) -> Seq<u8> {
    seq![v]
}

/// The two-byte little-endian encoding of a `u16`.
pub open spec fn u16_le_bytes(v: u16) -> Seq<u8> {
    seq![(v % 256) as u8, (v / 256) as u8]
}

/// The `u16` whose little-endian encoding is the first two bytes of `b`.
pub open spec fn u16_from_le(b: Seq<u8>) -> u16
    recommends
        b.len() >= 2,
{
    (b[0] + b[1] * 256) as u16
}

/// The four-byte little-endian encoding of a `u32`.
pub open spec fn u32_le_bytes(v: u32) -> Seq<u8> {
    seq![
        (v % 256) as u8,
        ((v / 256) % 256) as u8,
        ((v / 65536) % 256) as u8,
        (v / 16777216) as u8,
    ]
}

/// The `u32` whose little-endian encoding is the first four bytes of `b`.
pub open spec fn u32_from_le(b: Seq<u8>) -> u32
    recommends
        b.len() >= 4,
{
    (b[0] + b[1] * 256 + b[2] * 65536 + b[3] * 16777216) as u32
}

/// The byte holding the two's-complement bit pattern of an `i8`.
pub open spec fn i8_to_bits(v: i8) -> u8 {
    if v >= 0 {
        v as u8
    } else {
        (v + 256) as u8
    }
}

/// The `i8` whose two's-complement bit pattern is `b`.
pub open spec fn i8_from_bits(b: u8) -> i8 {
    if b < 128 {
        b as i8
    } else {
        (b - 256) as i8
    }
}

/// The `u16` holding the two's-complement bit pattern of an `i16`.
pub open spec fn i16_to_bits(v: i16) -> u16 {
    if v >= 0 {
        v as u16
    } else {
        (v + 65536) as u16
    }
}

/// The `i16` whose two's-complement bit pattern is `b`.
pub open spec fn i16_from_bits(b: u16) -> i16 {
    if b < 32768 {
        b as i16
    } else {
        (b - 65536) as i16
    }
}

/// The `u32` holding the two's-complement bit pattern of an `i32`.
pub open spec fn i32_to_bits(v: i32) -> u32 {
    if v >= 0 {
        v as u32
    } else {
        (v + 0x1_0000_0000) as u32
    }
}

/// The `i32` whose two's-complement bit pattern is `b`.
pub open spec fn i32_from_bits(b: u32) -> i32 {
    if b < 0x8000_0000 {
        b as i32
    } else {
        (b - 0x1_0000_0000) as i32
    }
}

/// What decoding a `u8` from a prefix of `buf` yields.
pub open spec fn u8_decoded(buf: Seq<u8>) -> Result<(u8, u32), CodecError> {
    if buf.len() < 1 {
        Err(CodecError::InvalidLength)
    } else {
        Ok((buf[0], 1u32))
    }
}

/// What decoding a `u16` from a prefix of `buf` yields.
pub open spec fn u16_decoded(buf: Seq<u8>) -> Result<(u16, u32), CodecError> {
    if buf.len() < 2 {
        Err(CodecError::InvalidLength)
    } else {
        Ok((u16_from_le(buf), 2u32))
    }
}

/// What decoding a `u32` from a prefix of `buf` yields.
pub open spec fn u32_decoded(buf: Seq<u8>) -> Result<(u32, u32), CodecError> {
    if buf.len() < 4 {
        Err(CodecError::InvalidLength)
    } else {
        Ok((u32_from_le(buf), 4u32))
    }
}

/// What decoding an `i8` from a prefix of `buf` yields.
pub open spec fn i8_decoded(buf: Seq<u8>) -> Result<(i8, u32), CodecError> {
    if buf.len() < 1 {
        Err(CodecError::InvalidLength)
    } else {
        Ok((i8_from_bits(buf[0]), 1u32))
    }
}

/// What decoding an `i16` from a prefix of `buf` yields.
pub open spec fn i16_decoded(buf: Seq<u8>) -> Result<(i16, u32), CodecError> {
    if buf.len() < 2 {
        Err(CodecError::InvalidLength)
    } else {
        Ok((i16_from_bits(u16_from_le(buf)), 2u32))
    }
}

/// What decoding an `i32` from a prefix of `buf` yields.
pub open spec fn i32_decoded(buf: Seq<u8>) -> Result<(i32, u32), CodecError> {
    if buf.len() < 4 {
        Err(CodecError::InvalidLength)
    } else {
        Ok((i32_from_bits(u32_from_le(buf)), 4u32))
    }
}

/// Encodes a `u8` as one byte.
pub fn encode_u8(v: u8) -> (r: Vec<u8>)
    ensures
        r@ == u8_bytes(v),
{
    let mut out: Vec<u8> = Vec::new();
    out.push(v);
    proof {
        assert(out@ =~= u8_bytes(v));
    }
    out
}

/// Encodes a `u16` as two little-endian bytes.
pub fn encode_u16(v: u16) -> (r: Vec<u8>)
    ensures
        r@ == u16_le_bytes(v),
{
    let mut out: Vec<u8> = Vec::new();
    out.push((v % 256) as u8);
    out.push((v / 256) as u8);
    proof {
        assert(out@ =~= u16_le_bytes(v));
    }
    out
}

/// Encodes a `u32` as four little-endian bytes.
pub fn encode_u32(v: u32) -> (r: Vec<u8>)
    ensures
        r@ == u32_le_bytes(v),
{
    let mut out: Vec<u8> = Vec::new();
    out.push((v % 256) as u8);
    out.push(((v / 256) % 256) as u8);
    out.push(((v / 65536) % 256) as u8);
    out.push((v / 16777216) as u8);
    proof {
        assert(out@ =~= u32_le_bytes(v));
    }
    out
}

/// Encodes an `i8` as its two's-complement byte.
pub fn encode_i8(v: i8) -> (r: Vec<u8>)
    ensures
        r@ == seq![i8_to_bits(v)],
{
    let bits: u8 = if v >= 0 {
        v as u8
    } else {
        ((v as i16) + 256) as u8
    };
    let mut out: Vec<u8> = Vec::new();
    out.push(bits);
    proof {
        assert(out@ =~= seq![i8_to_bits(v)]);
    }
    out
}

/// Encodes an `i16` as two little-endian two's-complement bytes.
pub fn encode_i16(v: i16) -> (r: Vec<u8>)
    ensures
        r@ == u16_le_bytes(i16_to_bits(v)),
{
    let bits: u16 = if v >= 0 {
        v as u16
    } else {
        ((v as i32) + 65536) as u16
    };
    encode_u16(bits)
}

/// Encodes an `i32` as four little-endian two's-complement bytes.
pub fn encode_i32(v: i32) -> (r: Vec<u8>)
    ensures
        r@ == u32_le_bytes(i32_to_bits(v)),
{
    let bits: u32 = if v >= 0 {
        v as u32
    } else {
        ((v as i64) + 0x1_0000_0000) as u32
    };
    encode_u32(bits)
}

/// Decodes a `u8` from the first byte of `buf`, reporting one byte consumed.
pub fn decode_u8(buf: &[u8]) -> (r: Result<(u8, u32), CodecError>)
    ensures
        r == u8_decoded(buf@),
{
    if buf.len() < 1 {
        Err(CodecError::InvalidLength)
    } else {
        Ok((buf[0], 1))
    }
}

/// Decodes a `u16` from the first two bytes of `buf`, reporting two bytes
/// consumed.
pub fn decode_u16(buf: &[u8]) -> (r: Result<(u16, u32), CodecError>)
    ensures
        r == u16_decoded(buf@),
{
    if buf.len() < 2 {
        Err(CodecError::InvalidLength)
    } else {
        let v: u16 = buf[0] as u16 + (buf[1] as u16) * 256;
        Ok((v, 2))
    }
}

/// Decodes a `u32` from the first four bytes of `buf`, reporting four bytes
/// consumed.
pub fn decode_u32(buf: &[u8]) -> (r: Result<(u32, u32), CodecError>)
    ensures
        r == u32_decoded(buf@),
{
    if buf.len() < 4 {
        Err(CodecError::InvalidLength)
    } else {
        let v: u32 = buf[0] as u32 + (buf[1] as u32) * 256 + (buf[2] as u32) * 65536 + (buf[3]
            as u32) * 16777216;
        Ok((v, 4))
    }
}

/// Decodes an `i8` from the first byte of `buf`, reporting one byte consumed.
pub fn decode_i8(buf: &[u8]) -> (r: Result<(i8, u32), CodecError>)
    ensures
        r == i8_decoded(buf@),
{
    if buf.len() < 1 {
        Err(CodecError::InvalidLength)
    } else {
        let b = buf[0];
        let v: i8 = if b < 128 {
            b as i8
        } else {
            ((b as i16) - 256) as i8
        };
        Ok((v, 1))
    }
}

/// Decodes an `i16` from the first two bytes of `buf`, reporting two bytes
/// consumed.
pub fn decode_i16(buf: &[u8]) -> (r: Result<(i16, u32), CodecError>)
    ensures
        r == i16_decoded(buf@),
{
    if buf.len() < 2 {
        Err(CodecError::InvalidLength)
    } else {
        let bits: u16 = buf[0] as u16 + (buf[1] as u16) * 256;
        let v: i16 = if bits < 32768 {
            bits as i16
        } else {
            ((bits as i32) - 65536) as i16
        };
        Ok((v, 2))
    }
}

/// Decodes an `i32` from the first four bytes of `buf`, reporting four bytes
/// consumed.
pub fn decode_i32(buf: &[u8]) -> (r: Result<(i32, u32), CodecError>)
    ensures
        r == i32_decoded(buf@),
{
    if buf.len() < 4 {
        Err(CodecError::InvalidLength)
    } else {
        let bits: u32 = buf[0] as u32 + (buf[1] as u32) * 256 + (buf[2] as u32) * 65536 + (buf[3]
            as u32) * 16777216;
        let v: i32 = if bits < 0x8000_0000 {
            bits as i32
        } else {
            ((bits as i64) - 0x1_0000_0000) as i32
        };
        Ok((v, 4))
    }
}

/// Decoding any buffer that starts with the encoding of `v` returns `v`
/// and consumes exactly one byte.
pub proof fn lemma_u8_round_trip(v: u8, rest: Seq<u8>)
    ensures
        u8_decoded(u8_bytes(v) + rest) == Ok::<(u8, u32), CodecError>((v, 1u32)),
{
}

/// Decoding any buffer that starts with the encoding of `v` returns `v`
/// and consumes exactly two bytes.
pub proof fn lemma_u16_round_trip(v: u16, rest: Seq<u8>)
    ensures
        u16_decoded(u16_le_bytes(v) + rest) == Ok::<(u16, u32), CodecError>((v, 2u32)),
{
    let b = u16_le_bytes(v) + rest;
    assert(b[0] == v % 256 && b[1] == v / 256);
}

/// Decoding any buffer that starts with the encoding of `v` returns `v`
/// and consumes exactly four bytes.
pub proof fn lemma_u32_round_trip(v: u32, rest: Seq<u8>)
    ensures
        u32_decoded(u32_le_bytes(v) + rest) == Ok::<(u32, u32), CodecError>((v, 4u32)),
{
    let b = u32_le_bytes(v) + rest;
    assert(b[0] == v % 256 && b[1] == (v / 256) % 256 && b[2] == (v / 65536) % 256 && b[3] == v
        / 16777216);
}

/// Decoding any buffer that starts with the encoding of `v` returns `v`
/// and consumes exactly one byte.
pub proof fn lemma_i8_round_trip(v: i8, rest: Seq<u8>)
    ensures
        i8_decoded(seq![i8_to_bits(v)] + rest) == Ok::<(i8, u32), CodecError>((v, 1u32)),
{
}

/// Decoding any buffer that starts with the encoding of `v` returns `v`
/// and consumes exactly two bytes.
pub proof fn lemma_i16_round_trip(v: i16, rest: Seq<u8>)
    ensures
        i16_decoded(u16_le_bytes(i16_to_bits(v)) + rest) == Ok::<(i16, u32), CodecError>((v, 2u32)),
{
    lemma_u16_round_trip(i16_to_bits(v), rest);
}

/// Decoding any buffer that starts with the encoding of `v` returns `v`
/// and consumes exactly four bytes.
pub proof fn lemma_i32_round_trip(v: i32, rest: Seq<u8>)
    ensures
        i32_decoded(u32_le_bytes(i32_to_bits(v)) + rest) == Ok::<(i32, u32), CodecError>((v, 4u32)),
{
    lemma_u32_round_trip(i32_to_bits(v), rest);
}

} // verus!
