//! The compact (variable-length) codec for unsigned 32-bit integers.
//!
//! A value is encoded in the smallest of four modes, tagged in the low two
//! bits of the first byte:
//! - mode 0: values 0..=63, one byte holding `value * 4`;
//! - mode 1: values 64..=16383, two little-endian bytes holding
//!   `value * 4 + 1`;
//! - mode 2: values 16384..=2^30-1, four little-endian bytes holding
//!   `value * 4 + 2`;
//! - mode 3: larger values, the byte `0b0000_0011` followed by the value as
//!   four little-endian bytes.

use crate::error::CodecError;
use crate::primitives::{u16_from_le, u16_le_bytes, u32_from_le, u32_le_bytes};
use vstd::prelude::*;

verus! {

/// The number of bytes in the compact encoding of `v`.
pub open spec fn compact_width(v: u32) -> u32 {
    if v < 64 {
        1u32
    } else if v < 16384 {
        2u32
    } else if v < 0x4000_0000 {
        4u32
    } else {
        5u32
    }
}

/// The mode tag (low two bits of the first byte) that the compact encoding
/// of `v` uses.
pub open spec fn compact_mode(v: u32) -> u32 {
    if v < 64 {
        0u32
    } else if v < 16384 {
        1u32
    } else if v < 0x4000_0000 {
        2u32
    } else {
        3u32
    }
}

/// The largest value that the given compact mode can represent.
pub open spec fn compact_mode_max(mode: u32) -> u32
    recommends
        mode < 4,
{
    if mode == 0 {
        63u32
    } else if mode == 1 {
        16383u32
    } else if mode == 2 {
        0x3fff_ffffu32
    } else {
        0xffff_ffffu32
    }
}

/// The compact encoding of `v`: the smallest mode that can represent it.
pub open spec fn compact_bytes(v: u32) -> Seq<u8> {
    if v < 64 {
        seq![(v * 4) as u8]
    } else if v < 16384 {
        u16_le_bytes((v * 4 + 1) as u16)
    } else if v < 0x4000_0000 {
        u32_le_bytes((v * 4 + 2) as u32)
    } else {
        seq![3u8] + u32_le_bytes(v)
    }
}

/// What decoding a compact integer from a prefix of `buf` yields. The low
/// two bits of the first byte select the mode; a mode-3 first byte with any
/// of its high six bits set is an unrecognized tag.
pub open spec fn compact_decoded(buf: Seq<u8>) -> Result<(u32, u32), CodecError> {
    if buf.len() < 1 {
        Err(CodecError::InvalidLength)
    } else {
        let tag = buf[0];
        if tag % 4 == 0 {
            Ok(((tag / 4) as u32, 1u32))
        } else if tag % 4 == 1 {
            if buf.len() < 2 {
                Err(CodecError::InvalidLength)
            } else {
                Ok(((u16_from_le(buf) / 4) as u32, 2u32))
            }
        } else if tag % 4 == 2 {
            if buf.len() < 4 {
                Err(CodecError::InvalidLength)
            } else {
                Ok((u32_from_le(buf) / 4, 4u32))
            }
        } else {
            if tag != 3 {
                Err(CodecError::InvalidTag)
            } else if buf.len() < 5 {
                Err(CodecError::InvalidLength)
            } else {
                Ok((u32_from_le(buf.subrange(1, 5)), 5u32))
            }
        }
    }
}

/// Encodes `v` in the smallest compact mode that can represent it.
pub fn encode_compact(v: u32) -> (r: Vec<u8>)
    ensures
        r@ == compact_bytes(v),
{
    if v < 64 {
        let mut out: Vec<u8> = Vec::new();
        out.push((v * 4) as u8);
        proof {
            assert(out@ =~= compact_bytes(v));
        }
        out
    } else if v < 16384 {
        crate::primitives::encode_u16((v * 4 + 1) as u16)
    } else if v < 0x4000_0000 {
        crate::primitives::encode_u32(v * 4 + 2)
    } else {
        let mut out: Vec<u8> = Vec::new();
        out.push(3u8);
        let mut tail = crate::primitives::encode_u32(v);
        out.append(&mut tail);
        proof {
            assert(out@ =~= compact_bytes(v));
        }
        out
    }
}

/// Decodes a compact integer from a prefix of `buf`, reporting 1, 2, 4, or
/// 5 bytes consumed depending on the mode of the first byte.
pub fn decode_compact(buf: &[u8]) -> (r: Result<(u32, u32), CodecError>)
    ensures
        r == compact_decoded(buf@),
{
    if buf.len() < 1 {
        return Err(CodecError::InvalidLength);
    }
    let tag = buf[0];
    let mode = tag % 4;
    if mode == 0 {
        Ok(((tag / 4) as u32, 1))
    } else if mode == 1 {
        if buf.len() < 2 {
            Err(CodecError::InvalidLength)
        } else {
            let w: u16 = buf[0] as u16 + (buf[1] as u16) * 256;
            Ok(((w / 4) as u32, 2))
        }
    } else if mode == 2 {
        if buf.len() < 4 {
            Err(CodecError::InvalidLength)
        } else {
            let w: u32 = buf[0] as u32 + (buf[1] as u32) * 256 + (buf[2] as u32) * 65536 + (buf[3]
                as u32) * 16777216;
            Ok((w / 4, 4))
        }
    } else {
        if tag != 3 {
            Err(CodecError::InvalidTag)
        } else if buf.len() < 5 {
            Err(CodecError::InvalidLength)
        } else {
            let v: u32 = buf[1] as u32 + (buf[2] as u32) * 256 + (buf[3] as u32) * 65536 + (buf[4]
                as u32) * 16777216;
            proof {
                let sub = buf@.subrange(1, 5);
                assert(sub[0] == buf@[1] && sub[1] == buf@[2] && sub[2] == buf@[3] && sub[3]
                    == buf@[4]);
            }
            Ok((v, 5))
        }
    }
}

/// A number of the form `v * 4 + m` with `m < 4` has `m` in its low two
/// bits, `v` above them, and keeps its low two bits under `% 256`.
proof fn lemma_mode_tag_arith(t: int, v: int, m: int)
    requires
        0 <= v,
        0 <= m < 4,
        t == v * 4 + m,
    ensures
        t % 4 == m,
        t / 4 == v,
        (t % 256) % 4 == m,
{
    vstd::arithmetic::div_mod::lemma_fundamental_div_mod_converse_mod(t, 4, v, m);
    vstd::arithmetic::div_mod::lemma_fundamental_div_mod_converse_div(t, 4, v, m);
    let q = t / 256;
    let r = t % 256;
    vstd::arithmetic::div_mod::lemma_fundamental_div_mod(t, 256);
    vstd::arithmetic::div_mod::lemma_mod_bound(t, 256);
    assert(r == (v - 64 * q) * 4 + m);
    vstd::arithmetic::div_mod::lemma_fundamental_div_mod_converse_mod(r, 4, v - 64 * q, m);
}

/// Decoding any buffer that starts with the compact encoding of `v` returns
/// `v` and consumes exactly `compact_width(v)` bytes: 1 for values below 64,
/// 2 below 16384, 4 below 2^30, and 5 otherwise.
pub proof fn lemma_compact_round_trip(v: u32, rest: Seq<u8>)
    ensures
        compact_decoded(compact_bytes(v) + rest) == Ok::<(u32, u32), CodecError>(
            (v, compact_width(v)),
        ),
{
    let b = compact_bytes(v) + rest;
    if v < 64 {
        assert(b[0] == (v * 4) as u8);
        lemma_mode_tag_arith(v * 4, v as int, 0);
    } else if v < 16384 {
        let w = (v * 4 + 1) as u16;
        assert(b[0] == w % 256 && b[1] == w / 256);
        assert(u16_from_le(b) == w);
        lemma_mode_tag_arith(w as int, v as int, 1);
    } else if v < 0x4000_0000 {
        let w = (v * 4 + 2) as u32;
        assert(b[0] == w % 256 && b[1] == (w / 256) % 256 && b[2] == (w / 65536) % 256 && b[3] == w
            / 16777216);
        assert(u32_from_le(b) == w);
        lemma_mode_tag_arith(w as int, v as int, 2);
    } else {
        assert(b[0] == 3u8);
        let sub = b.subrange(1, 5);
        assert(sub =~= u32_le_bytes(v));
        assert(u32_from_le(u32_le_bytes(v)) == v) by {
            let s = u32_le_bytes(v);
            assert(s[0] == v % 256 && s[1] == (v / 256) % 256 && s[2] == (v / 65536) % 256 && s[3]
                == v / 16777216);
        }
    }
}

/// The compact encoding never uses a larger mode than necessary: the mode
/// tag in the first byte is `compact_mode(v)`, that mode can represent `v`,
/// and every smaller mode cannot.
pub proof fn lemma_compact_minimal(v: u32)
    ensures
        compact_bytes(v).len() == compact_width(v),
        compact_bytes(v)[0] % 4 == compact_mode(v),
        v <= compact_mode_max(compact_mode(v)),
        forall|m: u32| m < compact_mode(v) ==> v > compact_mode_max(m),
{
    if v < 64 {
        lemma_mode_tag_arith(v * 4, v as int, 0);
    } else if v < 16384 {
        lemma_mode_tag_arith((v * 4 + 1) as u16 as int, v as int, 1);
    } else if v < 0x4000_0000 {
        lemma_mode_tag_arith((v * 4 + 2) as u32 as int, v as int, 2);
    }
}

} // verus!
