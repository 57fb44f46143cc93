//! The string codec: a compact-encoded byte length followed by the string's
//! raw UTF-8 bytes.
//!
//! Decoding reads the compact length, consumes exactly that many further
//! bytes, and validates them as UTF-8; the reported consumption is the
//! compact field's width plus the byte length.

use crate::compact::{compact_bytes, compact_decoded, compact_width, decode_compact,
    encode_compact};
use crate::error::CodecError;
use vstd::prelude::*;
use vstd::slice::{slice_subrange, slice_to_vec};
use vstd::string::StrSliceExecFns;
use vstd::utf8::{decode_utf8, encode_utf8, valid_utf8};

verus! {

/// The encoding of the character sequence `s`: the compact encoding of its
/// UTF-8 byte length, then its UTF-8 bytes.
pub open spec fn string_bytes(s: Seq<char>) -> Seq<u8>
    recommends
        encode_utf8(s).len() <= u32::MAX,
{
    compact_bytes(encode_utf8(s).len() as u32) + encode_utf8(s)
}

/// What decoding a string from a prefix of `buf` yields: a compact length
/// `n` (consuming `k` bytes), then `n` bytes that must be valid UTF-8.
pub open spec fn string_decoded(buf: Seq<u8>) -> Result<(Seq<char>, u32), CodecError> {
    match compact_decoded(buf) {
        Err(e) => Err(e),
        Ok((n, k)) => {
            if buf.len() - k < n {
                Err(CodecError::InvalidLength)
            } else {
                let payload = buf.subrange(k as int, k + n);
                if valid_utf8(payload) {
                    Ok((decode_utf8(payload), (k + n) as u32))
                } else {
                    Err(CodecError::InvalidEncoding)
                }
            }
        },
    }
}

/// Relies on `String::from_utf8`: it returns `Ok` exactly when the bytes
/// are a valid UTF-8 encoding, and the returned string is the one whose
/// UTF-8 encoding is those bytes.
#[verifier::external_body]
fn vec_to_string(bytes: Vec<u8>) -> (r: Option<String>)
    ensures
        r is Some <==> valid_utf8(bytes@),
        r is Some ==> encode_utf8(r.unwrap()@) == bytes@,
{
    match String::from_utf8(bytes) {
        Ok(s) => Some(s),
        Err(_) => None,
    }
}

/// Encodes `s` as its compact-encoded UTF-8 byte length followed by its
/// UTF-8 bytes. Fails only when the byte length does not fit the compact
/// encoding's 32-bit range.
pub fn encode_string(s: &str) -> (r: Result<Vec<u8>, CodecError>)
    ensures
        encode_utf8(s@).len() <= u32::MAX ==> (r matches Ok(out) && out@ == string_bytes(s@)),
        encode_utf8(s@).len() > u32::MAX ==> r == Err::<Vec<u8>, CodecError>(
            CodecError::NumericOverflow,
        ),
{
    let mut payload = s.as_bytes_vec();
    if payload.len() > u32::MAX as usize {
        return Err(CodecError::NumericOverflow);
    }
    let mut out = encode_compact(payload.len() as u32);
    out.append(&mut payload);
    Ok(out)
}

/// Decodes a string from a prefix of `buf`: reads a compact byte length,
/// then exactly that many bytes as UTF-8. Reports the compact field's width
/// plus the byte length as consumed.
pub fn decode_string(buf: &[u8]) -> (r: Result<(String, u32), CodecError>)
    requires
        buf@.len() <= u32::MAX,
    ensures
        string_decoded(buf@) matches Ok(d) ==> (r matches Ok(out) && out.0@ == d.0 && out.1
            == d.1),
        string_decoded(buf@) matches Err(e) ==> r == Err::<(String, u32), CodecError>(e),
{
    let (n, k) = match decode_compact(buf) {
        Ok(p) => p,
        Err(e) => {
            return Err(e);
        },
    };
    proof {
        assert(k == 1 || k == 2 || k == 4 || k == 5);
        assert(k <= buf@.len());
    }
    if buf.len() - (k as usize) < (n as usize) {
        return Err(CodecError::InvalidLength);
    }
    let payload = slice_subrange(buf, k as usize, k as usize + n as usize);
    let bytes = slice_to_vec(payload);
    match vec_to_string(bytes) {
        Some(s) => {
            proof {
                vstd::utf8::decode_utf8_encode_utf8(payload@);
                vstd::utf8::encode_utf8_decode_utf8(s@);
            }
            Ok((s, k + n))
        },
        None => Err(CodecError::InvalidEncoding),
    }
}

/// Decoding any buffer that starts with the encoding of `s` returns `s` and
/// consumes the compact width of the byte length plus the byte length.
pub proof fn lemma_string_round_trip(s: Seq<char>, rest: Seq<u8>)
    requires
        encode_utf8(s).len() <= u32::MAX,
    ensures
        string_decoded(string_bytes(s) + rest) == Ok::<(Seq<char>, u32), CodecError>(
            (s, (compact_width(encode_utf8(s).len() as u32) + encode_utf8(s).len()) as u32),
        ),
{
    let u = encode_utf8(s);
    let n = u.len() as u32;
    let b = string_bytes(s) + rest;
    crate::compact::lemma_compact_round_trip(n, u + rest);
    assert(b =~= compact_bytes(n) + (u + rest));
    let k = compact_width(n);
    assert(b.subrange(k as int, k + n) =~= u);
    vstd::utf8::encode_utf8_valid_utf8(s);
    vstd::utf8::encode_utf8_decode_utf8(s);
}

} // verus!
