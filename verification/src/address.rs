//! The address codec: a hex string of at most 40 digits (with an optional
//! `0x`/`0X` prefix) encodes to 20 raw bytes; 20 bytes decode to a
//! 42-character lowercase `0x`-prefixed hex string.
//!
//! A shorter digit string is right-aligned into a virtual 40-digit field,
//! left-padded with zero digits, so callers may omit leading zeros.

use crate::error::CodecError;
use vstd::prelude::*;
use vstd::string::StrSliceExecFns;

verus! {

/// True for the ASCII hex digits: `0`-`9` (48..=57), `A`-`F` (65..=70),
/// `a`-`f` (97..=102).
pub open spec fn is_hex_digit(c: char) -> bool {
    (48 <= c as u32 && c as u32 <= 57) || (65 <= c as u32 && c as u32 <= 70) || (97 <= c as u32
        && c as u32 <= 102)
}

/// The numeric value (0..=15) of a hex digit, case-insensitively.
pub open spec fn hex_digit_value(c: char) -> u8
    recommends
        is_hex_digit(c),
{
    if c as u32 <= 57 {
        (c as u32 - 48) as u8
    } else if c as u32 >= 97 {
        (c as u32 - 87) as u8
    } else {
        (c as u32 - 55) as u8
    }
}

/// The lowercase hex digit character for a nibble value (0..=15).
pub open spec fn hex_char(v: u8) -> char
    recommends
        v < 16,
{
    if v < 10 {
        ((48 + v) as u8) as char
    } else {
        ((87 + v) as u8) as char
    }
}

/// The digits of `s` after an optional `0x`/`0X` prefix is stripped.
pub open spec fn strip_hex_prefix(s: Seq<char>) -> Seq<char> {
    if s.len() >= 2 && s[0] == '0' && (s[1] == 'x' || s[1] == 'X') {
        s.subrange(2, s.len() as int)
    } else {
        s
    }
}

/// True when `s` encodes as an address: after the optional prefix at most
/// 40 characters remain and every one is a hex digit. A non-ASCII character
/// is never a hex digit, so such strings are excluded here too.
pub open spec fn valid_address_string(s: Seq<char>) -> bool {
    let d = strip_hex_prefix(s);
    d.len() <= 40 && (forall|i: int| 0 <= i < d.len() ==> is_hex_digit(#[trigger] d[i]))
}

/// The nibble at virtual position `p` (0..=39) of the 40-digit field formed
/// by left-padding the digit string `d` with zero digits.
pub open spec fn address_nibble(d: Seq<char>, p: int) -> u8
    recommends
        d.len() <= 40,
        0 <= p < 40,
{
    let pad = 40 - d.len();
    if p < pad {
        0u8
    } else {
        hex_digit_value(d[p - pad])
    }
}

/// The 20 bytes encoded by the digit string `d` (at most 40 hex digits):
/// byte `i` holds the nibbles at virtual positions `2i` (high) and `2i + 1`
/// (low).
pub open spec fn address_bytes(d: Seq<char>) -> Seq<u8>
    recommends
        d.len() <= 40,
{
    Seq::new(20, |i: int| (address_nibble(d, 2 * i) * 16 + address_nibble(d, 2 * i + 1)) as u8)
}

/// The 42-character rendering of 20 address bytes: `0x`, then each byte as
/// two lowercase hex digits, high nibble first.
pub open spec fn address_chars(b: Seq<u8>) -> Seq<char>
    recommends
        b.len() == 20,
{
    seq!['0', 'x'] + Seq::new(
        40,
        |j: int|
            if j % 2 == 0 {
                hex_char(b[j / 2] / 16)
            } else {
                hex_char(b[j / 2] % 16)
            },
    )
}

/// The numeric value of a hex digit character, case-insensitively.
fn hex_digit_value_exec(c: char) -> (v: u8)
    requires
        is_hex_digit(c),
    ensures
        v == hex_digit_value(c),
{
    let u = c as u32;
    if u <= 57 {
        (u - 48) as u8
    } else if u >= 97 {
        (u - 87) as u8
    } else {
        (u - 55) as u8
    }
}

/// The lowercase hex digit character for a nibble value.
fn hex_char_exec(v: u8) -> (c: char)
    requires
        v < 16,
    ensures
        c == hex_char(v),
{
    if v < 10 {
        (48 + v) as char
    } else {
        (87 + v) as char
    }
}

/// Relies on `String`'s `FromIterator<char>` implementation: collecting
/// characters yields the string of exactly those characters in order.
#[verifier::external_body]
fn chars_to_string(chars: &Vec<char>) -> (r: String)
    ensures
        r@ == chars@,
{
    chars.iter().collect()
}

/// Encodes a hex address string as 20 raw bytes. The optional `0x`/`0X`
/// prefix is stripped; at most 40 hex digits may remain, and they are
/// right-aligned into the 20 bytes with zero padding on the left. Any other
/// string is an invalid address.
pub fn encode_address(s: &str) -> (r: Result<Vec<u8>, CodecError>)
    ensures
        valid_address_string(s@) ==> (r matches Ok(out) && out@ == address_bytes(
            strip_hex_prefix(s@),
        )),
        !valid_address_string(s@) ==> r == Err::<Vec<u8>, CodecError>(
            CodecError::InvalidAddressFormat,
        ),
{
    let len = s.unicode_len();
    let start: usize = if len >= 2 {
        let c0 = s.get_char(0);
        let c1 = s.get_char(1);
        if c0 == '0' && (c1 == 'x' || c1 == 'X') {
            2
        } else {
            0
        }
    } else {
        0
    };
    let ghost d = strip_hex_prefix(s@);
    proof {
        assert(d =~= s@.subrange(start as int, s@.len() as int));
    }
    let dlen = len - start;
    if dlen > 40 {
        return Err(CodecError::InvalidAddressFormat);
    }
    let mut j: usize = 0;
    while j < dlen
        invariant
            j <= dlen,
            start + dlen == len,
            len as nat == s@.len(),
            start == 0 || start == 2,
            dlen <= 40,
            d == strip_hex_prefix(s@),
            d =~= s@.subrange(start as int, s@.len() as int),
            forall|t: int| 0 <= t < j ==> is_hex_digit(#[trigger] d[t]),
        decreases dlen - j,
    {
        let c = s.get_char(start + j);
        let u = c as u32;
        if !((48 <= u && u <= 57) || (65 <= u && u <= 70) || (97 <= u && u <= 102)) {
            proof {
                assert(!is_hex_digit(d[j as int]));
            }
            return Err(CodecError::InvalidAddressFormat);
        }
        j += 1;
    }
    let pad: usize = 40 - dlen;
    let mut out: Vec<u8> = Vec::new();
    let mut i: usize = 0;
    while i < 20
        invariant
            i <= 20,
            out@.len() == i,
            start + dlen == len,
            len as nat == s@.len(),
            start == 0 || start == 2,
            dlen <= 40,
            pad == 40 - dlen,
            d == strip_hex_prefix(s@),
            d =~= s@.subrange(start as int, s@.len() as int),
            forall|t: int| 0 <= t < d.len() ==> is_hex_digit(#[trigger] d[t]),
            forall|t: int| 0 <= t < i ==> out@[t] == address_bytes(d)[t],
        decreases 20 - i,
    {
        let hi: u8 = if 2 * i < pad {
            0
        } else {
            let idx = 2 * i - pad;
            let c = s.get_char(start + idx);
            proof {
                assert(c == d[idx as int]);
            }
            hex_digit_value_exec(c)
        };
        let lo: u8 = if 2 * i + 1 < pad {
            0
        } else {
            let idx = 2 * i + 1 - pad;
            let c = s.get_char(start + idx);
            proof {
                assert(c == d[idx as int]);
            }
            hex_digit_value_exec(c)
        };
        out.push(hi * 16 + lo);
        i += 1;
    }
    proof {
        assert(out@ =~= address_bytes(d));
    }
    Ok(out)
}

/// Decodes 20 raw bytes as a lowercase `0x`-prefixed 42-character hex
/// string, reporting 20 bytes consumed.
pub fn decode_address(buf: &[u8]) -> (r: Result<(String, u32), CodecError>)
    ensures
        buf@.len() < 20 ==> r == Err::<(String, u32), CodecError>(CodecError::InvalidLength),
        buf@.len() >= 20 ==> (r matches Ok(out) && out.0@ == address_chars(buf@.subrange(0, 20))
            && out.1 == 20),
{
    if buf.len() < 20 {
        return Err(CodecError::InvalidLength);
    }
    let ghost target = address_chars(buf@.subrange(0, 20));
    let mut chars: Vec<char> = Vec::new();
    chars.push('0');
    chars.push('x');
    let mut i: usize = 0;
    while i < 20
        invariant
            i <= 20,
            buf@.len() >= 20,
            target == address_chars(buf@.subrange(0, 20)),
            chars@.len() == 2 + 2 * i,
            forall|t: int| 0 <= t < chars@.len() ==> chars@[t] == target[t],
        decreases 20 - i,
    {
        let b = buf[i];
        let hi = hex_char_exec(b / 16);
        let lo = hex_char_exec(b % 16);
        proof {
            assert(buf@.subrange(0, 20)[i as int] == buf@[i as int]);
        }
        chars.push(hi);
        chars.push(lo);
        i += 1;
    }
    proof {
        assert(chars@ =~= target);
    }
    let s = chars_to_string(&chars);
    Ok((s, 20))
}

/// Leading zero digits do not change the encoded address: a digit string
/// and the same string with zero digits prepended (still at most 40 digits
/// in all) encode to the same 20 bytes.
pub proof fn lemma_address_zero_padding(d: Seq<char>, k: nat)
    requires
        d.len() + k <= 40,
    ensures
        address_bytes(Seq::new(k, |t: int| '0') + d) == address_bytes(d),
{
    let zeros = Seq::new(k, |t: int| '0');
    let dz = zeros + d;
    assert forall|p: int| 0 <= p < 40 implies address_nibble(dz, p) == address_nibble(d, p) by {
        let pad = 40 - d.len();
        let padz = 40 - dz.len();
        if p >= padz && p < pad {
            assert(dz[p - padz] == '0');
            assert('0' as u32 == 48);
        } else if p >= pad {
            assert(dz[p - padz] == d[p - pad]);
        }
    }
    assert(address_bytes(dz) =~= address_bytes(d));
}

/// Rendering 20 bytes as a hex string and encoding that string yields the
/// original bytes, and the rendered string is always a valid address
/// string.
pub proof fn lemma_address_round_trip(b: Seq<u8>)
    requires
        b.len() == 20,
    ensures
        valid_address_string(address_chars(b)),
        address_bytes(strip_hex_prefix(address_chars(b))) == b,
{
    let s = address_chars(b);
    let digits = Seq::new(
        40,
        |j: int|
            if j % 2 == 0 {
                hex_char(b[j / 2] / 16)
            } else {
                hex_char(b[j / 2] % 16)
            },
    );
    assert(s[0] == '0' && s[1] == 'x');
    let d = strip_hex_prefix(s);
    assert(d =~= digits);
    assert forall|v: u8| v < 16 implies is_hex_digit(hex_char(v)) && hex_digit_value(hex_char(v))
        == v by {
        assert((((48 + v) as u8) as char) as u32 == 48 + v);
        assert((((87 + v) as u8) as char) as u32 == 87 + v);
    }
    assert forall|j: int| 0 <= j < 40 implies is_hex_digit(#[trigger] d[j]) by {
        if j % 2 == 0 {
            assert(b[j / 2] / 16 < 16);
        } else {
            assert(b[j / 2] % 16 < 16);
        }
    }
    assert forall|i: int| 0 <= i < 20 implies address_bytes(d)[i] == b[i] by {
        assert((2 * i) % 2 == 0 && (2 * i) / 2 == i);
        assert((2 * i + 1) % 2 == 1 && (2 * i + 1) / 2 == i);
        assert(address_nibble(d, 2 * i) == b[i] / 16);
        assert(address_nibble(d, 2 * i + 1) == b[i] % 16);
        assert(b[i] / 16 * 16 + b[i] % 16 == b[i]) by {
            vstd::arithmetic::div_mod::lemma_fundamental_div_mod(b[i] as int, 16);
        }
    }
    assert(address_bytes(d) =~= b);
}

/// The canonical 40-digit form of the digit string `d`: left-padded with
/// zero digits and with every digit lowercased.
pub open spec fn canonical_digits(d: Seq<char>) -> Seq<char>
    recommends
        d.len() <= 40,
{
    Seq::new(
        40,
        |j: int|
            if j < 40 - d.len() {
                '0'
            } else {
                hex_char(hex_digit_value(d[j - (40 - d.len())]))
            },
    )
}

/// Encoding a digit string and rendering the 20 bytes back yields the
/// canonical form of that string: `0x`, then the digits left-padded with
/// zeros to 40 characters and lowercased.
pub proof fn lemma_address_canonical(d: Seq<char>)
    requires
        d.len() <= 40,
        forall|i: int| 0 <= i < d.len() ==> is_hex_digit(#[trigger] d[i]),
    ensures
        address_chars(address_bytes(d)) == seq!['0', 'x'] + canonical_digits(d),
{
    let b = address_bytes(d);
    assert forall|p: int| 0 <= p < 40 implies address_nibble(d, p) < 16 by {
        let pad = 40 - d.len();
        if p >= pad {
            assert(is_hex_digit(d[p - pad]));
        }
    }
    assert forall|i: int| 0 <= i < 20 implies b[i] / 16 == address_nibble(d, 2 * i) && b[i] % 16
        == address_nibble(d, 2 * i + 1) by {
        let hi = address_nibble(d, 2 * i);
        let lo = address_nibble(d, 2 * i + 1);
        vstd::arithmetic::div_mod::lemma_fundamental_div_mod_converse_div(
            hi * 16 + lo,
            16,
            hi as int,
            lo as int,
        );
        vstd::arithmetic::div_mod::lemma_fundamental_div_mod_converse_mod(
            hi * 16 + lo,
            16,
            hi as int,
            lo as int,
        );
    }
    assert forall|j: int| 0 <= j < 40 implies address_chars(b).drop_first().drop_first()[j]
        == canonical_digits(d)[j] by {
        let pad = 40 - d.len();
        if j % 2 == 0 {
            assert(2 * (j / 2) == j);
        } else {
            assert(2 * (j / 2) + 1 == j);
        }
        if j < pad {
            assert(hex_char(0) == '0') by {
                assert((48u8 as char) as u32 == 48 && '0' as u32 == 48);
                vstd::utf8::char_u32_cast('0', 48);
            }
        }
    }
    assert(address_chars(b) =~= seq!['0', 'x'] + canonical_digits(d));
}

} // verus!
