//! A little-endian binary codec for a fixed catalogue of value types:
//! booleans, fixed-width integers (8/16/32-bit, signed and unsigned), a
//! variable-length "compact" unsigned 32-bit integer, length-prefixed UTF-8
//! strings, and 20-byte addresses written as hex strings.
//!
//! Every decoder consumes a prefix of its input buffer and reports the exact
//! number of bytes consumed, so heterogeneous values can be decoded
//! back-to-back from one buffer by advancing an offset after each call.

pub mod address;
pub mod compact;
pub mod error;
pub mod primitives;
pub mod strings;

pub use address::{decode_address, encode_address};
pub use compact::{decode_compact, encode_compact};
pub use error::CodecError;
pub use primitives::{decode_bool, decode_i16, decode_i32, decode_i8, decode_u16, decode_u32,
    decode_u8, encode_bool, encode_i16, encode_i32, encode_i8, encode_u16, encode_u32, encode_u8};
pub use strings::{decode_string, encode_string};
