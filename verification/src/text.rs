//! Booleans, characters and strings on the wire.
use crate::endian::{
    decode_unsigned, encode_unsigned, lemma_pow256_widths, wire_bytes, wire_value, Endian,
};
use crate::error::{BinaryError, BinaryResult};
use crate::options::{guard_size, guarded};
use vstd::prelude::*;
use vstd::utf8::{decode_utf8, encode_utf8, valid_utf8};

verus! {

/// The number of bytes in the length that precedes a string.
pub const STRING_PREFIX_WIDTH: usize = 4;

/// The byte that stands for a boolean: one for `true`, zero for `false`.
pub open spec fn bool_byte(value: bool) -> u8 {
    if value {
        1u8
    } else {
        0u8
    }
}

/// The canonical byte of a boolean.
pub fn encode_bool(value: bool) -> (r: u8)
    ensures
        r == bool_byte(value),
{
    if value {
        1
    } else {
        0
    }
}

/// The boolean that a byte stands for: every byte but zero reads as `true`.
pub fn decode_bool(byte: u8) -> (r: bool)
    ensures
        r == (byte > 0),
{
    byte > 0
}

/// Whether `code` is a Unicode scalar value: a code point that is no
/// surrogate.
pub open spec fn is_scalar_value(code: u32) -> bool {
    code <= 0xD7FF || (0xE000 <= code && code <= 0x10FFFF)
}

/// `char::from_u32` of the standard library: the character with the code
/// point `code`, or `None` where `code` is not a Unicode scalar value.
#[verifier::external_body]
fn char_from_u32(code: u32) -> (r: Option<char>)
    ensures
        r is Some <==> is_scalar_value(code),
        r matches Some(c) ==> c as u32 == code,
{
    char::from_u32(code)
}

/// The code point of a character.
pub fn encode_char(value: char) -> (r: u32)
    ensures
        r == value as u32,
        is_scalar_value(r),
{
    value as u32
}

/// The character with the code point `code`.
pub fn decode_char(code: u32) -> (r: BinaryResult<char>)
    ensures
        match r {
            Ok(c) => is_scalar_value(code) && c as u32 == code,
            Err(e) => !is_scalar_value(code) && e == BinaryError::InvalidCharacter,
        },
{
    match char_from_u32(code) {
        Some(c) => Ok(c),
        None => Err(BinaryError::InvalidCharacter),
    }
}

/// `String::from_utf8` of the standard library: the string made of `bytes`
/// where they are UTF-8, and `None` where they are not. The string holds the
/// very bytes that were given, so its characters are what they decode to.
#[verifier::external_body]
fn string_from_utf8(bytes: Vec<u8>) -> (r: Option<String>)
    ensures
        r is Some <==> valid_utf8(bytes@),
        r matches Some(s) ==> s@ == decode_utf8(bytes@),
{
    match String::from_utf8(bytes) {
        Ok(text) => Some(text),
        Err(_) => None,
    }
}

/// The string that `bytes` spell in UTF-8.
pub fn decode_text(bytes: Vec<u8>) -> (r: BinaryResult<String>)
    ensures
        match r {
            Ok(s) => valid_utf8(bytes@) && s@ == decode_utf8(bytes@),
            Err(e) => !valid_utf8(bytes@) && e == (BinaryError::InvalidUtf8 {
                length: bytes@.len() as usize,
            }),
        },
{
    let length: usize = bytes.len();
    match string_from_utf8(bytes) {
        Some(s) => Ok(s),
        None => Err(BinaryError::InvalidUtf8 { length }),
    }
}

/// What the length field of a string of `len` bytes holds: the length as far
/// as the field's four bytes can express it.
pub open spec fn prefix_value(len: nat) -> nat {
    len % 0x1_0000_0000
}

/// The value of the length field for a string of `len` bytes.
pub fn length_prefix(len: usize) -> (r: u32)
    ensures
        r == prefix_value(len as nat),
{
    ((len as u64) % 0x1_0000_0000u64) as u32
}

/// The wire image of a string: its length in bytes, then its UTF-8 bytes.
pub open spec fn string_image(endian: Endian, text: Seq<char>) -> Seq<u8> {
    wire_bytes(endian, prefix_value(encode_utf8(text).len()), STRING_PREFIX_WIDTH as nat)
        + encode_utf8(text)
}

/// The length that the length field `field` announces, as the size guard
/// answers for it: the length where it may be read, the guard's refusal
/// where it is above the ceiling `max`.
pub open spec fn announced(endian: Endian, field: Seq<u8>, max: Option<usize>) -> BinaryResult<
    usize,
> {
    let length = wire_value(endian, field) as usize;
    match guarded(length, max) {
        Ok(_) => Ok(length),
        Err(e) => Err(e),
    }
}

/// Decides, from the length field of a string, how many bytes to read
/// next, or that the string is too long to be read at all.
pub fn announced_length(endian: Endian, field: &[u8], max: Option<usize>) -> (r: BinaryResult<
    usize,
>)
    requires
        field@.len() == STRING_PREFIX_WIDTH,
    ensures
        r == announced(endian, field@, max),
{
    proof {
        lemma_pow256_widths();
    }
    let length: usize = decode_unsigned(endian, field) as u32 as usize;
    match guard_size(length, max) {
        Ok(_) => Ok(length),
        Err(e) => Err(e),
    }
}

/// The length field for a string of `len` bytes, unless the size guard
/// refuses a string of that length.
pub fn string_header(endian: Endian, len: usize, max: Option<usize>) -> (r: BinaryResult<Vec<u8>>)
    ensures
        match r {
            Ok(field) => {
                &&& guarded(len, max) is Ok
                &&& field@.len() == STRING_PREFIX_WIDTH
                &&& field@ == wire_bytes(
                    endian,
                    prefix_value(len as nat),
                    STRING_PREFIX_WIDTH as nat,
                )
            },
            Err(e) => guarded(len, max) == Err::<(), BinaryError>(e),
        },
{
    match guard_size(len, max) {
        Ok(_) => Ok(encode_unsigned(endian, length_prefix(len) as u128, STRING_PREFIX_WIDTH)),
        Err(e) => Err(e),
    }
}

} // verus!
