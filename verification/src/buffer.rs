//! Byte buffers, as the `bytes` crate keeps them.

use bytes::Bytes;
use vstd::prelude::*;

verus! {

/// `bytes::Bytes`, a buffer of bytes.
#[verifier::external_type_specification]
#[verifier::external_body]
pub struct ExBytes(bytes::Bytes);

/// The bytes that a buffer holds.
pub uninterp spec fn content(buffer: Bytes) -> Seq<u8>;

/// `Bytes::len`: how many bytes the buffer holds.
#[verifier::external_body]
pub(crate) fn buffer_len(buffer: &Bytes) -> (len: usize)
    ensures
        len == content(*buffer).len(),
{
    buffer.len()
}

/// `Bytes::is_empty`: whether the buffer holds no byte.
#[verifier::external_body]
pub(crate) fn buffer_is_empty(buffer: &Bytes) -> (empty: bool)
    ensures
        empty == (content(*buffer).len() == 0),
{
    buffer.is_empty()
}

/// `Bytes::split_off`: the bytes from `at` on leave the buffer, and are given
/// back.
#[verifier::external_body]
pub(crate) fn split_off(buffer: &mut Bytes, at: usize) -> (rest: Bytes)
    requires
        at <= content(*old(buffer)).len(),
    ensures
        content(*final(buffer)) == content(*old(buffer)).take(at as int),
        content(rest) == content(*old(buffer)).skip(at as int),
{
    buffer.split_off(at)
}

/// `Bytes`'s `AsRef<[u8]>`: the content as a slice.
#[verifier::external_body]
pub(crate) fn as_slice(buffer: &Bytes) -> (slice: &[u8])
    ensures
        slice@ == content(*buffer),
{
    buffer.as_ref()
}

/// A hexadecimal digit, in lower case.
pub open spec fn hex_digit(d: u8) -> char {
    if d < 10 {
        ('0' as u8 + d) as char
    } else {
        ('a' as u8 + d - 10) as char
    }
}

/// A byte as a byte string literal spells it.
pub open spec fn byte_escape(b: u8) -> Seq<char> {
    if b == 10 {
        seq!['\\', 'n']
    } else if b == 13 {
        seq!['\\', 'r']
    } else if b == 9 {
        seq!['\\', 't']
    } else if b == 0 {
        seq!['\\', '0']
    } else if b == 34 || b == 92 {
        seq!['\\', b as char]
    } else if 32 <= b < 127 {
        seq![b as char]
    } else {
        seq!['\\', 'x', hex_digit(b / 16), hex_digit(b % 16)]
    }
}

/// The byte string literal of some bytes.
pub open spec fn byte_literal(bytes: Seq<u8>) -> Seq<char> {
    seq!['b', '"'] + bytes.map_values(|b: u8| byte_escape(b)).flatten() + seq!['"']
}

/// `Bytes`'s `Debug`: a byte string literal, in which line feed, carriage return,
/// tab, nul, quote and backslash have their short escapes, and other bytes that
/// are not visible ASCII are in hexadecimal.
#[verifier::external_body]
pub(crate) fn print_bytes(buffer: &Bytes) -> (printed: String)
    ensures
        printed@ == byte_literal(content(*buffer)),
{
    format!("{:?}", buffer)
}

} // verus!
