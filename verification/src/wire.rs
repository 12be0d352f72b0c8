//! Byte-level helpers shared by the decoder and the handshake: the
//! big-endian 16-bit port field, and the UTF-8 checks that the domain
//! address form needs.

use vstd::prelude::*;
use vstd::utf8::valid_utf8;

verus! {

/// The value of a big-endian 16-bit field given its two bytes.
pub open spec fn be16(hi: u8, lo: u8) -> u16 {
    ((hi as int) * 256 + (lo as int)) as u16
}

/// The high byte of a 16-bit value written big-endian.
pub open spec fn be16_hi(v: u16) -> u8 {
    (v / 256) as u8
}

/// The low byte of a 16-bit value written big-endian.
pub open spec fn be16_lo(v: u16) -> u8 {
    (v % 256) as u8
}

/// Reading back the two big-endian bytes of a value yields the value.
pub proof fn lemma_be16_round_trip(v: u16)
    ensures
        be16(be16_hi(v), be16_lo(v)) == v,
{
}

/// Relies on byteorder's `BigEndian::read_u16`: reads the first two bytes of
/// the given slice as a big-endian unsigned 16-bit integer (it panics on a
/// slice shorter than two bytes, which the precondition rules out).
#[verifier::external_body]
pub(crate) fn read_u16_be_at(b: &[u8], off: usize) -> (r: u16)
    requires
        off + 2 <= b@.len(),
    ensures
        r == be16(b@[off as int], b@[off as int + 1]),
{
    <byteorder::BigEndian as byteorder::ByteOrder>::read_u16(&b[off..])
}

/// Relies on `core::str::from_utf8`: it returns `Ok` exactly when the bytes
/// are valid UTF-8.
#[verifier::external_body]
pub(crate) fn utf8_check(b: &[u8]) -> (r: bool)
    ensures
        r == valid_utf8(b@),
{
    core::str::from_utf8(b).is_ok()
}

/// Relies on `String::from_utf8`: on valid UTF-8 input (which the
/// precondition guarantees) it returns `Ok` of the string those bytes spell,
/// and the fallback branch is never taken.
#[verifier::external_body]
pub(crate) fn string_from_utf8(b: Vec<u8>) -> (r: String)
    requires
        valid_utf8(b@),
    ensures
        r@ == vstd::utf8::decode_utf8(b@),
{
    String::from_utf8(b).unwrap_or_default()
}

} // verus!
