//! Big-endian 16-bit fields inside a byte buffer.

use byteorder::ByteOrder;
use vstd::prelude::*;

verus! {

/// The 16-bit number whose high byte is `hi` and whose low byte is `lo`.
pub open spec fn be16(hi: u8, lo: u8) -> int {
    hi as int * 256 + lo as int
}

/// The high byte of `value` in network byte order.
pub open spec fn high_byte(value: int) -> u8 {
    ((value / 256) % 256) as u8
}

/// The low byte of `value` in network byte order.
pub open spec fn low_byte(value: int) -> u8 {
    (value % 256) as u8
}

/// `buf` with the big-endian encoding of `value` written at `at` and `at + 1`.
pub open spec fn with_be16(buf: Seq<u8>, at: int, value: int) -> Seq<u8> {
    buf.update(at, high_byte(value)).update(at + 1, low_byte(value))
}

/// Calls `byteorder::BigEndian::read_u16` on the bytes of `buf` from `at` on.
///
/// Trusted: the result is the number formed by the two bytes at `at` and
/// `at + 1`, the first being the high byte. The outside function panics when
/// fewer than two bytes are left, which `requires` rules out.
#[verifier::external_body]
pub(crate) fn read_u16_be(buf: &[u8], at: usize) -> (value: u16)
    requires
        at + 2 <= buf@.len(),
    ensures
        value == be16(buf@[at as int], buf@[at + 1]),
{
    byteorder::BigEndian::read_u16(&buf[at..])
}

/// Calls `byteorder::BigEndian::write_u16` on the bytes of `buf` from `at` on.
///
/// Trusted: exactly the two bytes at `at` and `at + 1` change; they become
/// the high and the low byte of `value`. The outside function panics when
/// fewer than two bytes are left, which `requires` rules out.
#[verifier::external_body]
pub(crate) fn write_u16_be(buf: &mut Vec<u8>, at: usize, value: u16)
    requires
        at + 2 <= old(buf)@.len(),
    ensures
        final(buf)@ == with_be16(old(buf)@, at as int, value as int),
{
    byteorder::BigEndian::write_u16(&mut buf[at..], value)
}

/// Reading back what `with_be16` wrote gives the value written.
pub proof fn lemma_be16_round_trip(value: u16)
    ensures
        be16(high_byte(value as int), low_byte(value as int)) == value,
{
}

} // verus!
