//! Integers on the wire: everything wider than a byte is big endian.
use byteorder::{BigEndian, WriteBytesExt};
use vstd::prelude::*;

verus! {

/// The number that two bytes stand for, the most significant one first.
pub open spec fn be16(high: u8, low: u8) -> u16 {
    (high * 256 + low) as u16
}

/// The two bytes of a number, the most significant one first.
pub open spec fn be16_bytes(n: u16) -> Seq<u8> {
    seq![(n / 256) as u8, (n % 256) as u8]
}

/// The first of two bytes counts for 256 times its value in the number that they stand for.
pub proof fn first_byte_is_high(high: u8, low: u8, n: u16)
    ensures
        be16(high, low) == 256 * high + low,
        be16_bytes(n).len() == 2,
        n == 256 * be16_bytes(n)[0] + be16_bytes(n)[1],
{
}

/// A number is what its two bytes stand for.
pub proof fn be16_of_bytes(n: u16)
    ensures
        be16(be16_bytes(n)[0], be16_bytes(n)[1]) == n,
{
}

/// Two bytes are the bytes of what they stand for.
pub proof fn be16_bytes_of(high: u8, low: u8)
    ensures
        be16_bytes(be16(high, low)) == seq![high, low],
{
}

/// Reads a big-endian number from its two bytes.
pub fn read_u16(high: u8, low: u8) -> (n: u16)
    ensures
        n == be16(high, low),
        n == 256 * high + low,
{
    high as u16 * 256 + low as u16
}

/// `byteorder::WriteBytesExt::write_u8` on a vector.
///
/// It appends the byte. Writing to a vector never reports an error, and the vector can grow as
/// long as its length stays within `isize::MAX`.
#[verifier::external_body]
pub(crate) fn write_u8(buf: &mut Vec<u8>, n: u8)
    requires
        old(buf)@.len() + 1 <= isize::MAX,
    ensures
        final(buf)@ == old(buf)@.push(n),
{
    buf.write_u8(n).unwrap()
}

/// `byteorder::WriteBytesExt::write_u16::<BigEndian>` on a vector.
///
/// It appends the two bytes of the number, the most significant one first. Writing to a vector
/// never reports an error, and the vector can grow as long as its length stays within
/// `isize::MAX`.
#[verifier::external_body]
pub(crate) fn write_u16(buf: &mut Vec<u8>, n: u16)
    requires
        old(buf)@.len() + 2 <= isize::MAX,
    ensures
        final(buf)@ == old(buf)@ + be16_bytes(n),
{
    buf.write_u16::<BigEndian>(n).unwrap()
}

} // verus!
