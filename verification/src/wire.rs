//! Big-endian integer fields of the wire format.
//!
//! The conversions themselves are done by the `byteorder` crate; this module
//! states what they compute and proves that reading undoes writing.

use byteorder::{BigEndian, ByteOrder};
use vstd::prelude::*;

verus! {

/// The two bytes of `n`, most significant first.
pub open spec fn be16(n: u16) -> Seq<u8> {
    seq![(n / 0x100) as u8, (n % 0x100) as u8]
}

/// The four bytes of `n`, most significant first.
pub open spec fn be32(n: u32) -> Seq<u8> {
    seq![
        (n / 0x100_0000) as u8,
        (n / 0x1_0000 % 0x100) as u8,
        (n / 0x100 % 0x100) as u8,
        (n % 0x100) as u8,
    ]
}

/// The number whose big-endian form starts `s`: the first two bytes of `s`.
pub open spec fn from_be16(s: Seq<u8>) -> u16
    recommends
        s.len() >= 2,
{
    (s[0] as int * 0x100 + s[1] as int) as u16
}

/// The number whose big-endian form starts `s`: the first four bytes of `s`.
pub open spec fn from_be32(s: Seq<u8>) -> u32
    recommends
        s.len() >= 4,
{
    (s[0] as int * 0x100_0000 + s[1] as int * 0x1_0000 + s[2] as int * 0x100 + s[3] as int) as u32
}

/// Reading the big-endian form of a 16-bit number gives the number back,
/// whatever follows the two bytes.
pub proof fn lemma_be16_roundtrip(n: u16, rest: Seq<u8>)
    ensures
        be16(n).len() == 2,
        from_be16(be16(n) + rest) == n,
{
}

/// Reading the big-endian form of a 32-bit number gives the number back,
/// whatever follows the four bytes.
pub proof fn lemma_be32_roundtrip(n: u32, rest: Seq<u8>)
    ensures
        be32(n).len() == 4,
        from_be32(be32(n) + rest) == n,
{
}

/// `byteorder::BigEndian::write_u16` on a two-byte buffer: the buffer then
/// holds the high byte of `n` followed by its low byte.
#[verifier::external_body]
pub(crate) fn u16_to_be(n: u16) -> (out: [u8; 2])
    ensures
        out@ == be16(n),
{
    let mut out = [0u8; 2];
    BigEndian::write_u16(&mut out, n);
    out
}

/// `byteorder::BigEndian::write_u32` on a four-byte buffer: the buffer then
/// holds the four bytes of `n`, most significant first.
#[verifier::external_body]
pub(crate) fn u32_to_be(n: u32) -> (out: [u8; 4])
    ensures
        out@ == be32(n),
{
    let mut out = [0u8; 4];
    BigEndian::write_u32(&mut out, n);
    out
}

/// `byteorder::BigEndian::read_u16`: the number formed by the first two
/// bytes of `buf`, most significant first. Shorter buffers make it panic,
/// so they are excluded.
#[verifier::external_body]
pub(crate) fn u16_from_be(buf: &[u8]) -> (n: u16)
    requires
        buf@.len() >= 2,
    ensures
        n == from_be16(buf@),
{
    BigEndian::read_u16(buf)
}

/// `byteorder::BigEndian::read_u32`: the number formed by the first four
/// bytes of `buf`, most significant first. Shorter buffers make it panic,
/// so they are excluded.
#[verifier::external_body]
pub(crate) fn u32_from_be(buf: &[u8]) -> (n: u32)
    requires
        buf@.len() >= 4,
    ensures
        n == from_be32(buf@),
{
    BigEndian::read_u32(buf)
}

} // verus!
