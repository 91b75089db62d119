//! Little-endian encoding of the integers that a GFF file stores.
//!
//! The arithmetic meaning of each encoding is given by the spec functions of
//! this module; the conversions themselves are done by the `byteorder` crate.

use byteorder::{ByteOrder, LittleEndian};
use vstd::prelude::*;

verus! {

/// The number that the first four bytes of `b` encode.
pub open spec fn le_u32(b: Seq<u8>) -> u32
    recommends
        b.len() >= 4,
{
    (b[0] + b[1] * 0x100 + b[2] * 0x1_0000 + b[3] * 0x100_0000) as u32
}

/// The number that the first eight bytes of `b` encode.
pub open spec fn le_u64(b: Seq<u8>) -> u64
    recommends
        b.len() >= 8,
{
    (le_u32(b) + le_u32(b.subrange(4, 8)) * 0x1_0000_0000) as u64
}

/// The four bytes that encode `x`.
pub open spec fn u32_le(x: u32) -> Seq<u8> {
    seq![
        (x % 0x100) as u8,
        (x / 0x100 % 0x100) as u8,
        (x / 0x1_0000 % 0x100) as u8,
        (x / 0x100_0000) as u8,
    ]
}

/// The eight bytes that encode `x`.
pub open spec fn u64_le(x: u64) -> Seq<u8> {
    u32_le((x % 0x1_0000_0000) as u32) + u32_le((x / 0x1_0000_0000) as u32)
}

/// Decoding what was encoded gives the number back.
pub proof fn lemma_u32_round_trip(x: u32)
    ensures
        u32_le(x).len() == 4,
        le_u32(u32_le(x)) == x,
{
}

/// Encoding what was decoded gives the first four bytes back.
pub proof fn lemma_u32_bytes_round_trip(b: Seq<u8>)
    requires
        b.len() >= 4,
    ensures
        u32_le(le_u32(b)) == b.subrange(0, 4),
{
    assert(u32_le(le_u32(b)) =~= b.subrange(0, 4));
}

/// Decoding what was encoded gives the number back.
pub proof fn lemma_u64_round_trip(x: u64)
    ensures
        u64_le(x).len() == 8,
        le_u64(u64_le(x)) == x,
{
    let lo = (x % 0x1_0000_0000) as u32;
    let hi = (x / 0x1_0000_0000) as u32;
    lemma_u32_round_trip(lo);
    lemma_u32_round_trip(hi);
    assert(u64_le(x).subrange(4, 8) =~= u32_le(hi));
    assert(le_u32(u64_le(x)) == le_u32(u32_le(lo)));
}

/// Encoding what was decoded gives the first eight bytes back.
pub proof fn lemma_u64_bytes_round_trip(b: Seq<u8>)
    requires
        b.len() >= 8,
    ensures
        u64_le(le_u64(b)) == b.subrange(0, 8),
{
    let lo = le_u32(b);
    let hi = le_u32(b.subrange(4, 8));
    let x = le_u64(b);
    assert(x == lo + hi * 0x1_0000_0000);
    assert((x % 0x1_0000_0000) as u32 == lo && (x / 0x1_0000_0000) as u32 == hi);
    assert(u32_le(lo) == b.subrange(0, 4)) by {
        lemma_u32_bytes_round_trip(b);
    }
    assert(u32_le(hi) == b.subrange(4, 8)) by {
        lemma_u32_bytes_round_trip(b.subrange(4, 8));
        assert(b.subrange(4, 8).subrange(0, 4) =~= b.subrange(4, 8));
    }
    assert(b.subrange(0, 4) + b.subrange(4, 8) =~= b.subrange(0, 8));
}

/// `byteorder::ByteOrder::read_u32` of `LittleEndian`: the first four bytes
/// of `buf`, the low byte first. The crate panics on a shorter slice.
#[verifier::external_body]
pub(crate) fn read_u32(buf: &[u8]) -> (n: u32)
    requires
        buf@.len() >= 4,
    ensures
        n == le_u32(buf@),
{
    LittleEndian::read_u32(buf)
}

/// `byteorder::ByteOrder::read_u64` of `LittleEndian`: the first eight bytes
/// of `buf`, the low byte first. The crate panics on a shorter slice.
#[verifier::external_body]
pub(crate) fn read_u64(buf: &[u8]) -> (n: u64)
    requires
        buf@.len() >= 8,
    ensures
        n == le_u64(buf@),
{
    LittleEndian::read_u64(buf)
}

/// `byteorder::ByteOrder::write_u32` of `LittleEndian` on a buffer of four
/// bytes: the bytes of `n`, the low byte first.
#[verifier::external_body]
pub(crate) fn u32_bytes(n: u32) -> (b: [u8; 4])
    ensures
        b@ == u32_le(n),
{
    let mut b = [0u8; 4];
    LittleEndian::write_u32(&mut b, n);
    b
}

/// `byteorder::ByteOrder::write_u64` of `LittleEndian` on a buffer of eight
/// bytes: the bytes of `n`, the low byte first.
#[verifier::external_body]
pub(crate) fn u64_bytes(n: u64) -> (b: [u8; 8])
    ensures
        b@ == u64_le(n),
{
    let mut b = [0u8; 8];
    LittleEndian::write_u64(&mut b, n);
    b
}

} // verus!
