//! Little-endian integer fields, as every structure in this crate lays them out.

use byteorder::{ByteOrder, LittleEndian};
use vstd::prelude::*;

verus! {

/// The value of a two-byte little-endian field.
pub open spec fn u16_from_le(b: Seq<u8>) -> u16
    recommends
        b.len() == 2,
{
    (b[0] as int + b[1] as int * 0x100) as u16
}

/// The two bytes that hold `v`, low byte first.
pub open spec fn u16_to_le(v: u16) -> Seq<u8> {
    seq![(v % 0x100) as u8, (v / 0x100) as u8]
}

/// The 16-bit values that a byte sequence holds, two bytes each and the low
/// byte first. An odd last byte holds none.
pub open spec fn u16s_from_le(b: Seq<u8>) -> Seq<u16> {
    Seq::new((b.len() / 2) as nat, |i: int| u16_from_le(b.subrange(2 * i, 2 * i + 2)))
}

/// The bytes that hold a sequence of 16-bit values, two bytes each and the low
/// byte first.
pub open spec fn u16s_to_le(u: Seq<u16>) -> Seq<u8> {
    Seq::new(2 * u.len(), |i: int| u16_to_le(u[i / 2])[i % 2])
}

/// The value of a four-byte little-endian field.
pub open spec fn u32_from_le(b: Seq<u8>) -> u32
    recommends
        b.len() == 4,
{
    (b[0] as int + 0x100 * (b[1] as int + 0x100 * (b[2] as int + 0x100 * b[3] as int))) as u32
}

/// The four bytes that hold `v`, low byte first.
pub open spec fn u32_to_le(v: u32) -> Seq<u8> {
    seq![
        (v % 0x100) as u8,
        (v / 0x100 % 0x100) as u8,
        (v / 0x100 / 0x100 % 0x100) as u8,
        (v / 0x100 / 0x100 / 0x100) as u8,
    ]
}

/// The value of an eight-byte little-endian field.
pub open spec fn u64_from_le(b: Seq<u8>) -> u64
    recommends
        b.len() == 8,
{
    (u32_from_le(b.subrange(0, 4)) as int + 0x1_0000_0000 * u32_from_le(b.subrange(4, 8)) as int) as u64
}

/// The eight bytes that hold `v`, low byte first.
pub open spec fn u64_to_le(v: u64) -> Seq<u8> {
    u32_to_le((v % 0x1_0000_0000) as u32) + u32_to_le((v / 0x1_0000_0000) as u32)
}

/// Calls `byteorder::LittleEndian::read_u16`, which reads the first two bytes of
/// its argument as a little-endian integer and panics on a shorter slice.
#[verifier::external_body]
pub(crate) fn read_u16_le(buf: &[u8]) -> (v: u16)
    requires
        buf@.len() >= 2,
    ensures
        v == u16_from_le(buf@.subrange(0, 2)),
{
    LittleEndian::read_u16(buf)
}

/// Calls `byteorder::LittleEndian::read_u32`, which reads the first four bytes
/// of its argument as a little-endian integer and panics on a shorter slice.
#[verifier::external_body]
pub(crate) fn read_u32_le(buf: &[u8]) -> (v: u32)
    requires
        buf@.len() >= 4,
    ensures
        v == u32_from_le(buf@.subrange(0, 4)),
{
    LittleEndian::read_u32(buf)
}

/// Calls `byteorder::LittleEndian::read_u64`, which reads the first eight bytes
/// of its argument as a little-endian integer and panics on a shorter slice.
#[verifier::external_body]
pub(crate) fn read_u64_le(buf: &[u8]) -> (v: u64)
    requires
        buf@.len() >= 8,
    ensures
        v == u64_from_le(buf@.subrange(0, 8)),
{
    LittleEndian::read_u64(buf)
}

/// Calls `byteorder::LittleEndian::write_u16` on a two-byte buffer, which
/// stores the integer's low byte first.
#[verifier::external_body]
pub(crate) fn u16_le_bytes(v: u16) -> (b: [u8; 2])
    ensures
        b@ == u16_to_le(v),
{
    let mut b = [0u8; 2];
    LittleEndian::write_u16(&mut b, v);
    b
}

/// Calls `byteorder::LittleEndian::write_u32` on a four-byte buffer, which
/// stores the integer's low byte first.
#[verifier::external_body]
pub(crate) fn u32_le_bytes(v: u32) -> (b: [u8; 4])
    ensures
        b@ == u32_to_le(v),
{
    let mut b = [0u8; 4];
    LittleEndian::write_u32(&mut b, v);
    b
}

/// Calls `byteorder::LittleEndian::write_u64` on an eight-byte buffer, which
/// stores the integer's low byte first.
#[verifier::external_body]
pub(crate) fn u64_le_bytes(v: u64) -> (b: [u8; 8])
    ensures
        b@ == u64_to_le(v),
{
    let mut b = [0u8; 8];
    LittleEndian::write_u64(&mut b, v);
    b
}

/// A two-byte field decodes to the integer it was encoded from, and encodes
/// back to the bytes it was decoded from.
pub proof fn lemma_u16_le_roundtrip(v: u16, b: Seq<u8>)
    ensures
        u16_to_le(v).len() == 2,
        u16_from_le(u16_to_le(v)) == v,
        b.len() == 2 ==> u16_to_le(u16_from_le(b)) == b,
{
}

/// A four-byte field decodes to the integer it was encoded from, and encodes
/// back to the bytes it was decoded from.
#[verifier::spinoff_prover]
#[verifier::rlimit(40)]
pub proof fn lemma_u32_le_roundtrip(v: u32, b: Seq<u8>)
    ensures
        u32_to_le(v).len() == 4,
        u32_from_le(u32_to_le(v)) == v,
        b.len() == 4 ==> u32_to_le(u32_from_le(b)) == b,
{
    let v1 = v / 0x100;
    let v2 = v1 / 0x100;
    assert(v == v % 0x100 + 0x100 * (v1 % 0x100 + 0x100 * (v2 % 0x100 + 0x100 * (v2 / 0x100))));
    if b.len() == 4 {
        let y2 = b[2] as int + 0x100 * b[3] as int;
        let y1 = b[1] as int + 0x100 * y2;
        let x = b[0] as int + 0x100 * y1;
        assert(x / 0x100 == y1 && x % 0x100 == b[0]);
        assert(y1 / 0x100 == y2 && y1 % 0x100 == b[1]);
        assert(y2 / 0x100 == b[3] && y2 % 0x100 == b[2]);
        assert(u32_to_le(u32_from_le(b)) =~= b);
    }
}

/// An eight-byte field decodes to the integer it was encoded from, and encodes
/// back to the bytes it was decoded from.
#[verifier::spinoff_prover]
#[verifier::rlimit(40)]
pub proof fn lemma_u64_le_roundtrip(v: u64, b: Seq<u8>)
    ensures
        u64_to_le(v).len() == 8,
        u64_from_le(u64_to_le(v)) == v,
        b.len() == 8 ==> u64_to_le(u64_from_le(b)) == b,
{
    let lo = (v % 0x1_0000_0000) as u32;
    let hi = (v / 0x1_0000_0000) as u32;
    lemma_u32_le_roundtrip(lo, b);
    lemma_u32_le_roundtrip(hi, b);
    assert(u64_to_le(v).subrange(0, 4) =~= u32_to_le(lo));
    assert(u64_to_le(v).subrange(4, 8) =~= u32_to_le(hi));
    if b.len() == 8 {
        let l = u32_from_le(b.subrange(0, 4));
        let h = u32_from_le(b.subrange(4, 8));
        lemma_u32_le_roundtrip(0, b.subrange(0, 4));
        lemma_u32_le_roundtrip(0, b.subrange(4, 8));
        let x = l as int + 0x1_0000_0000 * h as int;
        assert(x % 0x1_0000_0000 == l && x / 0x1_0000_0000 == h);
        assert(u64_to_le(u64_from_le(b)) =~= b);
    }
}

} // verus!
