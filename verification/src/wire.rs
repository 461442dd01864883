//! Big-endian integer layout on the wire, and the calls into the `bytes`
//! crate that write and read it.

use bytes::{Buf, BufMut};
use vstd::prelude::*;

verus! {

/// The two bytes of `n`, most significant first.
pub open spec fn be16(n: u16) -> Seq<u8> {
    seq![(n / 0x100) as u8, (n % 0x100) as u8]
}

/// The four bytes of `n`, most significant first.
pub open spec fn be32(n: u32) -> Seq<u8> {
    seq![
        (n / 0x100_0000) as u8,
        ((n / 0x1_0000) % 0x100) as u8,
        ((n / 0x100) % 0x100) as u8,
        (n % 0x100) as u8,
    ]
}

/// The eight bytes of `n`, most significant first.
pub open spec fn be64(n: u64) -> Seq<u8> {
    be32((n / 0x1_0000_0000) as u32) + be32((n % 0x1_0000_0000) as u32)
}

/// The unsigned value of the two bytes of `s` at `at`, most significant first.
pub open spec fn be16_at(s: Seq<u8>, at: int) -> int {
    s[at] * 0x100 + s[at + 1]
}

/// The unsigned value of the four bytes of `s` at `at`, most significant first.
pub open spec fn be32_at(s: Seq<u8>, at: int) -> int {
    s[at] * 0x100_0000 + s[at + 1] * 0x1_0000 + s[at + 2] * 0x100 + s[at + 3]
}

/// Appends `n` in big-endian order.
///
/// Calls `<Vec<u8> as bytes::BufMut>::put_u16`, which extends the vector by
/// `n.to_be_bytes()`; the contract claims exactly that.
#[verifier::external_body]
pub(crate) fn put_u16(buf: &mut Vec<u8>, n: u16)
    ensures
        final(buf)@ == old(buf)@ + be16(n),
{
    buf.put_u16(n)
}

/// Appends `n` in big-endian order.
///
/// Calls `<Vec<u8> as bytes::BufMut>::put_u32`, which extends the vector by
/// `n.to_be_bytes()`; the contract claims exactly that.
#[verifier::external_body]
pub(crate) fn put_u32(buf: &mut Vec<u8>, n: u32)
    ensures
        final(buf)@ == old(buf)@ + be32(n),
{
    buf.put_u32(n)
}

/// Appends `n` in big-endian order.
///
/// Calls `<Vec<u8> as bytes::BufMut>::put_u64`, which extends the vector by
/// `n.to_be_bytes()`; the contract claims exactly that.
#[verifier::external_body]
pub(crate) fn put_u64(buf: &mut Vec<u8>, n: u64)
    ensures
        final(buf)@ == old(buf)@ + be64(n),
{
    buf.put_u64(n)
}

/// Reads the big-endian `u16` at `at`.
///
/// Calls `<&[u8] as bytes::Buf>::get_u16` on the slice that starts at `at`;
/// it reads the first two bytes, most significant first, and panics when
/// fewer remain, which `requires` rules out.
#[verifier::external_body]
pub(crate) fn get_u16(s: &[u8], at: usize) -> (r: u16)
    requires
        at + 2 <= s@.len(),
    ensures
        r == be16_at(s@, at as int),
{
    let mut rest = &s[at..];
    rest.get_u16()
}

/// Reads the big-endian `u32` at `at`.
///
/// Calls `<&[u8] as bytes::Buf>::get_u32` on the slice that starts at `at`;
/// it reads the first four bytes, most significant first, and panics when
/// fewer remain, which `requires` rules out.
#[verifier::external_body]
pub(crate) fn get_u32(s: &[u8], at: usize) -> (r: u32)
    requires
        at + 4 <= s@.len(),
    ensures
        r == be32_at(s@, at as int),
{
    let mut rest = &s[at..];
    rest.get_u32()
}

/// Big-endian layout reads back: the bytes of `n`, taken as a number most
/// significant first, are `n`, for 16, 32 and 64 bits.
pub proof fn lemma_big_endian(a: u16, b: u32, c: u64)
    ensures
        be16(a).len() == 2,
        be16_at(be16(a), 0) == a,
        be32(b).len() == 4,
        be32_at(be32(b), 0) == b,
        be64(c).len() == 8,
        be32_at(be64(c), 0) * 0x1_0000_0000 + be32_at(be64(c), 4) == c,
{
    let x = be16(a);
    assert(((a / 0x100) as u8) as u16 * 0x100 + ((a % 0x100) as u8) as u16 == a) by (bit_vector);
    assert(x[0] as int * 0x100 + x[1] as int == a);
    lemma_be32(b);
    let hi = (c / 0x1_0000_0000) as u32;
    let lo = (c % 0x1_0000_0000) as u32;
    lemma_be32(hi);
    lemma_be32(lo);
    let y = be64(c);
    assert(y.subrange(0, 4) =~= be32(hi));
    assert(y.subrange(4, 8) =~= be32(lo));
    assert(be32_at(y, 0) == be32_at(be32(hi), 0));
    assert(be32_at(y, 4) == be32_at(be32(lo), 0));
    assert(hi as int * 0x1_0000_0000 + lo as int == c) by (bit_vector)
        requires
            hi == (c / 0x1_0000_0000) as u32,
            lo == (c % 0x1_0000_0000) as u32,
    ;
}

proof fn lemma_be32(b: u32)
    ensures
        be32(b).len() == 4,
        be32_at(be32(b), 0) == b,
{
    let x = be32(b);
    assert(((b / 0x100_0000) as u8) as u32 * 0x100_0000 + (((b / 0x1_0000) % 0x100) as u8) as u32
        * 0x1_0000 + (((b / 0x100) % 0x100) as u8) as u32 * 0x100 + ((b % 0x100) as u8) as u32
        == b) by (bit_vector);
    assert(x[0] as int * 0x100_0000 + x[1] as int * 0x1_0000 + x[2] as int * 0x100 + x[3] as int
        == b);
}

} // verus!
