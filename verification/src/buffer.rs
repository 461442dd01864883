//! The growable byte buffer of the `bytes` crate, as the frame reader uses
//! it.

use bytes::{Buf, BytesMut};
use vstd::prelude::*;

verus! {

#[verifier::external_type_specification]
#[verifier::external_body]
pub struct ExBytesMut(BytesMut);

/// The bytes that a `BytesMut` holds, in order.
pub uninterp spec fn bytes_mut_contents(b: BytesMut) -> Seq<u8>;

/// An empty buffer.
///
/// Calls `BytesMut::with_capacity`, which makes an empty buffer; the
/// capacity that the allocator gave is not stated.
#[verifier::external_body]
pub(crate) fn with_capacity(capacity: usize) -> (r: BytesMut)
    ensures
        bytes_mut_contents(r) == Seq::<u8>::empty(),
{
    BytesMut::with_capacity(capacity)
}

/// The number of bytes held.
///
/// Calls `BytesMut::len`.
#[verifier::external_body]
pub(crate) fn len(b: &BytesMut) -> (r: usize)
    ensures
        r == bytes_mut_contents(*b).len(),
{
    b.len()
}

/// The byte at `i`.
///
/// Indexes the buffer through its `Deref` to `[u8]`, which panics past the
/// end, which `requires` rules out.
#[verifier::external_body]
pub(crate) fn byte_at(b: &BytesMut, i: usize) -> (r: u8)
    requires
        i < bytes_mut_contents(*b).len(),
    ensures
        r == bytes_mut_contents(*b)[i as int],
{
    b[i]
}

/// The held bytes as a slice.
///
/// Calls `<BytesMut as AsRef<[u8]>>::as_ref`.
#[verifier::external_body]
pub(crate) fn as_slice(b: &BytesMut) -> (r: &[u8])
    ensures
        r@ == bytes_mut_contents(*b),
{
    b.as_ref()
}

/// How many bytes the buffer can hold without reallocating.
///
/// Calls `BytesMut::capacity`. It depends on the allocator, so nothing is
/// claimed of it.
#[verifier::external_body]
pub(crate) fn capacity(b: &BytesMut) -> usize {
    b.capacity()
}

/// Makes room for at least `additional` more bytes.
///
/// Calls `BytesMut::reserve`, which leaves the held bytes as they are. It
/// panics when the new capacity overflows, which `requires` rules out.
#[verifier::external_body]
pub(crate) fn reserve(b: &mut BytesMut, additional: usize)
    requires
        bytes_mut_contents(*old(b)).len() + additional <= isize::MAX,
    ensures
        bytes_mut_contents(*final(b)) == bytes_mut_contents(*old(b)),
{
    b.reserve(additional)
}

/// Appends the bytes of `data`.
///
/// Calls `BytesMut::extend_from_slice`. It panics when the new capacity
/// overflows, which `requires` rules out.
#[verifier::external_body]
pub(crate) fn extend_from_slice(b: &mut BytesMut, data: &[u8])
    requires
        bytes_mut_contents(*old(b)).len() + data@.len() <= isize::MAX,
    ensures
        bytes_mut_contents(*final(b)) == bytes_mut_contents(*old(b)) + data@,
{
    b.extend_from_slice(data)
}

/// Drops the first `n` bytes.
///
/// Calls `<BytesMut as bytes::Buf>::advance`, which panics past the end,
/// which `requires` rules out.
#[verifier::external_body]
pub(crate) fn advance(b: &mut BytesMut, n: usize)
    requires
        n <= bytes_mut_contents(*old(b)).len(),
    ensures
        bytes_mut_contents(*final(b)) == bytes_mut_contents(*old(b)).skip(n as int),
{
    b.advance(n)
}

/// Splits off and returns the first `at` bytes.
///
/// Calls `BytesMut::split_to`, which panics past the end, which `requires`
/// rules out.
#[verifier::external_body]
pub(crate) fn split_to(b: &mut BytesMut, at: usize) -> (r: BytesMut)
    requires
        at <= bytes_mut_contents(*old(b)).len(),
    ensures
        bytes_mut_contents(r) == bytes_mut_contents(*old(b)).take(at as int),
        bytes_mut_contents(*final(b)) == bytes_mut_contents(*old(b)).skip(at as int),
{
    b.split_to(at)
}

/// Drops every byte.
///
/// Calls `BytesMut::clear`.
#[verifier::external_body]
pub(crate) fn clear(b: &mut BytesMut)
    ensures
        bytes_mut_contents(*final(b)) == Seq::<u8>::empty(),
{
    b.clear()
}

} // verus!
