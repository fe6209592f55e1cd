//! Byte buffers of the `bytes` crate, as the rest of the library sees them.
//!
//! `BytesMut` stays opaque: `buf_bytes` names the bytes it holds, and each
//! method that the library calls has a wrapper here whose contract says what
//! the method does to those bytes.
use bytes::Buf;
use bytes::BufMut;
use vstd::prelude::*;

verus! {

/// `bytes::BytesMut`, held opaque; its contents are named by `buf_bytes`.
#[verifier::external_type_specification]
#[verifier::external_body]
pub struct ExBytesMut(bytes::BytesMut);

/// The bytes that a `BytesMut` currently holds, front to back.
pub uninterp spec fn buf_bytes(b: bytes::BytesMut) -> Seq<u8>;

/// The four bytes of `n`, most significant first (what `u32::to_be_bytes` gives).
pub open spec fn be_bytes_u32(n: u32) -> Seq<u8> {
    seq![
        (n / 0x100_0000) as u8,
        ((n / 0x1_0000) % 0x100) as u8,
        ((n / 0x100) % 0x100) as u8,
        (n % 0x100) as u8,
    ]
}

/// `BytesMut::with_capacity`: the new buffer holds no bytes. It allocates a
/// `Vec` of that capacity, which panics above `isize::MAX` bytes.
#[verifier::external_body]
pub(crate) fn buf_with_capacity(capacity: usize) -> (b: bytes::BytesMut)
    requires
        capacity <= isize::MAX,
    ensures
        buf_bytes(b) == Seq::<u8>::empty(),
{
    bytes::BytesMut::with_capacity(capacity)
}

/// `BytesMut::len`: the number of bytes held.
#[verifier::external_body]
pub(crate) fn buf_len(b: &bytes::BytesMut) -> (n: usize)
    ensures
        n == buf_bytes(*b).len(),
{
    b.len()
}

/// `BytesMut::capacity`: how many bytes fit without reallocating. The value
/// depends on the allocation; the contract says only that it is at least the
/// length, which the type keeps as an invariant.
#[verifier::external_body]
pub(crate) fn buf_capacity(b: &bytes::BytesMut) -> (n: usize)
    ensures
        n >= buf_bytes(*b).len(),
{
    b.capacity()
}

/// `BytesMut::clear`: afterwards the buffer holds no bytes.
#[verifier::external_body]
pub(crate) fn buf_clear(b: &mut bytes::BytesMut)
    ensures
        buf_bytes(*final(b)) == Seq::<u8>::empty(),
{
    b.clear()
}

/// `BytesMut::reserve`: makes room for `additional` more bytes; the bytes held
/// do not change. It panics when the new capacity overflows, which the
/// `requires` keeps out.
#[verifier::external_body]
pub(crate) fn buf_reserve(b: &mut bytes::BytesMut, additional: usize)
    requires
        buf_bytes(*old(b)).len() + additional <= isize::MAX,
    ensures
        buf_bytes(*final(b)) == buf_bytes(*old(b)),
{
    b.reserve(additional)
}

/// `BytesMut::extend_from_slice`: appends the bytes of `s`.
#[verifier::external_body]
pub(crate) fn buf_extend_from_slice(b: &mut bytes::BytesMut, s: &[u8])
    requires
        buf_bytes(*old(b)).len() + s@.len() <= isize::MAX,
    ensures
        buf_bytes(*final(b)) == buf_bytes(*old(b)) + s@,
{
    b.extend_from_slice(s)
}

/// `BufMut::put_u32` on a `BytesMut`: appends `n` in big-endian order.
#[verifier::external_body]
pub(crate) fn buf_put_u32(b: &mut bytes::BytesMut, n: u32)
    requires
        buf_bytes(*old(b)).len() + 4 <= isize::MAX,
    ensures
        buf_bytes(*final(b)) == buf_bytes(*old(b)) + be_bytes_u32(n),
{
    b.put_u32(n)
}

/// `BufMut::put_u8` on a `BytesMut`: appends one byte.
#[verifier::external_body]
pub(crate) fn buf_put_u8(b: &mut bytes::BytesMut, n: u8)
    requires
        buf_bytes(*old(b)).len() + 1 <= isize::MAX,
    ensures
        buf_bytes(*final(b)) == buf_bytes(*old(b)).push(n),
{
    b.put_u8(n)
}

/// `BufMut::put_slice` on a `BytesMut`: appends the bytes of `s`.
#[verifier::external_body]
pub(crate) fn buf_put_slice(b: &mut bytes::BytesMut, s: &[u8])
    requires
        buf_bytes(*old(b)).len() + s@.len() <= isize::MAX,
    ensures
        buf_bytes(*final(b)) == buf_bytes(*old(b)) + s@,
{
    b.put_slice(s)
}

/// `BytesMut` seen as a slice (its `AsRef<[u8]>`): the bytes it holds.
#[verifier::external_body]
pub(crate) fn buf_as_slice(b: &bytes::BytesMut) -> (s: &[u8])
    ensures
        s@ == buf_bytes(*b),
{
    b.as_ref()
}

/// `Buf::advance` on a `BytesMut`: drops the first `count` bytes. It panics
/// past the end, which the `requires` keeps out.
#[verifier::external_body]
pub(crate) fn buf_advance(b: &mut bytes::BytesMut, count: usize)
    requires
        count <= buf_bytes(*old(b)).len(),
    ensures
        buf_bytes(*final(b)) == buf_bytes(*old(b)).skip(count as int),
{
    b.advance(count)
}

/// `Buf::get_u8` on a `BytesMut`: takes the first byte off. It panics on an
/// empty buffer, which the `requires` keeps out.
#[verifier::external_body]
pub(crate) fn buf_get_u8(b: &mut bytes::BytesMut) -> (byte: u8)
    requires
        buf_bytes(*old(b)).len() >= 1,
    ensures
        byte == buf_bytes(*old(b))[0],
        buf_bytes(*final(b)) == buf_bytes(*old(b)).skip(1),
{
    b.get_u8()
}

/// `Buf::copy_to_slice` on a `BytesMut`, into a fresh vector of `count` bytes:
/// the first `count` bytes move into the vector. It panics when fewer are
/// held, which the `requires` keeps out.
#[verifier::external_body]
pub(crate) fn buf_copy_to_vec(b: &mut bytes::BytesMut, count: usize) -> (v: Vec<u8>)
    requires
        count <= buf_bytes(*old(b)).len(),
    ensures
        v@ == buf_bytes(*old(b)).take(count as int),
        buf_bytes(*final(b)) == buf_bytes(*old(b)).skip(count as int),
{
    let mut v = vec![0u8; count];
    b.copy_to_slice(&mut v);
    v
}

/// `BytesMut::split_to`: the first `at` bytes move into the returned buffer,
/// the rest stay. It panics past the end, which the `requires` keeps out.
#[verifier::external_body]
pub(crate) fn buf_split_to(b: &mut bytes::BytesMut, at: usize) -> (front: bytes::BytesMut)
    requires
        at <= buf_bytes(*old(b)).len(),
    ensures
        buf_bytes(front) == buf_bytes(*old(b)).take(at as int),
        buf_bytes(*final(b)) == buf_bytes(*old(b)).skip(at as int),
{
    b.split_to(at)
}

} // verus!
