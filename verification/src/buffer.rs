//! The byte buffer of the `bytes` crate (re-exported by `tokio_util`), as the
//! encoders, decoders and framers of this crate use it.
use vstd::prelude::*;
use tokio_util::bytes::{Buf, BufMut, BytesMut};

verus! {

#[verifier::external_type_specification]
#[verifier::external_body]
pub struct ExBytesMut(tokio_util::bytes::BytesMut);

/// The bytes that a `BytesMut` holds, from its read position to its end.
pub uninterp spec fn bytes_of(b: BytesMut) -> Seq<u8>;

/// Big-endian encoding of a 16-bit value.
pub open spec fn be16(v: u16) -> Seq<u8> {
    seq![(v / 256) as u8, (v % 256) as u8]
}

/// Big-endian encoding of a 32-bit value.
pub open spec fn be32(v: u32) -> Seq<u8> {
    seq![(v / 0x1000000) as u8, ((v / 0x10000) % 256) as u8, ((v / 256) % 256) as u8, (v % 256) as u8]
}

/// The 16-bit value whose big-endian encoding is `hi, lo`.
pub open spec fn from_be16(hi: u8, lo: u8) -> u16 {
    (hi as int * 256 + lo as int) as u16
}

/// The 32-bit value whose big-endian encoding is `b0, b1, b2, b3`.
pub open spec fn from_be32(b0: u8, b1: u8, b2: u8, b3: u8) -> u32 {
    (b0 as int * 0x1000000 + b1 as int * 0x10000 + b2 as int * 256 + b3 as int) as u32
}

/// Longest contents a `BytesMut` may reach: its capacity cannot pass `isize::MAX`.
pub open spec fn fits(n: nat) -> bool {
    n <= isize::MAX
}

/// `BytesMut::new`: an empty buffer.
#[verifier::external_body]
pub(crate) fn buf_new() -> (r: BytesMut)
    ensures
        bytes_of(r) == Seq::<u8>::empty(),
{
    BytesMut::new()
}

/// `BytesMut::with_capacity`: an empty buffer.
#[verifier::external_body]
pub(crate) fn buf_with_capacity(capacity: usize) -> (r: BytesMut)
    requires
        fits(capacity as nat),
    ensures
        bytes_of(r) == Seq::<u8>::empty(),
{
    BytesMut::with_capacity(capacity)
}

/// `BytesMut::from(&[u8])`: a buffer that holds a copy of `data`.
#[verifier::external_body]
pub(crate) fn buf_from(data: &[u8]) -> (r: BytesMut)
    ensures
        bytes_of(r) == data@,
{
    BytesMut::from(data)
}

/// `BufMut::put_u8`: appends one byte.
#[verifier::external_body]
pub(crate) fn put_u8(b: &mut BytesMut, v: u8)
    requires
        fits(bytes_of(*old(b)).len() + 1),
    ensures
        bytes_of(*final(b)) == bytes_of(*old(b)).push(v),
{
    b.put_u8(v)
}

/// `BufMut::put_u16`: appends the two bytes of `v`, most significant first.
#[verifier::external_body]
pub(crate) fn put_u16(b: &mut BytesMut, v: u16)
    requires
        fits(bytes_of(*old(b)).len() + 2),
    ensures
        bytes_of(*final(b)) == bytes_of(*old(b)) + be16(v),
{
    b.put_u16(v)
}

/// `BufMut::put`: appends what `src` holds.
#[verifier::external_body]
pub(crate) fn put_buf(b: &mut BytesMut, src: BytesMut)
    requires
        fits(bytes_of(*old(b)).len() + bytes_of(src).len()),
    ensures
        bytes_of(*final(b)) == bytes_of(*old(b)) + bytes_of(src),
{
    b.put(src)
}

/// `BytesMut::extend_from_slice`: appends `data`.
#[verifier::external_body]
pub(crate) fn extend_from_slice(b: &mut BytesMut, data: &[u8])
    requires
        fits(bytes_of(*old(b)).len() + data@.len()),
    ensures
        bytes_of(*final(b)) == bytes_of(*old(b)) + data@,
{
    b.extend_from_slice(data)
}

/// `<[u8]>::to_vec` through `BytesMut`'s `Deref`: a copy of the contents.
#[verifier::external_body]
pub(crate) fn buf_to_vec(b: &BytesMut) -> (r: Vec<u8>)
    ensures
        r@ == bytes_of(*b),
{
    b.to_vec()
}

/// `BytesMut::len`: the number of bytes held.
#[verifier::external_body]
pub(crate) fn buf_len(b: &BytesMut) -> (r: usize)
    ensures
        r as int == bytes_of(*b).len(),
{
    b.len()
}

/// `Buf::remaining`: the number of bytes left to read.
#[verifier::external_body]
pub(crate) fn remaining(b: &BytesMut) -> (r: usize)
    ensures
        r as int == bytes_of(*b).len(),
{
    b.remaining()
}

/// Indexing through `BytesMut`'s `Deref`: the byte at `i`.
#[verifier::external_body]
pub(crate) fn buf_at(b: &BytesMut, i: usize) -> (r: u8)
    requires
        i < bytes_of(*b).len(),
    ensures
        r == bytes_of(*b)[i as int],
{
    b[i]
}

/// `Buf::get_u8`: takes the first byte.
#[verifier::external_body]
pub(crate) fn get_u8(b: &mut BytesMut) -> (r: u8)
    requires
        bytes_of(*old(b)).len() >= 1,
    ensures
        r == bytes_of(*old(b))[0],
        bytes_of(*final(b)) == bytes_of(*old(b)).subrange(1, bytes_of(*old(b)).len() as int),
{
    b.get_u8()
}

/// `Buf::get_u16`: takes the first two bytes as a big-endian value.
#[verifier::external_body]
pub(crate) fn get_u16(b: &mut BytesMut) -> (r: u16)
    requires
        bytes_of(*old(b)).len() >= 2,
    ensures
        r == from_be16(bytes_of(*old(b))[0], bytes_of(*old(b))[1]),
        bytes_of(*final(b)) == bytes_of(*old(b)).subrange(2, bytes_of(*old(b)).len() as int),
{
    b.get_u16()
}

/// `Buf::get_u32`: takes the first four bytes as a big-endian value.
#[verifier::external_body]
pub(crate) fn get_u32(b: &mut BytesMut) -> (r: u32)
    requires
        bytes_of(*old(b)).len() >= 4,
    ensures
        r == from_be32(
            bytes_of(*old(b))[0],
            bytes_of(*old(b))[1],
            bytes_of(*old(b))[2],
            bytes_of(*old(b))[3],
        ),
        bytes_of(*final(b)) == bytes_of(*old(b)).subrange(4, bytes_of(*old(b)).len() as int),
{
    b.get_u32()
}

/// `Buf::copy_to_slice` into a fresh vector of `n` bytes: takes the first `n` bytes.
#[verifier::external_body]
pub(crate) fn copy_to_vec(b: &mut BytesMut, n: usize) -> (r: Vec<u8>)
    requires
        bytes_of(*old(b)).len() >= n,
    ensures
        r@ == bytes_of(*old(b)).subrange(0, n as int),
        bytes_of(*final(b)) == bytes_of(*old(b)).subrange(n as int, bytes_of(*old(b)).len() as int),
{
    let mut v = vec![0u8; n];
    b.copy_to_slice(&mut v);
    v
}

/// `Buf::copy_to_bytes`, the result copied out: takes the first `n` bytes.
#[verifier::external_body]
pub(crate) fn copy_to_bytes_vec(b: &mut BytesMut, n: usize) -> (r: Vec<u8>)
    requires
        bytes_of(*old(b)).len() >= n,
    ensures
        r@ == bytes_of(*old(b)).subrange(0, n as int),
        bytes_of(*final(b)) == bytes_of(*old(b)).subrange(n as int, bytes_of(*old(b)).len() as int),
{
    b.copy_to_bytes(n).to_vec()
}

/// `BytesMut::split_to`: takes the first `at` bytes out as a buffer of their own.
#[verifier::external_body]
pub(crate) fn split_to(b: &mut BytesMut, at: usize) -> (r: BytesMut)
    requires
        at <= bytes_of(*old(b)).len(),
    ensures
        bytes_of(r) == bytes_of(*old(b)).subrange(0, at as int),
        bytes_of(*final(b)) == bytes_of(*old(b)).subrange(at as int, bytes_of(*old(b)).len() as int),
{
    b.split_to(at)
}

/// `BytesMut::reserve`: makes room; the contents stay as they are.
#[verifier::external_body]
pub(crate) fn reserve(b: &mut BytesMut, additional: usize)
    requires
        fits(bytes_of(*old(b)).len() + additional as nat),
    ensures
        bytes_of(*final(b)) == bytes_of(*old(b)),
{
    b.reserve(additional)
}

/// `BytesMut::clear`: removes all contents.
#[verifier::external_body]
pub(crate) fn clear(b: &mut BytesMut)
    ensures
        bytes_of(*final(b)) == Seq::<u8>::empty(),
{
    b.clear()
}

} // verus!
