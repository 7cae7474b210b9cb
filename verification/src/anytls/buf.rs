//! Growable byte buffers, kept in `bytes::BytesMut`.

use crate::number;
use bytes::{BufMut, BytesMut};
use vstd::prelude::*;

verus! {

/// `bytes::BytesMut`, a growable buffer of bytes.
#[verifier::external_type_specification]
#[verifier::external_body]
pub struct ExBytesMut(bytes::BytesMut);

/// The bytes that a buffer holds.
pub uninterp spec fn contents(b: BytesMut) -> Seq<u8>;

/// `BytesMut::new` makes a buffer without bytes.
pub assume_specification[ BytesMut::new ]() -> (b: BytesMut)
    ensures
        contents(b) == Seq::<u8>::empty(),
;

/// `BytesMut::from` a slice makes a buffer with a copy of the bytes.
#[verifier::external_body]
pub(crate) fn from_slice(bytes: &[u8]) -> (b: BytesMut)
    ensures
        contents(b) == bytes@,
{
    BytesMut::from(bytes)
}

/// `BytesMut::len` counts the bytes.
pub assume_specification[ BytesMut::len ](b: &BytesMut) -> (n: usize)
    ensures
        n == contents(*b).len(),
;

/// `BytesMut::clear` removes every byte.
pub assume_specification[ BytesMut::clear ](b: &mut BytesMut)
    ensures
        contents(*final(b)) == Seq::<u8>::empty(),
;

/// `BytesMut::split_off` keeps the first `at` bytes and hands out the rest.
/// A position past the capacity panics, so `at` stays within the contents.
pub assume_specification[ BytesMut::split_off ](b: &mut BytesMut, at: usize) -> (rest: BytesMut)
    requires
        at <= contents(*old(b)).len(),
    ensures
        contents(*final(b)) == contents(*old(b)).take(at as int),
        contents(rest) == contents(*old(b)).skip(at as int),
;

/// `BytesMut::extend_from_slice` appends the bytes of a slice. Growth past
/// `isize::MAX` bytes panics.
pub assume_specification[ BytesMut::extend_from_slice ](b: &mut BytesMut, extend: &[u8])
    requires
        contents(*old(b)).len() + extend@.len() <= isize::MAX,
    ensures
        contents(*final(b)) == contents(*old(b)) + extend@,
;

/// `BufMut::put_u8` appends one byte. Growth past `isize::MAX` bytes panics.
#[verifier::external_body]
pub(crate) fn put_u8(b: &mut BytesMut, n: u8)
    requires
        contents(*old(b)).len() + 1 <= isize::MAX,
    ensures
        contents(*final(b)) == contents(*old(b)).push(n),
{
    b.put_u8(n)
}

/// `BufMut::put_u16` appends a number in network order. Growth past
/// `isize::MAX` bytes panics.
#[verifier::external_body]
pub(crate) fn put_u16(b: &mut BytesMut, n: u16)
    requires
        contents(*old(b)).len() + 2 <= isize::MAX,
    ensures
        contents(*final(b)) == contents(*old(b)) + number::be16(n),
{
    b.put_u16(n)
}

/// `BufMut::put_u32` appends a number in network order. Growth past
/// `isize::MAX` bytes panics.
#[verifier::external_body]
pub(crate) fn put_u32(b: &mut BytesMut, n: u32)
    requires
        contents(*old(b)).len() + 4 <= isize::MAX,
    ensures
        contents(*final(b)) == contents(*old(b)) + number::be32(n),
{
    b.put_u32(n)
}

/// `BytesMut` read as a slice (its `Deref`) and copied into a vector.
#[verifier::external_body]
pub(crate) fn to_vec(b: &BytesMut) -> (v: Vec<u8>)
    ensures
        v@ == contents(*b),
{
    b.to_vec()
}

} // verus!
