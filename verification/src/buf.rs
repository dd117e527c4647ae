//! The byte buffers of the `bytes` crate, as far as the codec relies on them.
//!
//! A buffer is known here by the bytes it holds. Each item below states what
//! one operation of the crate does to those bytes; none of it is proved.
use bytes::BufMut;
use vstd::prelude::*;

verus! {

/// `bytes::BytesMut`, a buffer of bytes that grows at its end and is read
/// from its front.
#[verifier::external_type_specification]
#[verifier::external_body]
pub struct ExBytesMut(bytes::BytesMut);

/// `bytes::Bytes`, a buffer of bytes that no longer changes.
#[verifier::external_type_specification]
#[verifier::external_body]
pub struct ExBytes(bytes::Bytes);

/// The bytes that a `BytesMut` holds, first to last.
pub uninterp spec fn buffered(b: bytes::BytesMut) -> Seq<u8>;

/// The bytes that a `Bytes` holds, first to last.
pub uninterp spec fn frozen(b: bytes::Bytes) -> Seq<u8>;

/// `BytesMut::new` returns a buffer of length 0.
pub assume_specification[ bytes::BytesMut::new ]() -> (b: bytes::BytesMut)
    ensures
        buffered(b) == Seq::<u8>::empty(),
;

/// `BytesMut::with_capacity` returns a buffer that holds no data, whatever
/// its capacity. Allocating more than `isize::MAX` bytes panics.
pub assume_specification[ bytes::BytesMut::with_capacity ](capacity: usize) -> (b: bytes::BytesMut)
    requires
        capacity <= isize::MAX,
    ensures
        buffered(b) == Seq::<u8>::empty(),
;

/// `BytesMut::len` is the number of bytes held.
pub assume_specification[ bytes::BytesMut::len ](b: &bytes::BytesMut) -> (n: usize)
    ensures
        n == buffered(*b).len(),
;

/// `BytesMut::is_empty` tells whether the length is 0.
pub assume_specification[ bytes::BytesMut::is_empty ](b: &bytes::BytesMut) -> (e: bool)
    ensures
        e == (buffered(*b).len() == 0),
;

/// `BytesMut::split_to` hands out the first `at` bytes and keeps the rest.
/// It panics where `at` is past the end.
pub assume_specification[ bytes::BytesMut::split_to ](b: &mut bytes::BytesMut, at: usize) -> (head: bytes::BytesMut)
    requires
        at <= buffered(*old(b)).len(),
    ensures
        buffered(head) == buffered(*old(b)).subrange(0, at as int),
        buffered(*final(b)) == buffered(*old(b)).subrange(at as int, buffered(*old(b)).len() as int),
;

/// `BytesMut::reserve` makes room and leaves the data as it is. It panics
/// where the capacity asked for overflows.
pub assume_specification[ bytes::BytesMut::reserve ](b: &mut bytes::BytesMut, additional: usize)
    requires
        buffered(*old(b)).len() + additional <= isize::MAX,
    ensures
        buffered(*final(b)) == buffered(*old(b)),
;

/// `BytesMut::freeze` turns the buffer into an immutable one with the same
/// bytes.
pub assume_specification[ bytes::BytesMut::freeze ](b: bytes::BytesMut) -> (r: bytes::Bytes)
    ensures
        frozen(r) == buffered(b),
;

/// `BytesMut` as a slice: the bytes held.
pub assume_specification<'a>[ <bytes::BytesMut as AsRef<[u8]>>::as_ref ](b: &'a bytes::BytesMut) -> (s: &'a [u8])
    ensures
        s@ == buffered(*b),
;

/// `Bytes` as a slice: the bytes held.
pub assume_specification<'a>[ <bytes::Bytes as AsRef<[u8]>>::as_ref ](b: &'a bytes::Bytes) -> (s: &'a [u8])
    ensures
        s@ == frozen(*b),
;

/// `BufMut::put_slice` on a `BytesMut` appends the slice, growing the buffer
/// as needed; it panics where the new length overflows.
pub assume_specification[ <bytes::BytesMut as bytes::BufMut>::put_slice ](b: &mut bytes::BytesMut, src: &[u8])
    requires
        buffered(*old(b)).len() + src@.len() <= isize::MAX,
    ensures
        buffered(*final(b)) == buffered(*old(b)) + src@,
;

/// `BufMut::put_u8` on a `BytesMut` appends one byte; it panics where the
/// new length overflows.
#[verifier::external_body]
pub(crate) fn put_byte(b: &mut bytes::BytesMut, n: u8)
    requires
        buffered(*old(b)).len() + 1 <= isize::MAX,
    ensures
        buffered(*final(b)) == buffered(*old(b)).push(n),
{
    b.put_u8(n)
}

/// `BufMut::put` with a `BytesMut` as its source appends all of the source's
/// bytes; it panics where the new length overflows.
#[verifier::external_body]
pub(crate) fn put_buffer(dst: &mut bytes::BytesMut, src: bytes::BytesMut)
    requires
        buffered(*old(dst)).len() + buffered(src).len() <= isize::MAX,
    ensures
        buffered(*final(dst)) == buffered(*old(dst)) + buffered(src),
{
    dst.put(src)
}


} // verus!
