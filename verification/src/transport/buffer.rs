// SPDX-License-Identifier: GPL-3.0-or-later
//! What this crate relies on of [`bytes::BytesMut`], the growable buffer that
//! carries bytes between the tunnel and the PPP daemon.
//!
//! Nothing in this file is proved: each contract says what the `bytes` crate
//! does. A call that would need more memory than the allocator can hand out is
//! left to the `requires` only as far as the length shows it.

use bytes::{Buf, BufMut, BytesMut};
use vstd::prelude::*;

verus! {

/// The buffer type of the `bytes` crate; only [`buffered`] speaks of what is in
/// one.
#[verifier::external_type_specification]
#[verifier::external_body]
pub struct ExBytesMut(BytesMut);

/// The bytes that a buffer holds, oldest first.
pub uninterp spec fn buffered(buf: BytesMut) -> Seq<u8>;

/// `BytesMut::new` makes an empty buffer.
pub assume_specification[ BytesMut::new ]() -> (buf: BytesMut)
    ensures
        buffered(buf) == Seq::<u8>::empty(),
;

/// `BytesMut::with_capacity` makes an empty buffer; no allocation is larger than
/// `isize::MAX` bytes.
pub assume_specification[ BytesMut::with_capacity ](capacity: usize) -> (buf: BytesMut)
    requires
        capacity <= isize::MAX,
    ensures
        buffered(buf) == Seq::<u8>::empty(),
;

/// `BytesMut::len` is the number of bytes held, which no allocation lets exceed
/// `isize::MAX`.
pub assume_specification[ BytesMut::len ](buf: &BytesMut) -> (n: usize)
    ensures
        n == buffered(*buf).len(),
        n <= isize::MAX,
;

/// `BytesMut::reserve` makes room for `additional` more bytes and leaves the
/// contents alone.
pub assume_specification[ BytesMut::reserve ](buf: &mut BytesMut, additional: usize)
    requires
        buffered(*old(buf)).len() + additional <= isize::MAX,
    ensures
        buffered(*final(buf)) == buffered(*old(buf)),
;

/// `BytesMut::extend_from_slice` appends the bytes of `extend`.
pub assume_specification[ BytesMut::extend_from_slice ](buf: &mut BytesMut, extend: &[u8])
    requires
        buffered(*old(buf)).len() + extend@.len() <= isize::MAX,
    ensures
        buffered(*final(buf)) == buffered(*old(buf)) + extend@,
;

/// `BytesMut::truncate` keeps the first `len` bytes; it does nothing when there
/// are no more than that.
pub assume_specification[ BytesMut::truncate ](buf: &mut BytesMut, len: usize)
    ensures
        buffered(*final(buf)) == if len <= buffered(*old(buf)).len() {
            buffered(*old(buf)).take(len as int)
        } else {
            buffered(*old(buf))
        },
;

/// `BytesMut::split_to` hands out the first `at` bytes and keeps the rest; it
/// panics when there are fewer.
pub assume_specification[ BytesMut::split_to ](buf: &mut BytesMut, at: usize) -> (head: BytesMut)
    requires
        at <= buffered(*old(buf)).len(),
    ensures
        buffered(head) == buffered(*old(buf)).take(at as int),
        buffered(*final(buf)) == buffered(*old(buf)).skip(at as int),
;

/// `AsRef::as_ref` of a buffer is the slice of the bytes it holds.
#[verifier::external_body]
pub(crate) fn as_slice(buf: &BytesMut) -> (s: &[u8])
    ensures
        s@ == buffered(*buf),
{
    buf.as_ref()
}

/// `Buf::advance` drops the first `cnt` bytes; it panics when there are fewer.
#[verifier::external_body]
pub(crate) fn advance(buf: &mut BytesMut, cnt: usize)
    requires
        cnt <= buffered(*old(buf)).len(),
    ensures
        buffered(*final(buf)) == buffered(*old(buf)).skip(cnt as int),
{
    buf.advance(cnt)
}

/// `BufMut::put_u8` appends one byte.
#[verifier::external_body]
pub(crate) fn put_u8(buf: &mut BytesMut, byte: u8)
    requires
        buffered(*old(buf)).len() < isize::MAX,
    ensures
        buffered(*final(buf)) == buffered(*old(buf)).push(byte),
{
    buf.put_u8(byte)
}

/// `BufMut::put_u16` appends the two bytes of `value`, the high one first.
#[verifier::external_body]
pub(crate) fn put_u16(buf: &mut BytesMut, value: u16)
    requires
        buffered(*old(buf)).len() + 2 <= isize::MAX,
    ensures
        buffered(*final(buf)) == buffered(*old(buf)).push((value / 256) as u8).push(
            (value % 256) as u8,
        ),
{
    buf.put_u16(value)
}

/// `BufMut::put_slice` appends the bytes of `src`.
#[verifier::external_body]
pub(crate) fn put_slice(buf: &mut BytesMut, src: &[u8])
    requires
        buffered(*old(buf)).len() + src@.len() <= isize::MAX,
    ensures
        buffered(*final(buf)) == buffered(*old(buf)) + src@,
{
    buf.put_slice(src)
}

} // verus!
