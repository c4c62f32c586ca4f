//! The byte buffers of `bytes` that streamed responses are framed in:
//! `BytesMut` while bytes accumulate, `Bytes` for each frame handed out.

use bytes::{Buf as _, Bytes, BytesMut};
use vstd::prelude::*;

verus! {

#[verifier::external_type_specification]
#[verifier::external_body]
pub struct ExBytesMut(BytesMut);

#[verifier::external_type_specification]
#[verifier::external_body]
pub struct ExBytes(Bytes);

/// The bytes a `BytesMut` holds, in order.
pub uninterp spec fn bytes_mut_contents(b: BytesMut) -> Seq<u8>;

/// The bytes a `Bytes` holds, in order.
pub uninterp spec fn bytes_contents(b: Bytes) -> Seq<u8>;

/// `BytesMut::with_capacity`. Claimed: the buffer is empty.
#[verifier::external_body]
pub(crate) fn buf_with_capacity(capacity: usize) -> (res: BytesMut)
    ensures
        bytes_mut_contents(res) == Seq::<u8>::empty(),
{
    BytesMut::with_capacity(capacity)
}

/// `BytesMut::extend_from_slice`. Claimed: `data` is appended.
#[verifier::external_body]
pub(crate) fn buf_extend(buf: &mut BytesMut, data: &[u8])
    requires
        bytes_mut_contents(*old(buf)).len() + data@.len() <= usize::MAX,
    ensures
        bytes_mut_contents(*final(buf)) == bytes_mut_contents(*old(buf)) + data@,
{
    buf.extend_from_slice(data)
}

/// `BytesMut::len`. Claimed: the number of bytes held.
#[verifier::external_body]
pub(crate) fn buf_len(buf: &BytesMut) -> (res: usize)
    ensures
        res == bytes_mut_contents(*buf).len(),
{
    buf.len()
}

/// Indexing a `BytesMut`. Claimed: the byte at `i`.
#[verifier::external_body]
pub(crate) fn buf_at(buf: &BytesMut, i: usize) -> (res: u8)
    requires
        i < bytes_mut_contents(*buf).len(),
    ensures
        res == bytes_mut_contents(*buf)[i as int],
{
    buf[i]
}

/// `BytesMut::split_to`, frozen into `Bytes`. Claimed: the first `at`
/// bytes are handed out and the rest stay.
#[verifier::external_body]
pub(crate) fn buf_split_to(buf: &mut BytesMut, at: usize) -> (res: Bytes)
    requires
        at <= bytes_mut_contents(*old(buf)).len(),
    ensures
        bytes_contents(res) == bytes_mut_contents(*old(buf)).subrange(0, at as int),
        bytes_mut_contents(*final(buf)) == bytes_mut_contents(*old(buf)).subrange(
            at as int,
            bytes_mut_contents(*old(buf)).len() as int,
        ),
{
    buf.split_to(at).freeze()
}

/// `Buf::advance` on a `BytesMut`. Claimed: the first `n` bytes are
/// dropped.
#[verifier::external_body]
pub(crate) fn buf_advance(buf: &mut BytesMut, n: usize)
    requires
        n <= bytes_mut_contents(*old(buf)).len(),
    ensures
        bytes_mut_contents(*final(buf)) == bytes_mut_contents(*old(buf)).subrange(
            n as int,
            bytes_mut_contents(*old(buf)).len() as int,
        ),
{
    buf.advance(n)
}

/// `std::mem::take` of a `BytesMut`, frozen into `Bytes`. Claimed: every
/// byte is handed out and the buffer is left empty.
#[verifier::external_body]
pub(crate) fn buf_take_all(buf: &mut BytesMut) -> (res: Bytes)
    ensures
        bytes_contents(res) == bytes_mut_contents(*old(buf)),
        bytes_mut_contents(*final(buf)) == Seq::<u8>::empty(),
{
    std::mem::take(buf).freeze()
}

} // verus!
