//! Byte buffers of the `bytes` crate, as the codec sees them.
//!
//! `Bytes` is read from the front and `BytesMut` is appended to at the back.
//! Both are opaque to the verifier: what they hold is named by
//! [`bytes_view`] and [`bytes_mut_view`], and the functions below state what
//! each call does to those contents. None of these statements is proved.

use bytes::{Buf, BufMut, Bytes, BytesMut};
use vstd::prelude::*;

verus! {

/// `bytes::Bytes`, a shared run of bytes that is read from the front. The
/// verifier sees nothing inside it.
#[verifier::external_type_specification]
#[verifier::external_body]
pub struct ExBytes(Bytes);

/// `bytes::BytesMut`, a growable run of bytes that is appended to at the
/// back. The verifier sees nothing inside it.
#[verifier::external_type_specification]
#[verifier::external_body]
pub struct ExBytesMut(BytesMut);

/// The bytes that a `Bytes` still holds, in reading order.
pub uninterp spec fn bytes_view(buf: Bytes) -> Seq<u8>;

/// The bytes that a `BytesMut` holds, in writing order.
pub uninterp spec fn bytes_mut_view(buf: BytesMut) -> Seq<u8>;

/// `Buf::chunk` on `Bytes`: the whole of the unread contents as one slice.
/// Nothing is consumed.
#[verifier::external_body]
pub(crate) fn peek(buf: &Bytes) -> (chunk: &[u8])
    ensures
        chunk@ == bytes_view(*buf),
{
    buf.chunk()
}

/// `Buf::advance` on `Bytes`: drops the first `cnt` bytes. The call panics
/// when `cnt` exceeds what is left, which the precondition excludes.
#[verifier::external_body]
pub(crate) fn advance(buf: &mut Bytes, cnt: usize)
    requires
        cnt <= bytes_view(*old(buf)).len(),
    ensures
        bytes_view(*final(buf)) == bytes_view(*old(buf)).skip(cnt as int),
{
    buf.advance(cnt)
}

/// `BufMut::put_slice` on `BytesMut`: appends `src` after the current
/// contents, growing the buffer as needed. The call panics when the buffer
/// would outgrow `isize::MAX` bytes, which the precondition excludes.
#[verifier::external_body]
pub(crate) fn put_slice(buf: &mut BytesMut, src: &[u8])
    requires
        bytes_mut_view(*old(buf)).len() + src@.len() <= isize::MAX,
    ensures
        bytes_mut_view(*final(buf)) == bytes_mut_view(*old(buf)) + src@,
{
    buf.put_slice(src)
}

/// `BufMut::remaining_mut` on `BytesMut`: how many more bytes the buffer
/// takes, which is `isize::MAX` less the bytes it holds.
#[verifier::external_body]
fn remaining_mut(buf: &BytesMut) -> (room: usize)
    ensures
        room == isize::MAX - bytes_mut_view(*buf).len(),
{
    buf.remaining_mut()
}

/// Whether `n` more bytes can be appended to `buf`.
pub fn has_room(buf: &BytesMut, n: usize) -> (r: bool)
    ensures
        r <==> bytes_mut_view(*buf).len() + n <= isize::MAX,
{
    n <= remaining_mut(buf)
}

} // verus!
