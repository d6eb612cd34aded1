//! The byte buffer of the serial codecs: `bytes::BytesMut`, seen as a sequence of bytes.
use bytes::{BufMut, BytesMut};
use vstd::prelude::*;

verus! {

/// `bytes::BytesMut`, carried as an opaque value; what it holds is [`contents`].
#[verifier::external_type_specification]
#[verifier::external_body]
pub struct ExBytesMut(BytesMut);

/// The bytes that a buffer holds, first byte first.
pub uninterp spec fn contents(buf: BytesMut) -> Seq<u8>;

/// `BytesMut::len`: the number of bytes held.
pub assume_specification[ BytesMut::len ](buf: &BytesMut) -> (n: usize)
    ensures
        n == contents(*buf).len(),
;

/// `BytesMut::clear`: drops every byte.
pub assume_specification[ BytesMut::clear ](buf: &mut BytesMut)
    ensures
        contents(*final(buf)) == Seq::<u8>::empty(),
;

/// `BytesMut::split_to`: hands out the first `at` bytes and keeps the others. It panics where
/// `at` is past the end.
pub assume_specification[ BytesMut::split_to ](buf: &mut BytesMut, at: usize) -> (head: BytesMut)
    requires
        at <= contents(*old(buf)).len(),
    ensures
        contents(head) == contents(*old(buf)).take(at as int),
        contents(*final(buf)) == contents(*old(buf)).skip(at as int),
;

/// Whether there is room for so many more bytes and the end of a line behind them.
pub fn has_room(dst: &BytesMut, added: usize) -> (fits: bool)
    ensures
        fits == (contents(*dst).len() + added < isize::MAX / 2),
{
    let limit: usize = isize::MAX as usize / 2;
    let held: usize = dst.len();
    held < limit && added < limit - held
}

/// `BytesMut::as_ref`: the bytes held, as a slice.
#[verifier::external_body]
pub(crate) fn bytes_of(buf: &BytesMut) -> (bytes: &[u8])
    ensures
        bytes@ == contents(*buf),
{
    buf.as_ref()
}

/// `BytesMut`'s equality with a byte slice: whether it holds just these bytes.
#[verifier::external_body]
pub(crate) fn holds(buf: &BytesMut, bytes: &[u8]) -> (same: bool)
    ensures
        same == (contents(*buf) == bytes@),
{
    *buf == *bytes
}

/// `BufMut::put` on a `BytesMut`: appends the bytes of a slice. A store has at most `isize::MAX`
/// bytes and doubles when it grows, hence the limit. Two things are left out of account: that
/// memory runs out before, and that bytes which were split off still take up room in the store.
#[verifier::external_body]
pub(crate) fn put(buf: &mut BytesMut, bytes: &[u8])
    requires
        contents(*old(buf)).len() + bytes@.len() <= isize::MAX / 2,
    ensures
        contents(*final(buf)) == contents(*old(buf)) + bytes@,
{
    buf.put(bytes);
}

/// `BufMut::put_u8` on a `BytesMut`: appends one byte, under the same limit as [`put`].
#[verifier::external_body]
pub(crate) fn put_u8(buf: &mut BytesMut, byte: u8)
    requires
        contents(*old(buf)).len() < isize::MAX / 2,
    ensures
        contents(*final(buf)) == contents(*old(buf)).push(byte),
{
    buf.put_u8(byte);
}

} // verus!
