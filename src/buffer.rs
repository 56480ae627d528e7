//! The growable output buffer that encoders write into.
use bytes::BufMut;
use bytes::BytesMut;
use vstd::prelude::*;

verus! {

/// Declares `bytes::BytesMut`, the growable byte buffer of the `bytes`
/// crate, so that it can stand in signatures; what it holds is `buf_view`.
#[verifier::external_type_specification]
#[verifier::external_body]
pub struct ExBytesMut(BytesMut);

/// The bytes held by an output buffer, in order.
pub uninterp spec fn buf_view(b: BytesMut) -> Seq<u8>;

/// Relies on `BufMut::put_u8` for `BytesMut`: appends one byte, growing the
/// buffer as needed; like `Vec::push`, it fails only when memory runs out.
#[verifier::external_body]
pub(crate) fn put_u8(buf: &mut BytesMut, v: u8)
    ensures
        buf_view(*final(buf)) == buf_view(*old(buf)).push(v),
{
    buf.put_u8(v)
}

/// Relies on `BytesMut::extend_from_slice`: appends the bytes of `s`, growing
/// the buffer as needed; like `Vec::extend_from_slice`, it fails only when
/// memory runs out.
#[verifier::external_body]
pub(crate) fn extend_from_slice(buf: &mut BytesMut, s: &[u8])
    ensures
        buf_view(*final(buf)) == buf_view(*old(buf)) + s@,
{
    buf.extend_from_slice(s)
}

/// Relies on `Deref` for `BytesMut` (`&buf[..]`): the slice is the bytes the
/// buffer holds, in order.
#[verifier::external_body]
pub(crate) fn buffer_bytes(buf: &BytesMut) -> (r: &[u8])
    ensures
        r@ == buf_view(*buf),
{
    &buf[..]
}

} // verus!
