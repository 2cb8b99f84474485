//! The byte buffers of the `bytes` crate, as the codec uses them.
//!
//! `Bytes` and `BytesMut` are opaque to the verifier; their contents are named
//! by `bytes_view` and `buf_view`, and each operation used below says what it
//! does to those contents.
use vstd::prelude::*;

verus! {

#[verifier::external_type_specification]
#[verifier::external_body]
pub struct ExBytes(bytes::Bytes);

#[verifier::external_type_specification]
#[verifier::external_body]
pub struct ExBytesMut(bytes::BytesMut);

/// The bytes held by an immutable buffer.
pub uninterp spec fn bytes_view(b: bytes::Bytes) -> Seq<u8>;

/// The bytes held by a growable buffer.
pub uninterp spec fn buf_view(b: bytes::BytesMut) -> Seq<u8>;

/// The contents of each buffer of a sequence.
pub open spec fn fields_view(v: Seq<bytes::Bytes>) -> Seq<Seq<u8>> {
    v.map_values(|b: bytes::Bytes| bytes_view(b))
}

/// Relies on `Bytes`'s `Deref<Target = [u8]>`: the slice holds the buffer's bytes.
#[verifier::external_body]
pub(crate) fn bytes_as_slice(b: &bytes::Bytes) -> (r: &[u8])
    ensures
        r@ == bytes_view(*b),
{
    &b[..]
}

/// Relies on `Bytes::slice`: a handle on the bytes `start..end`.
#[verifier::external_body]
pub(crate) fn bytes_slice(b: &bytes::Bytes, start: usize, end: usize) -> (r: bytes::Bytes)
    requires
        start <= end <= bytes_view(*b).len(),
    ensures
        bytes_view(r) == bytes_view(*b).subrange(start as int, end as int),
{
    b.slice(start..end)
}

/// Relies on `BytesMut`'s `Deref<Target = [u8]>`: the slice holds the buffer's bytes.
#[verifier::external_body]
pub(crate) fn buf_as_slice(b: &bytes::BytesMut) -> (r: &[u8])
    ensures
        r@ == buf_view(*b),
{
    &b[..]
}

/// Relies on `Buf::advance` for `BytesMut`: drops the first `n` bytes.
#[verifier::external_body]
pub(crate) fn buf_advance(b: &mut bytes::BytesMut, n: usize)
    requires
        n <= buf_view(*old(b)).len(),
    ensures
        buf_view(*final(b)) == buf_view(*old(b)).subrange(n as int, buf_view(*old(b)).len() as int),
{
    bytes::Buf::advance(b, n)
}

/// Relies on `BytesMut::split_to`: returns the first `at` bytes and keeps the rest.
#[verifier::external_body]
pub(crate) fn buf_split_to(b: &mut bytes::BytesMut, at: usize) -> (r: bytes::BytesMut)
    requires
        at <= buf_view(*old(b)).len(),
    ensures
        buf_view(r) == buf_view(*old(b)).subrange(0, at as int),
        buf_view(*final(b)) == buf_view(*old(b)).subrange(at as int, buf_view(*old(b)).len() as int),
{
    b.split_to(at)
}

/// Relies on `BytesMut::freeze`: the same bytes, made immutable.
#[verifier::external_body]
pub(crate) fn buf_freeze(b: bytes::BytesMut) -> (r: bytes::Bytes)
    ensures
        bytes_view(r) == buf_view(b),
{
    b.freeze()
}

/// Relies on `BytesMut::extend_from_slice`: appends `s`. It panics when the
/// grown buffer cannot be addressed, which a length within `isize::MAX` rules out.
#[verifier::external_body]
pub(crate) fn buf_extend(b: &mut bytes::BytesMut, s: &[u8])
    requires
        buf_view(*old(b)).len() + s@.len() <= isize::MAX,
    ensures
        buf_view(*final(b)) == buf_view(*old(b)) + s@,
{
    b.extend_from_slice(s)
}

/// Relies on `From<Vec<u8>> for Bytes`: the same bytes, without copying.
#[verifier::external_body]
pub(crate) fn bytes_from_vec(v: Vec<u8>) -> (r: bytes::Bytes)
    ensures
        bytes_view(r) == v@,
{
    bytes::Bytes::from(v)
}

} // verus!
