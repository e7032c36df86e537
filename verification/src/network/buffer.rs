//! The byte buffer of a connection, a `bytes::BytesMut`.

use vstd::prelude::*;

verus! {

/// The type `bytes::BytesMut`, taken as opaque.
#[verifier::external_type_specification]
#[verifier::external_body]
pub struct ExBytesMut(bytes::BytesMut);

/// The bytes that a buffer holds.
pub uninterp spec fn buffered(buffer: bytes::BytesMut) -> Seq<u8>;

/// Wraps `bytes::BytesMut::len`: how many bytes a buffer holds.
#[verifier::external_body]
pub(crate) fn len(buffer: &bytes::BytesMut) -> (count: usize)
    ensures
        count == buffered(*buffer).len(),
{
    buffer.len()
}

/// Wraps `bytes::Buf::advance` on a `BytesMut`: the first bytes go, the rest stays. It
/// panics past the end, hence the condition.
#[verifier::external_body]
pub(crate) fn advance(buffer: &mut bytes::BytesMut, count: usize)
    requires
        count <= buffered(*old(buffer)).len(),
    ensures
        buffered(*final(buffer)) == buffered(*old(buffer)).skip(count as int),
{
    bytes::Buf::advance(buffer, count)
}

/// Wraps `bytes::BytesMut::extend_from_slice`: the bytes come after those that are
/// there. It panics where a buffer cannot grow so far, hence the condition; memory that
/// runs out is not spoken of.
#[verifier::external_body]
pub(crate) fn extend(buffer: &mut bytes::BytesMut, data: &[u8])
    requires
        buffered(*old(buffer)).len() + data@.len() <= isize::MAX,
    ensures
        buffered(*final(buffer)) == buffered(*old(buffer)) + data@,
{
    buffer.extend_from_slice(data)
}

} // verus!
