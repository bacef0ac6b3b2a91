//! The read buffer and the frozen chunks split from it.

use bytes::{Bytes, BytesMut};
use vstd::prelude::*;

verus! {

/// The growable read buffer, `bytes::BytesMut`.
#[verifier::external_type_specification]
#[verifier::external_body]
pub struct ExBytesMut(BytesMut);

/// An immutable, reference-counted byte region, `bytes::Bytes`.
#[verifier::external_type_specification]
#[verifier::external_body]
pub struct ExBytes(Bytes);

/// The bytes a read buffer currently holds, front first.
pub uninterp spec fn buffered(buf: BytesMut) -> Seq<u8>;

/// The bytes of a frozen region.
pub uninterp spec fn frozen(chunk: Bytes) -> Seq<u8>;

/// `BytesMut::len`: the number of bytes the buffer holds.
pub assume_specification[ BytesMut::len ](buf: &BytesMut) -> (n: usize)
    ensures
        n == buffered(*buf).len(),
;

/// `BytesMut::capacity`: how many bytes the buffer can hold without
/// reallocating. The allocator decides it; it is never below the length.
pub assume_specification[ BytesMut::capacity ](buf: &BytesMut) -> (n: usize)
    ensures
        n >= buffered(*buf).len(),
;

/// `BytesMut::split_to`: removes the first `at` bytes and returns them; the
/// buffer keeps the rest. The outside function panics when `at` exceeds the
/// length.
pub assume_specification[ BytesMut::split_to ](buf: &mut BytesMut, at: usize) -> (head: BytesMut)
    requires
        at <= buffered(*old(buf)).len(),
    ensures
        buffered(head) == buffered(*old(buf)).take(at as int),
        buffered(*final(buf)) == buffered(*old(buf)).skip(at as int),
;

/// `BytesMut::freeze`: the same bytes as an immutable region.
pub assume_specification[ BytesMut::freeze ](buf: BytesMut) -> (chunk: Bytes)
    ensures
        frozen(chunk) == buffered(buf),
;

/// `AsRef<[u8]>::as_ref` on `BytesMut`: the buffered bytes as a slice.
#[verifier::external_body]
pub(crate) fn window(buf: &BytesMut) -> (bytes: &[u8])
    ensures
        bytes@ == buffered(*buf),
{
    buf.as_ref()
}

} // verus!
