//! The read buffer that the frame decoder consumes.
//!
//! The buffer is `bytes::BytesMut`, as the framed reader of `tokio_util`
//! hands it to a decoder. Verus does not look inside it: what it holds is
//! named by [`buffered`], and the two operations the decoder needs are
//! stated over that name without proof.

use tokio_util::bytes::Buf;
use tokio_util::bytes::BytesMut;
use vstd::prelude::*;

verus! {

/// `bytes::BytesMut`, opaque to the verifier.
#[verifier::external_type_specification]
#[verifier::external_body]
pub struct ExBytesMut(BytesMut);

/// The bytes that a buffer holds and has not yet given up, oldest first.
pub uninterp spec fn buffered(src: BytesMut) -> Seq<u8>;

/// `Buf::chunk` on `BytesMut`: the whole unread content as one slice. For
/// `BytesMut` the chunk is never a part only, the buffer being contiguous.
#[verifier::external_body]
pub(crate) fn unread(src: &BytesMut) -> (bytes: &[u8])
    ensures
        bytes@ == buffered(*src),
{
    src.chunk()
}

/// `Buf::advance` on `BytesMut`: drops the first `cnt` bytes and keeps the
/// others in order. The outside function panics when asked to drop more
/// than the buffer holds, which `requires` rules out.
#[verifier::external_body]
pub(crate) fn discard(src: &mut BytesMut, cnt: usize)
    requires
        cnt <= buffered(*old(src)).len(),
    ensures
        buffered(*final(src)) == buffered(*old(src)).skip(cnt as int),
{
    src.advance(cnt)
}

} // verus!
