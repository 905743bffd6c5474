//! The byte buffers into which a ring's records are read.

use bytes::BytesMut;
use vstd::prelude::*;

verus! {

/// `bytes::BytesMut`, a growable byte buffer. Nothing inside it is visible to
/// the verifier: what it holds is named by `buffer_contents`.
#[verifier::external_type_specification]
#[verifier::external_body]
pub struct ExBytesMut(bytes::BytesMut);

/// The bytes that a buffer holds, from its first to its last.
pub uninterp spec fn buffer_contents(buffer: &bytes::BytesMut) -> Seq<u8>;

/// `BytesMut::with_capacity`: a new buffer with room for `capacity` bytes.
/// Claimed: it holds no bytes.
#[verifier::external_body]
fn buffer_with_capacity(capacity: usize) -> (buffer: BytesMut)
    requires
        capacity <= isize::MAX,
    ensures
        buffer_contents(&buffer) == Seq::<u8>::empty(),
{
    BytesMut::with_capacity(capacity)
}

/// `BytesMut::as_ref`: the buffer as a byte slice. Claimed: the slice is what
/// the buffer holds.
#[verifier::external_body]
pub(crate) fn buffer_as_slice(buffer: &BytesMut) -> (bytes: &[u8])
    ensures
        bytes@ == buffer_contents(buffer),
{
    buffer.as_ref()
}

/// `BytesMut::clear`. Claimed: the buffer holds no bytes afterwards.
#[verifier::external_body]
fn buffer_clear(buffer: &mut BytesMut)
    ensures
        buffer_contents(final(buffer)) == Seq::<u8>::empty(),
{
    buffer.clear()
}

/// `BytesMut::extend_from_slice`. Claimed: the buffer holds what it held,
/// followed by `extend`.
#[verifier::external_body]
fn buffer_extend_from_slice(buffer: &mut BytesMut, extend: &[u8])
    requires
        buffer_contents(old(buffer)).len() + extend@.len() <= isize::MAX,
    ensures
        buffer_contents(final(buffer)) == buffer_contents(old(buffer)) + extend@,
{
    buffer.extend_from_slice(extend)
}

/// `count` empty buffers, each with room for `capacity` bytes.
pub fn event_buffers(count: usize, capacity: usize) -> (buffers: Vec<BytesMut>)
    requires
        capacity <= isize::MAX,
    ensures
        buffers@.len() == count,
        forall|i: int| 0 <= i < count ==> buffer_contents(&#[trigger] buffers@[i]).len() == 0,
{
    let mut buffers: Vec<BytesMut> = Vec::new();
    let mut i: usize = 0;
    while i < count
        invariant
            i <= count,
            capacity <= isize::MAX,
            buffers@.len() == i,
            forall|j: int| 0 <= j < i ==> buffer_contents(&#[trigger] buffers@[j]).len() == 0,
        decreases count - i,
    {
        buffers.push(buffer_with_capacity(capacity));
        i = i + 1;
    }
    buffers
}

/// Replaces what the buffer holds by `data`.
pub fn fill_buffer(buffer: &mut BytesMut, data: &[u8])
    requires
        data@.len() <= isize::MAX,
    ensures
        buffer_contents(final(buffer)) == data@,
{
    buffer_clear(buffer);
    buffer_extend_from_slice(buffer, data);
    assert(Seq::<u8>::empty() + data@ =~= data@);
}

} // verus!
