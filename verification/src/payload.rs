//! The byte buffers that encoded frames are written into and handed around in.

use bytes::{Bytes, BytesMut};
use vstd::prelude::*;

verus! {

/// `bytes::Bytes`, an immutable byte string that is cheap to clone.
#[verifier::external_type_specification]
#[verifier::external_body]
pub struct ExBytes(Bytes);

/// `bytes::BytesMut`, a growable byte buffer whose front can be split off.
#[verifier::external_type_specification]
#[verifier::external_body]
pub struct ExBytesMut(BytesMut);

/// The bytes of a byte string.
pub uninterp spec fn bytes_contents(bytes: Bytes) -> Seq<u8>;

/// The bytes of a buffer.
pub uninterp spec fn buffer_contents(buffer: BytesMut) -> Seq<u8>;

/// `contents`, cut off or filled up with `value` to `len` bytes.
pub open spec fn resized(contents: Seq<u8>, len: nat, value: u8) -> Seq<u8> {
    Seq::new(
        len,
        |i: int|
            if i < contents.len() {
                contents[i]
            } else {
                value
            },
    )
}

/// `bytes::BytesMut::new` makes an empty buffer.
pub assume_specification[ BytesMut::new ]() -> (buffer: BytesMut)
    ensures
        buffer_contents(buffer) == Seq::<u8>::empty(),
;

/// `bytes::BytesMut::resize` cuts the buffer off at `new_len` bytes or fills it up to
/// them with `value`. It panics where the bytes exceed the address space.
pub assume_specification[ BytesMut::resize ](buffer: &mut BytesMut, new_len: usize, value: u8)
    requires
        new_len <= usize::MAX / 2,
    ensures
        buffer_contents(*final(buffer)) == resized(
            buffer_contents(*old(buffer)),
            new_len as nat,
            value,
        ),
;

/// `bytes::BytesMut::split_to` splits off the first `at` bytes and keeps the others. It
/// panics where there are fewer.
pub assume_specification[ BytesMut::split_to ](buffer: &mut BytesMut, at: usize) -> (front:
    BytesMut)
    requires
        at <= buffer_contents(*old(buffer)).len(),
    ensures
        buffer_contents(front) == buffer_contents(*old(buffer)).take(at as int),
        buffer_contents(*final(buffer)) == buffer_contents(*old(buffer)).skip(at as int),
;

/// `bytes::BytesMut::freeze` turns the buffer into a byte string with the same bytes.
pub assume_specification[ BytesMut::freeze ](buffer: BytesMut) -> (bytes: Bytes)
    ensures
        bytes_contents(bytes) == buffer_contents(buffer),
;

/// `Clone` of `bytes::Bytes` gives a byte string with the same bytes.
pub assume_specification[ <Bytes as Clone>::clone ](bytes: &Bytes) -> (copy: Bytes)
    ensures
        bytes_contents(copy) == bytes_contents(*bytes),
;

/// `AsMut` of `bytes::BytesMut`: the buffer's bytes in place. What is written through the
/// slice is what the buffer holds afterwards.
#[verifier::external_body]
pub(crate) fn buffer_slice(buffer: &mut BytesMut) -> (slice: &mut [u8])
    ensures
        slice@ == buffer_contents(*old(buffer)),
        final(slice)@.len() == slice@.len(),
        buffer_contents(*final(buffer)) == final(slice)@,
{
    buffer.as_mut()
}

/// A buffer that is resized keeps its bytes as far as they reach, and has the value in the
/// others.
pub proof fn resizing_keeps_the_front(contents: Seq<u8>, len: nat, value: u8, at: int)
    ensures
        resized(contents, len, value).len() == len,
        0 <= at < len && at < contents.len() ==> resized(contents, len, value)[at] == contents[at],
        contents.len() <= at < len ==> resized(contents, len, value)[at] == value,
{
}

} // verus!
