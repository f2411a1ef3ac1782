//! The receive buffer of a message, a `bytes::BytesMut` that the decoder
//! consumes from the front, and the text conversions the protocol needs.

use bytes::BytesMut;
use vstd::prelude::*;
use vstd::utf8::{decode_utf8, valid_utf8};

verus! {

#[verifier::external_type_specification]
#[verifier::external_body]
pub struct ExBytesMut(BytesMut);

/// The bytes that a `BytesMut` holds, in order.
pub uninterp spec fn buf_contents(buf: BytesMut) -> Seq<u8>;

/// `BytesMut::len`: the source returns the number of bytes the buffer holds.
#[verifier::external_body]
pub(crate) fn buf_len(buf: &BytesMut) -> (n: usize)
    ensures
        n == buf_contents(*buf).len(),
{
    buf.len()
}

/// `BytesMut::split_to`: afterwards the buffer holds the bytes from `at` on
/// and the returned buffer the first `at` bytes. The source asserts
/// `at <= len`, so `requires` leaves the larger `at` out.
#[verifier::external_body]
pub(crate) fn buf_split_to(buf: &mut BytesMut, at: usize) -> (front: BytesMut)
    requires
        at <= buf_contents(*old(buf)).len(),
    ensures
        buf_contents(front) == buf_contents(*old(buf)).take(at as int),
        buf_contents(*final(buf)) == buf_contents(*old(buf)).skip(at as int),
{
    buf.split_to(at)
}

/// `BytesMut::truncate`: keeps the first `len` bytes; the source does nothing
/// when `len` is not below the current length.
#[verifier::external_body]
pub(crate) fn buf_truncate(buf: &mut BytesMut, len: usize)
    ensures
        buf_contents(*final(buf)) == if len <= buf_contents(*old(buf)).len() {
            buf_contents(*old(buf)).take(len as int)
        } else {
            buf_contents(*old(buf))
        },
{
    buf.truncate(len)
}

/// `Deref for BytesMut`: the slice of the bytes the buffer holds.
#[verifier::external_body]
pub(crate) fn buf_bytes(buf: &BytesMut) -> (bytes: &[u8])
    ensures
        bytes@ == buf_contents(*buf),
{
    buf
}

/// `std::str::from_utf8`, its result copied into a `String`: std documents
/// that it succeeds exactly on valid UTF-8, and the text is then the decoded
/// characters.
#[verifier::external_body]
pub(crate) fn utf8_to_string(bytes: &[u8]) -> (text: Option<String>)
    ensures
        text is Some <==> valid_utf8(bytes@),
        text matches Some(s) ==> s@ == decode_utf8(bytes@),
{
    match std::str::from_utf8(bytes) {
        Ok(s) => Some(String::from(s)),
        Err(_) => None,
    }
}

/// `String::push`: std documents that it appends the character to the end.
#[verifier::external_body]
pub(crate) fn string_push(s: &mut String, c: char)
    ensures
        final(s)@ == old(s)@.push(c),
{
    s.push(c)
}

} // verus!
