//! Fixed-width integers on the wire: the big-endian ("network order") fields
//! of icecream messages and the little-endian numbers of the handshake and
//! of scheduler announcements.

use byteorder::{BigEndian, ByteOrder, LittleEndian};
use vstd::prelude::*;

verus! {

/// The four bytes of `n`, most significant first.
pub open spec fn be_bytes(n: u32) -> Seq<u8> {
    seq![(n >> 24u32) as u8, (n >> 16u32) as u8, (n >> 8u32) as u8, n as u8]
}

/// The number whose big-endian bytes are the first four of `b`.
pub open spec fn be_value(b: Seq<u8>) -> u32 {
    ((b[0] as u32) << 24u32) | ((b[1] as u32) << 16u32) | ((b[2] as u32) << 8u32) | (b[3] as u32)
}

/// The number whose little-endian bytes are the first four of `b`.
pub open spec fn le_value(b: Seq<u8>) -> u32 {
    (b[0] as u32) | ((b[1] as u32) << 8u32) | ((b[2] as u32) << 16u32) | ((b[3] as u32) << 24u32)
}

/// The number whose little-endian bytes are the first eight of `b`.
pub open spec fn le_value64(b: Seq<u8>) -> u64 {
    (b[0] as u64) | ((b[1] as u64) << 8u64) | ((b[2] as u64) << 16u64) | ((b[3] as u64) << 24u64)
        | ((b[4] as u64) << 32u64) | ((b[5] as u64) << 40u64) | ((b[6] as u64) << 48u64)
        | ((b[7] as u64) << 56u64)
}

/// `byteorder::BigEndian::write_u32` (`NetworkEndian` is its alias) into a
/// fresh four-byte buffer: the source copies `n.to_be_bytes()` into it, so the
/// buffer holds the bytes of `n`, most significant first.
#[verifier::external_body]
pub(crate) fn network_u32_bytes(n: u32) -> (buf: [u8; 4])
    ensures
        buf@ == be_bytes(n),
{
    let mut buf = [0u8; 4];
    BigEndian::write_u32(&mut buf, n);
    buf
}

/// `byteorder::BigEndian::read_u32`: the source returns
/// `u32::from_be_bytes(buf[..4])`, and panics when `buf` is shorter than four
/// bytes, which `requires` leaves out.
#[verifier::external_body]
pub(crate) fn network_read_u32(buf: &[u8]) -> (n: u32)
    requires
        buf@.len() >= 4,
    ensures
        n == be_value(buf@),
{
    BigEndian::read_u32(buf)
}

/// `byteorder::LittleEndian::read_u32`: the source returns
/// `u32::from_le_bytes(buf[..4])`; it panics on fewer than four bytes.
#[verifier::external_body]
pub(crate) fn little_read_u32(buf: &[u8]) -> (n: u32)
    requires
        buf@.len() >= 4,
    ensures
        n == le_value(buf@),
{
    LittleEndian::read_u32(buf)
}

/// `byteorder::LittleEndian::read_u64`: the source returns
/// `u64::from_le_bytes(buf[..8])`; it panics on fewer than eight bytes.
#[verifier::external_body]
pub(crate) fn little_read_u64(buf: &[u8]) -> (n: u64)
    requires
        buf@.len() >= 8,
    ensures
        n == le_value64(buf@),
{
    LittleEndian::read_u64(buf)
}

/// The number that four bytes read from a socket stand for, least significant
/// byte first (the protocol version of the handshake).
pub fn decode_u32_le(buf: [u8; 4]) -> (n: u32)
    ensures
        n == le_value(buf@),
{
    let val: u32 = buf[0] as u32 | (buf[1] as u32) << 8u32 | (buf[2] as u32) << 16u32 | (buf[3] as u32) << 24u32;
    val
}

/// The number that four bytes read from a socket stand for, most significant
/// byte first (the length that precedes every message).
pub fn decode_u32_be(buf: [u8; 4]) -> (n: u32)
    ensures
        n == be_value(buf@),
{
    let val: u32 = buf[3] as u32 | (buf[2] as u32) << 8u32 | (buf[1] as u32) << 16u32 | (buf[0] as u32) << 24u32;
    proof {
        let (b0, b1, b2, b3) = (buf[0], buf[1], buf[2], buf[3]);
        assert(b3 as u32 | (b2 as u32) << 8u32 | (b1 as u32) << 16u32 | (b0 as u32) << 24u32
            == ((b0 as u32) << 24u32) | ((b1 as u32) << 16u32) | ((b2 as u32) << 8u32) | (b3 as u32))
            by (bit_vector);
    }
    val
}

/// Reading back the four bytes that encode `n` gives `n`.
pub proof fn lemma_be_roundtrip(n: u32)
    ensures
        be_value(be_bytes(n)) == n,
        be_bytes(n).len() == 4,
{
    let b0 = (n >> 24u32) as u8;
    let b1 = (n >> 16u32) as u8;
    let b2 = (n >> 8u32) as u8;
    let b3 = n as u8;
    assert(((b0 as u32) << 24u32) | ((b1 as u32) << 16u32) | ((b2 as u32) << 8u32) | (b3 as u32) == n)
        by (bit_vector)
        requires
            b0 == (n >> 24u32) as u8,
            b1 == (n >> 16u32) as u8,
            b2 == (n >> 8u32) as u8,
            b3 == n as u8,
    ;
}

/// Encoding the number that four bytes stand for gives the same four bytes.
pub proof fn lemma_be_bytes_of_value(b: Seq<u8>)
    requires
        b.len() == 4,
    ensures
        be_bytes(be_value(b)) == b,
{
    let (b0, b1, b2, b3) = (b[0], b[1], b[2], b[3]);
    let n = be_value(b);
    assert((n >> 24u32) as u8 == b0 && (n >> 16u32) as u8 == b1 && (n >> 8u32) as u8 == b2 && n as u8 == b3)
        by (bit_vector)
        requires
            n == ((b0 as u32) << 24u32) | ((b1 as u32) << 16u32) | ((b2 as u32) << 8u32) | (b3 as u32),
    ;
    assert(be_bytes(n) =~= b);
}

} // verus!
