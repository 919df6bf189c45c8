//! Fixed-width integers in network (big-endian) byte order, read and written
//! through the `byteorder` crate.

use vstd::prelude::*;
use byteorder::{BigEndian, ByteOrder};

verus! {

/// The `i16` whose big-endian bytes start `b`.
pub open spec fn i16_from_be(b: Seq<u8>) -> i16 {
    (((b[0] as u16) << 8u16) | (b[1] as u16)) as i16
}

/// The big-endian bytes of an `i16`.
pub open spec fn i16_to_be(v: i16) -> Seq<u8> {
    seq![((v as u16) >> 8u16) as u8, (v as u16) as u8]
}

/// The `i32` whose big-endian bytes start `b`.
pub open spec fn i32_from_be(b: Seq<u8>) -> i32 {
    (((b[0] as u32) << 24u32) | ((b[1] as u32) << 16u32) | ((b[2] as u32) << 8u32) | (b[3] as u32)) as i32
}

/// The big-endian bytes of an `i32`.
pub open spec fn i32_to_be(v: i32) -> Seq<u8> {
    seq![
        ((v as u32) >> 24u32) as u8,
        ((v as u32) >> 16u32) as u8,
        ((v as u32) >> 8u32) as u8,
        (v as u32) as u8,
    ]
}

/// The `u64` whose big-endian bytes start `b`.
pub open spec fn u64_from_be(b: Seq<u8>) -> u64 {
    ((b[0] as u64) << 56u64) | ((b[1] as u64) << 48u64) | ((b[2] as u64) << 40u64) | ((b[3] as u64)
        << 32u64) | ((b[4] as u64) << 24u64) | ((b[5] as u64) << 16u64) | ((b[6] as u64) << 8u64)
        | (b[7] as u64)
}

/// The `i64` whose big-endian bytes start `b`.
pub open spec fn i64_from_be(b: Seq<u8>) -> i64 {
    u64_from_be(b) as i64
}

/// The big-endian bytes of a `u64`.
pub open spec fn u64_to_be(v: u64) -> Seq<u8> {
    seq![
        (v >> 56u64) as u8,
        (v >> 48u64) as u8,
        (v >> 40u64) as u8,
        (v >> 32u64) as u8,
        (v >> 24u64) as u8,
        (v >> 16u64) as u8,
        (v >> 8u64) as u8,
        v as u8,
    ]
}

/// The big-endian bytes of an `i64`.
pub open spec fn i64_to_be(v: i64) -> Seq<u8> {
    u64_to_be(v as u64)
}

/// `byteorder`'s `BigEndian::read_i16`: the `i16` whose big-endian bytes are
/// the first two of `buf` (it panics on a shorter `buf`).
#[verifier::external_body]
pub(crate) fn read_i16_be(buf: &[u8]) -> (r: i16)
    requires
        buf@.len() >= 2,
    ensures
        r == i16_from_be(buf@),
{
    BigEndian::read_i16(buf)
}

/// `byteorder`'s `BigEndian::read_i32`: the `i32` whose big-endian bytes are
/// the first four of `buf` (it panics on a shorter `buf`).
#[verifier::external_body]
pub(crate) fn read_i32_be(buf: &[u8]) -> (r: i32)
    requires
        buf@.len() >= 4,
    ensures
        r == i32_from_be(buf@),
{
    BigEndian::read_i32(buf)
}

/// `byteorder`'s `BigEndian::read_i64`: the `i64` whose big-endian bytes are
/// the first eight of `buf` (it panics on a shorter `buf`).
#[verifier::external_body]
pub(crate) fn read_i64_be(buf: &[u8]) -> (r: i64)
    requires
        buf@.len() >= 8,
    ensures
        r == i64_from_be(buf@),
{
    BigEndian::read_i64(buf)
}

/// `byteorder`'s `BigEndian::write_i16`, into a fresh two-byte array: the
/// big-endian bytes of `v`.
#[verifier::external_body]
pub(crate) fn write_i16_be(v: i16) -> (r: [u8; 2])
    ensures
        r@ == i16_to_be(v),
{
    let mut out = [0u8; 2];
    BigEndian::write_i16(&mut out, v);
    out
}

/// `byteorder`'s `BigEndian::write_i32`, into a fresh four-byte array: the
/// big-endian bytes of `v`.
#[verifier::external_body]
pub(crate) fn write_i32_be(v: i32) -> (r: [u8; 4])
    ensures
        r@ == i32_to_be(v),
{
    let mut out = [0u8; 4];
    BigEndian::write_i32(&mut out, v);
    out
}

/// `byteorder`'s `BigEndian::write_i64`, into a fresh eight-byte array: the
/// big-endian bytes of `v`.
#[verifier::external_body]
pub(crate) fn write_i64_be(v: i64) -> (r: [u8; 8])
    ensures
        r@ == i64_to_be(v),
{
    let mut out = [0u8; 8];
    BigEndian::write_i64(&mut out, v);
    out
}

/// `byteorder`'s `BigEndian::write_u64`, into a fresh eight-byte array: the
/// big-endian bytes of `v`.
#[verifier::external_body]
pub(crate) fn write_u64_be(v: u64) -> (r: [u8; 8])
    ensures
        r@ == u64_to_be(v),
{
    let mut out = [0u8; 8];
    BigEndian::write_u64(&mut out, v);
    out
}

/// Reading back the big-endian bytes of an `i16` gives the `i16`.
pub proof fn lemma_i16_roundtrip(v: i16, rest: Seq<u8>)
    ensures
        i16_from_be(i16_to_be(v) + rest) == v,
        i16_to_be(v).len() == 2,
{
    let s = i16_to_be(v) + rest;
    let b0 = s[0];
    let b1 = s[1];
    assert((((b0 as u16) << 8u16) | (b1 as u16)) as i16 == v) by (bit_vector)
        requires
            b0 == ((v as u16) >> 8u16) as u8,
            b1 == (v as u16) as u8,
    ;
}

/// Reading back the big-endian bytes of an `i32` gives the `i32`.
pub proof fn lemma_i32_roundtrip(v: i32, rest: Seq<u8>)
    ensures
        i32_from_be(i32_to_be(v) + rest) == v,
        i32_to_be(v).len() == 4,
{
    let s = i32_to_be(v) + rest;
    let b0 = s[0];
    let b1 = s[1];
    let b2 = s[2];
    let b3 = s[3];
    assert((((b0 as u32) << 24u32) | ((b1 as u32) << 16u32) | ((b2 as u32) << 8u32) | (b3 as u32)) as i32
        == v) by (bit_vector)
        requires
            b0 == ((v as u32) >> 24u32) as u8,
            b1 == ((v as u32) >> 16u32) as u8,
            b2 == ((v as u32) >> 8u32) as u8,
            b3 == (v as u32) as u8,
    ;
}

/// Reading back the big-endian bytes of a `u64` gives the `u64`.
pub proof fn lemma_u64_roundtrip(v: u64, rest: Seq<u8>)
    ensures
        u64_from_be(u64_to_be(v) + rest) == v,
        u64_to_be(v).len() == 8,
{
    let s = u64_to_be(v) + rest;
    let b0 = s[0];
    let b1 = s[1];
    let b2 = s[2];
    let b3 = s[3];
    let b4 = s[4];
    let b5 = s[5];
    let b6 = s[6];
    let b7 = s[7];
    assert(((b0 as u64) << 56u64) | ((b1 as u64) << 48u64) | ((b2 as u64) << 40u64) | ((b3 as u64)
        << 32u64) | ((b4 as u64) << 24u64) | ((b5 as u64) << 16u64) | ((b6 as u64) << 8u64) | (b7 as u64)
        == v) by (bit_vector)
        requires
            b0 == (v >> 56u64) as u8,
            b1 == (v >> 48u64) as u8,
            b2 == (v >> 40u64) as u8,
            b3 == (v >> 32u64) as u8,
            b4 == (v >> 24u64) as u8,
            b5 == (v >> 16u64) as u8,
            b6 == (v >> 8u64) as u8,
            b7 == v as u8,
    ;
}

/// Reading back the big-endian bytes of an `i64` gives the `i64`.
pub proof fn lemma_i64_roundtrip(v: i64, rest: Seq<u8>)
    ensures
        i64_from_be(i64_to_be(v) + rest) == v,
        i64_to_be(v).len() == 8,
{
    lemma_u64_roundtrip(v as u64, rest);
    assert((v as u64) as i64 == v) by (bit_vector);
}

} // verus!
