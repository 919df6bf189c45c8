//! Minecraft variable-length integers ("VarInt"): seven payload bits per byte,
//! least significant group first, the high bit of a byte set when another byte
//! follows; at most five bytes are read.

use vstd::prelude::*;

verus! {

/// The payload bits of one encoded byte.
pub open spec fn group_bits(b: u8) -> u32 {
    (b & 0x7f) as u32
}

/// Whether an encoded byte announces a following byte.
pub open spec fn continues(b: u8) -> bool {
    b & 0x80 != 0
}

/// Number of bytes a decoder consumes from `bytes`, starting at index `i`
/// with `i` bytes already consumed: it stops after a byte without the
/// continuation bit or after the fifth byte; `None` when the input ends first.
pub open spec fn span_from(bytes: Seq<u8>, i: nat) -> Option<nat>
    decreases 5 - i,
{
    if i >= 5 {
        Some(5)
    } else if i >= bytes.len() {
        None
    } else if !continues(bytes[i as int]) || i == 4 {
        Some(i + 1)
    } else {
        span_from(bytes, i + 1)
    }
}

/// Number of bytes the VarInt at the front of `bytes` occupies, or `None`
/// when `bytes` ends before the VarInt does.
pub open spec fn varint_span(bytes: Seq<u8>) -> Option<nat> {
    span_from(bytes, 0)
}

/// The 32 bits assembled from the first `n` bytes: byte `i` contributes its
/// payload bits shifted left by `7 * i`; bits shifted past bit 31 are lost.
pub open spec fn varint_acc(bytes: Seq<u8>, n: nat) -> u32
    decreases n,
{
    if n == 0 {
        0
    } else {
        varint_acc(bytes, (n - 1) as nat) | (group_bits(bytes[n - 1]) << ((7 * (n - 1)) as u32))
    }
}

/// The value of the VarInt at the front of `bytes` together with its length,
/// or `None` when `bytes` ends before it does.
pub open spec fn varint_decode(bytes: Seq<u8>) -> Option<(i32, nat)> {
    match varint_span(bytes) {
        Some(n) => Some((varint_acc(bytes, n) as i32, n)),
        None => None,
    }
}

/// Number of bytes in the encoding of a non-negative value.
pub open spec fn spec_varint_size(v: u32) -> nat {
    if v < 0x80 {
        1
    } else if v < 0x4000 {
        2
    } else if v < 0x20_0000 {
        3
    } else if v < 0x1000_0000 {
        4
    } else {
        5
    }
}

/// Byte `i` of the encoding of `v`.
pub open spec fn varint_byte(v: u32, i: nat) -> u8 {
    let low = ((v >> ((7 * i) as u32)) & 0x7f) as u8;
    if i + 1 < spec_varint_size(v) {
        (low | 0x80) as u8
    } else {
        low
    }
}

/// The encoding of a non-negative value.
pub open spec fn varint_encoding(v: u32) -> Seq<u8> {
    Seq::new(spec_varint_size(v), |i: int| varint_byte(v, i as nat))
}

/// Encoding of an `i32`, defined for non-negative values.
pub open spec fn varint_bytes(v: i32) -> Seq<u8> {
    varint_encoding(v as u32)
}

/// Number of bytes `varint_size` reports for a non-negative `i32`.
pub open spec fn varint_len(v: i32) -> nat {
    spec_varint_size(v as u32)
}

/// A VarInt read so far (or completely): the assembled value and the number of
/// bytes it took.
pub struct Varint21 {
    pub ans: i32,
    pub size: u8,
}

impl Varint21 {
    /// The state before any byte has been read.
    pub fn start() -> (st: Varint21)
        ensures
            st.ans == 0,
            st.size == 0,
    {
        Varint21 { ans: 0, size: 0 }
    }

    /// Takes in the next byte of a VarInt: its payload bits are placed above
    /// those read so far. The second result tells whether the VarInt is
    /// complete, which it is after a byte without the continuation bit or after
    /// the fifth byte.
    pub fn feed(&self, byte: u8) -> (res: (Varint21, bool))
        requires
            self.size < 5,
        ensures
            res.0.size == self.size + 1,
            res.0.ans == (((self.ans as u32) | (group_bits(byte) << ((7 * self.size) as u32))) as i32),
            res.1 == (!continues(byte) || self.size == 4),
    {
        let shift: u32 = 7 * (self.size as u32);
        let acc: u32 = (self.ans as u32) | (((byte & 0x7f) as u32) << shift);
        let done = byte & 0x80 == 0 || self.size == 4;
        (Varint21 { ans: acc as i32, size: self.size + 1 }, done)
    }
}

/// Feeding the bytes of `bytes` one by one from the start state gives the
/// state that `varint_acc` describes.
pub proof fn lemma_feed_acc(bytes: Seq<u8>, n: nat)
    requires
        1 <= n <= 5,
        n <= bytes.len(),
    ensures
        ((varint_acc(bytes, (n - 1) as nat) as i32) as u32 | (group_bits(bytes[n - 1]) << ((7 * (n - 1)) as u32))) as i32
            == varint_acc(bytes, n) as i32,
{
    let a = varint_acc(bytes, (n - 1) as nat);
    assert((a as i32) as u32 == a) by (bit_vector);
}

/// Number of bytes in the VarInt encoding of `value`.
pub fn varint_size(value: i32) -> (size: usize)
    requires
        value >= 0,
    ensures
        size == varint_len(value),
        1 <= size <= 5,
{
    let ghost w: u32 = value as u32;
    let mut v: u32 = value as u32;
    let mut size: usize = 0;
    assert(w >> 0u32 == w) by (bit_vector);
    loop
        invariant_except_break
            size <= 4,
            w <= i32::MAX,
            v == w >> ((7 * size) as u32),
            spec_varint_size(w) > size,
        ensures
            1 <= size <= 5,
            size == spec_varint_size(w),
        decreases 5 - size,
    {
        let ghost s: u32 = (7 * size) as u32;
        assert((w >> s) >> 7u32 == w >> ((s + 7) as u32)) by (bit_vector)
            requires
                s <= 28,
        ;
        v = v >> 7;
        size = size + 1;
        proof {
            lemma_size_shift(w, size as nat);
        }
        if v == 0 {
            break;
        }
    }
    size
}

/// The encoding of `v` ends after byte `k - 1` exactly when `v` shifted right by
/// `7 * k` is zero.
pub proof fn lemma_size_shift(v: u32, k: nat)
    requires
        v <= i32::MAX,
        1 <= k <= 5,
    ensures
        (v >> ((7 * k) as u32) == 0) <==> spec_varint_size(v) <= k,
{
    if k == 1 {
        assert((v >> 7u32 == 0) <==> v < 0x80) by (bit_vector);
    } else if k == 2 {
        assert((v >> 14u32 == 0) <==> v < 0x4000) by (bit_vector);
    } else if k == 3 {
        assert((v >> 21u32 == 0) <==> v < 0x20_0000) by (bit_vector);
    } else if k == 4 {
        assert((v >> 28u32 == 0) <==> v < 0x1000_0000) by (bit_vector);
    } else {
        assert(v <= 0x7fff_ffff ==> v >> 35u32 == 0) by (bit_vector);
    }
}

/// Byte `i` of an encoding: its payload bits are bits `7 * i ..` of the value,
/// and its high bit is set exactly when a byte follows.
pub proof fn lemma_encoding_byte(w: u32, i: nat)
    requires
        w <= i32::MAX,
        i < spec_varint_size(w),
    ensures
        group_bits(varint_byte(w, i)) == (w >> ((7 * i) as u32)) & 0x7f,
        continues(varint_byte(w, i)) <==> i + 1 < spec_varint_size(w),
{
    let s: u32 = (7 * i) as u32;
    let low: u8 = ((w >> s) & 0x7f) as u8;
    assert(((low & 0x7f) as u32) == (w >> s) & 0x7f && low & 0x80 == 0) by (bit_vector)
        requires
            low == ((w >> s) & 0x7f) as u8,
    ;
    let high: u8 = (low | 0x80) as u8;
    assert(((high & 0x7f) as u32) == (w >> s) & 0x7f && high & 0x80 != 0) by (bit_vector)
        requires
            low == ((w >> s) & 0x7f) as u8,
            high == (low | 0x80) as u8,
    ;
}

/// A decoder reading an encoding (followed by anything) stops exactly at its end.
proof fn lemma_span_encoding(w: u32, rest: Seq<u8>, i: nat)
    requires
        w <= i32::MAX,
        i < spec_varint_size(w),
    ensures
        span_from(varint_encoding(w) + rest, i) == Some(spec_varint_size(w)),
    decreases spec_varint_size(w) - i,
{
    let s = varint_encoding(w) + rest;
    lemma_encoding_byte(w, i);
    assert(s[i as int] == varint_byte(w, i));
    if i + 1 < spec_varint_size(w) {
        lemma_span_encoding(w, rest, i + 1);
    }
}

/// A VarInt takes between one and five bytes, all present in the input.
pub proof fn lemma_span_bounds(bytes: Seq<u8>, i: nat)
    requires
        i < 5,
    ensures
        span_from(bytes, i) matches Some(n) ==> i < n <= 5 && n <= bytes.len(),
    decreases 5 - i,
{
    if i < bytes.len() && continues(bytes[i as int]) && i < 4 {
        lemma_span_bounds(bytes, i + 1);
    }
}

/// The assembled value of the first `n` bytes depends on those bytes only.
proof fn lemma_acc_prefix(a: Seq<u8>, b: Seq<u8>, n: nat)
    requires
        n <= a.len(),
        n <= b.len(),
        forall|j: int| 0 <= j < n ==> a[j] == b[j],
    ensures
        varint_acc(a, n) == varint_acc(b, n),
    decreases n,
{
    if n > 0 {
        lemma_acc_prefix(a, b, (n - 1) as nat);
    }
}

/// Decoding the encoding of a non-negative value gives back the value, and the
/// length of the encoding, whatever follows it.
pub proof fn lemma_varint_roundtrip(v: i32, rest: Seq<u8>)
    requires
        v >= 0,
    ensures
        varint_decode(varint_bytes(v) + rest) == Some((v, varint_len(v))),
        varint_bytes(v).len() == varint_len(v),
        1 <= varint_len(v) <= 5,
{
    let w = v as u32;
    let e = varint_encoding(w);
    let s = e + rest;
    let k = spec_varint_size(w);
    lemma_span_encoding(w, rest, 0);
    lemma_acc_prefix(s, e, k);
    reveal_with_fuel(varint_acc, 6);
    let b0 = e[0];
    lemma_encoding_byte(w, 0);
    if k == 1 {
        assert(((0u32 | (((b0 & 0x7f) as u32) << 0u32)) as i32) == v) by (bit_vector)
            requires
                ((b0 & 0x7f) as u32) == (w >> 0u32) & 0x7f,
                w == v as u32,
                w < 0x80,
                v >= 0,
        ;
    } else {
        let b1 = e[1];
        lemma_encoding_byte(w, 1);
        if k == 2 {
            assert((((0u32 | (((b0 & 0x7f) as u32) << 0u32)) | (((b1 & 0x7f) as u32) << 7u32)) as i32) == v) by (bit_vector)
                requires
                    ((b0 & 0x7f) as u32) == (w >> 0u32) & 0x7f,
                    ((b1 & 0x7f) as u32) == (w >> 7u32) & 0x7f,
                    w == v as u32,
                    w < 0x4000,
                    v >= 0,
            ;
        } else {
            let b2 = e[2];
            lemma_encoding_byte(w, 2);
            if k == 3 {
                assert(((((0u32 | (((b0 & 0x7f) as u32) << 0u32)) | (((b1 & 0x7f) as u32) << 7u32)) | (((b2 & 0x7f) as u32) << 14u32)) as i32) == v) by (bit_vector)
                    requires
                        ((b0 & 0x7f) as u32) == (w >> 0u32) & 0x7f,
                        ((b1 & 0x7f) as u32) == (w >> 7u32) & 0x7f,
                        ((b2 & 0x7f) as u32) == (w >> 14u32) & 0x7f,
                        w == v as u32,
                        w < 0x20_0000,
                        v >= 0,
                ;
            } else {
                let b3 = e[3];
                lemma_encoding_byte(w, 3);
                if k == 4 {
                    assert((((((0u32 | (((b0 & 0x7f) as u32) << 0u32)) | (((b1 & 0x7f) as u32) << 7u32)) | (((b2 & 0x7f) as u32) << 14u32)) | (((b3 & 0x7f) as u32) << 21u32)) as i32) == v) by (bit_vector)
                        requires
                            ((b0 & 0x7f) as u32) == (w >> 0u32) & 0x7f,
                            ((b1 & 0x7f) as u32) == (w >> 7u32) & 0x7f,
                            ((b2 & 0x7f) as u32) == (w >> 14u32) & 0x7f,
                            ((b3 & 0x7f) as u32) == (w >> 21u32) & 0x7f,
                            w == v as u32,
                            w < 0x1000_0000,
                            v >= 0,
                    ;
                } else {
                    let b4 = e[4];
                    lemma_encoding_byte(w, 4);
                    assert(((((((0u32 | (((b0 & 0x7f) as u32) << 0u32)) | (((b1 & 0x7f) as u32) << 7u32)) | (((b2 & 0x7f) as u32) << 14u32)) | (((b3 & 0x7f) as u32) << 21u32)) | (((b4 & 0x7f) as u32) << 28u32)) as i32) == v) by (bit_vector)
                        requires
                            ((b0 & 0x7f) as u32) == (w >> 0u32) & 0x7f,
                            ((b1 & 0x7f) as u32) == (w >> 7u32) & 0x7f,
                            ((b2 & 0x7f) as u32) == (w >> 14u32) & 0x7f,
                            ((b3 & 0x7f) as u32) == (w >> 21u32) & 0x7f,
                            ((b4 & 0x7f) as u32) == (w >> 28u32) & 0x7f,
                            w == v as u32,
                            v >= 0,
                    ;
                }
            }
        }
    }
}

} // verus!
