//! Reading and writing the protocol's basic items on in-memory byte buffers,
//! and the framing of whole packets.

use vstd::prelude::*;
use crate::varint;
use crate::varint::Varint21;
use crate::protocol::packet;
use crate::protocol::packet::{Packet, PacketData};

verus! {

/// Why a read failed.
#[derive(Debug, Clone, Copy, PartialEq, Eq)]
pub enum ReadError {
    /// The input ended before the item did.
    UnexpectedEof,
    /// The input holds a value the protocol has no meaning for (a negative
    /// length, a length over the limit, an unknown state, or a string whose
    /// bytes are not all there).
    Malformed,
}

/// What reading an item from the front of some bytes gives: the item's abstract
/// value and the number of bytes it took; or the end of the input came first;
/// or the bytes are malformed.
pub enum ReadOutcome<V> {
    Parsed(V, nat),
    Eof,
    Fault,
}

/// What `String::from_utf8_lossy` makes of bytes that are not valid UTF-8:
/// each invalid sequence stands as a replacement character.
pub uninterp spec fn utf8_lossy(bytes: Seq<u8>) -> Seq<char>;

/// The text of some bytes read as UTF-8, with invalid sequences replaced.
pub open spec fn lossy_utf8(bytes: Seq<u8>) -> Seq<char> {
    if vstd::utf8::valid_utf8(bytes) {
        vstd::utf8::decode_utf8(bytes)
    } else {
        utf8_lossy(bytes)
    }
}

/// std's `String::from_utf8_lossy` (taken as an owned `String`): for valid
/// UTF-8 the text those bytes encode; otherwise the text with replacement
/// characters, which is only named here.
#[verifier::external_body]
pub(crate) fn string_from_utf8_lossy(bytes: &[u8]) -> (s: String)
    ensures
        vstd::utf8::valid_utf8(bytes@) ==> s@ == vstd::utf8::decode_utf8(bytes@),
        !vstd::utf8::valid_utf8(bytes@) ==> s@ == utf8_lossy(bytes@),
{
    String::from_utf8_lossy(bytes).into_owned()
}

/// The length of a length-prefixed payload as a buffer size, when the announced
/// length is neither negative nor over `limit`.
pub fn payload_length(length: i32, limit: i32) -> (r: Option<usize>)
    ensures
        r is Some <==> 0 <= length <= limit,
        r matches Some(n) ==> n == length,
{
    if length > limit || length < 0 {
        None
    } else {
        Some(length as usize)
    }
}

/// A payload prefixed with its length as a VarInt, at the front of `bytes`:
/// the payload and the total number of bytes taken. Reading it fails hard when
/// the length is missing, negative or over `limit`, or when fewer bytes follow.
pub open spec fn prefixed_bytes(bytes: Seq<u8>, limit: i32) -> ReadOutcome<Seq<u8>> {
    match varint::varint_decode(bytes) {
        None => ReadOutcome::Fault,
        Some((len, n)) => if len > limit || len < 0 || bytes.len() < n + len {
            ReadOutcome::Fault
        } else {
            ReadOutcome::Parsed(bytes.subrange(n as int, n + len), n + len as nat)
        },
    }
}

/// A length-prefixed string at the front of `bytes`, its payload read as
/// UTF-8 with invalid sequences replaced.
pub open spec fn prefixed_string(bytes: Seq<u8>, limit: i32) -> ReadOutcome<Seq<char>> {
    match prefixed_bytes(bytes, limit) {
        ReadOutcome::Parsed(b, n) => ReadOutcome::Parsed(lossy_utf8(b), n),
        ReadOutcome::Eof => ReadOutcome::Eof,
        ReadOutcome::Fault => ReadOutcome::Fault,
    }
}

/// A cursor over borrowed bytes: the bytes not yet read are its view.
pub struct Reader<'a> {
    pub(crate) data: &'a [u8],
    pub(crate) pos: usize,
}

impl<'a> View for Reader<'a> {
    type V = Seq<u8>;

    closed spec fn view(&self) -> Seq<u8> {
        self.data@.skip(self.pos as int)
    }
}

impl<'a> Reader<'a> {
    #[verifier::type_invariant]
    spec fn inv(self) -> bool {
        self.pos <= self.data@.len()
    }

    /// A cursor at the start of `data`.
    pub fn new(data: &'a [u8]) -> (r: Reader<'a>)
        ensures
            r@ == data@,
    {
        let r = Reader { data, pos: 0 };
        assert(r@ =~= data@);
        r
    }

    /// The bytes not yet read.
    pub fn remaining(&self) -> (r: &'a [u8])
        ensures
            r@ == self@,
    {
        proof {
            use_type_invariant(self);
        }
        &self.data[self.pos..self.data.len()]
    }

    /// Takes the next `n` bytes; when fewer are left, takes all of them and
    /// returns `None`.
    pub fn take(&mut self, n: usize) -> (r: Option<&'a [u8]>)
        ensures
            match r {
                Some(s) => old(self)@.len() >= n && s@ == old(self)@.take(n as int) && final(self)@ == old(
                    self,
                )@.skip(n as int),
                None => old(self)@.len() < n && final(self)@ == Seq::<u8>::empty(),
            },
    {
        proof {
            use_type_invariant(&*self);
        }
        let len = self.data.len();
        if len - self.pos < n {
            self.pos = len;
            assert(self@ =~= Seq::<u8>::empty());
            return None;
        }
        let start = self.pos;
        self.pos = start + n;
        assert(self@ =~= old(self)@.skip(n as int));
        let s = &self.data[start..start + n];
        assert(s@ =~= old(self)@.take(n as int));
        Some(s)
    }
}

/// Reads a length-prefixed payload from the front of `buf`, reporting as
/// `Malformed` every input on which `MinecraftReadExt::read_bytes` fails.
pub fn read_prefixed(buf: &mut Reader, limit: i32) -> (r: Result<Vec<u8>, ReadError>)
    ensures
        match r {
            Ok(v) => prefixed_bytes(old(buf)@, limit) == ReadOutcome::Parsed(v@, (old(buf)@.len() - final(buf)@.len()) as nat)
                && final(buf)@.len() <= old(buf)@.len()
                && final(buf)@ == old(buf)@.skip(old(buf)@.len() - final(buf)@.len()),
            Err(e) => e == ReadError::Malformed && prefixed_bytes(old(buf)@, limit) is Fault,
        },
{
    let ghost orig: Seq<u8> = buf@;
    let length = match buf.read_varint() {
        Ok(v) => v,
        Err(_) => {
            return Err(ReadError::Malformed);
        },
    };
    let n = match payload_length(length.ans, limit) {
        Some(n) => n,
        None => {
            return Err(ReadError::Malformed);
        },
    };
    proof {
        varint::lemma_span_bounds(orig, 0);
    }
    let ghost mid: Seq<u8> = buf@;
    match buf.take(n) {
        Some(s) => {
            let payload = vstd::slice::slice_to_vec(s);
            proof {
                assert(orig.subrange(length.size as int, length.size + length.ans) =~= payload@);
                assert(buf@ =~= orig.skip(length.size + n));
            }
            Ok(payload)
        },
        None => Err(ReadError::Malformed),
    }
}

impl Varint21 {
    /// Reads a VarInt from the front of `read`, as `MinecraftReadExt::read_varint`
    /// does.
    pub fn read(read: &mut Reader) -> (r: Result<Varint21, ReadError>)
        ensures
            match r {
                Ok(v) => varint::varint_decode(old(read)@) == Some((v.ans, v.size as nat))
                    && final(read)@ == old(read)@.skip(v.size as int),
                Err(e) => e == ReadError::UnexpectedEof && varint::varint_decode(old(read)@) is None
                    && final(read)@ == Seq::<u8>::empty(),
            },
    {
        read.read_varint()
    }
}

/// Reading the protocol's basic items from a byte source.
pub trait MinecraftReadExt: View<V = Seq<u8>> {
    /// Reads a VarInt. On success the value and size are those of the VarInt at
    /// the front of the input and exactly its bytes are consumed; when the input
    /// ends first, all of it is consumed and `UnexpectedEof` is returned.
    fn read_varint(&mut self) -> (r: Result<Varint21, ReadError>)
        ensures
            match r {
                Ok(v) => varint::varint_decode(old(self)@) == Some((v.ans, v.size as nat))
                    && final(self)@ == old(self)@.skip(v.size as int),
                Err(e) => e == ReadError::UnexpectedEof && varint::varint_decode(old(self)@) is None
                    && final(self)@ == Seq::<u8>::empty(),
            },
    ;

    /// Reads a payload prefixed with its length as a VarInt. Every way this
    /// can fail (missing, negative or too large length, missing bytes) is a
    /// panic, so only inputs that hold a whole payload are accepted.
    fn read_bytes(&mut self, limit: i32) -> (r: Result<Vec<u8>, ReadError>)
        requires
            !(prefixed_bytes(old(self)@, limit) is Fault),
        ensures
            r matches Ok(v) && prefixed_bytes(old(self)@, limit) == ReadOutcome::Parsed(
                v@,
                (old(self)@.len() - final(self)@.len()) as nat,
            ) && final(self)@.len() <= old(self)@.len() && final(self)@ == old(self)@.skip(
                old(self)@.len() - final(self)@.len(),
            ),
    ;

    /// Reads a length-prefixed payload as text, invalid UTF-8 sequences
    /// replaced; accepted on the same inputs as `read_bytes`.
    fn read_string(&mut self, limit: i32) -> (r: Result<String, ReadError>)
        requires
            !(prefixed_bytes(old(self)@, limit) is Fault),
        ensures
            r matches Ok(s) && prefixed_string(old(self)@, limit) == ReadOutcome::Parsed(
                s@,
                (old(self)@.len() - final(self)@.len()) as nat,
            ) && final(self)@.len() <= old(self)@.len() && final(self)@ == old(self)@.skip(
                old(self)@.len() - final(self)@.len(),
            ),
    ;
}

impl<'a> MinecraftReadExt for Reader<'a> {
    fn read_varint(&mut self) -> (r: Result<Varint21, ReadError>) {
        let ghost orig: Seq<u8> = self@;
        let mut st = Varint21::start();
        loop
            invariant
                st.size < 5,
                st.size <= orig.len(),
                st.ans == varint::varint_acc(orig, st.size as nat) as i32,
                self@ == orig.skip(st.size as int),
                varint::span_from(orig, 0) == varint::span_from(orig, st.size as nat),
                orig == old(self)@,
            decreases 5 - st.size,
        {
            let b = match self.take(1) {
                Some(s) => s[0],
                None => {
                    assert(varint::span_from(orig, st.size as nat) is None);
                    return Err(ReadError::UnexpectedEof);
                },
            };
            let (next, done) = st.feed(b);
            proof {
                varint::lemma_feed_acc(orig, next.size as nat);
                assert(orig[st.size as int] == b);
                assert(orig.skip(next.size as int) =~= orig.skip(st.size as int).skip(1));
            }
            let ghost prev = st.size as nat;
            st = next;
            if done {
                assert(varint::span_from(orig, prev) == Some(prev + 1));
                return Ok(st);
            }
            assert(varint::span_from(orig, prev) == varint::span_from(orig, prev + 1));
        }
    }

    fn read_bytes(&mut self, limit: i32) -> (r: Result<Vec<u8>, ReadError>) {
        read_prefixed(self, limit)
    }

    fn read_string(&mut self, limit: i32) -> (r: Result<String, ReadError>) {
        let bytes = match read_prefixed(self, limit) {
            Ok(b) => b,
            Err(e) => {
                return Err(e);
            },
        };
        Ok(string_from_utf8_lossy(bytes.as_slice()))
    }
}

/// Writing the protocol's basic items to a byte sink.
pub trait MinecraftWriteExt: View<V = Seq<u8>> {
    /// Appends the VarInt encoding of `value`. A negative value never ends its
    /// encoding loop, so it is not accepted.
    fn write_varint(&mut self, value: i32)
        requires
            value >= 0,
        ensures
            final(self)@ == old(self)@ + varint::varint_bytes(value),
    ;

    /// Appends the length of `buf` as a VarInt, then the bytes of `buf`.
    fn write_bytes(&mut self, buf: &[u8])
        requires
            buf@.len() <= i32::MAX,
        ensures
            final(self)@ == old(self)@ + varint::varint_bytes(buf@.len() as i32) + buf@,
    ;

    /// Appends the UTF-8 bytes of `str`, prefixed with their number.
    fn write_string(&mut self, str: &str)
        requires
            vstd::utf8::encode_utf8(str@).len() <= i32::MAX,
        ensures
            final(self)@ == old(self)@ + varint::varint_bytes(vstd::utf8::encode_utf8(str@).len() as i32)
                + vstd::utf8::encode_utf8(str@),
    ;
}

impl MinecraftWriteExt for Vec<u8> {
    fn write_varint(&mut self, value: i32) {
        let ghost w: u32 = value as u32;
        let ghost start: Seq<u8> = self@;
        let mut v: u32 = value as u32;
        let mut i: usize = 0;
        assert(w >> 0u32 == w) by (bit_vector);
        loop
            invariant_except_break
                i < varint::spec_varint_size(w),
                w <= i32::MAX,
                v == w >> ((7 * i) as u32),
                self@ == start + varint::varint_encoding(w).take(i as int),
            ensures
                self@ == start + varint::varint_encoding(w),
            decreases 5 - i,
        {
            let ghost s: u32 = (7 * i) as u32;
            let mut temp: u8 = v as u8 & 0x7f;
            assert(v as u8 & 0x7f == ((v & 0x7f) as u8) && (v >> 7u32 == w >> ((s + 7) as u32))) by (bit_vector)
                requires
                    v == w >> s,
                    s <= 28,
            ;
            v = v >> 7;
            proof {
                varint::lemma_size_shift(w, (i + 1) as nat);
            }
            if v != 0 {
                temp = temp | 0x80;
            }
            assert(temp == varint::varint_byte(w, i as nat));
            self.push(temp);
            i = i + 1;
            assert(varint::varint_encoding(w).take(i as int) =~= varint::varint_encoding(w).take((i - 1) as int).push(temp));
            if v == 0 {
                assert(varint::varint_encoding(w).take(i as int) =~= varint::varint_encoding(w));
                break;
            }
        }
    }

    fn write_bytes(&mut self, buf: &[u8]) {
        self.write_varint(buf.len() as i32);
        self.extend_from_slice(buf);
        assert(self@ =~= old(self)@ + varint::varint_bytes(buf@.len() as i32) + buf@);
    }

    fn write_string(&mut self, str: &str) {
        self.write_bytes(str.as_bytes());
    }
}

/// `Vec::capacity` of std: how many items `v` can hold without reallocating,
/// never less than its length. The figure itself is the allocator's choice and
/// is not stated further.
#[verifier::external_body]
fn vec_capacity(v: &Vec<u8>) -> (r: usize)
    ensures
        r >= v@.len(),
{
    v.capacity()
}

/// `Vec::reserve` of std: makes room for at least `additional` more items and
/// leaves the items as they were. It panics where the new capacity would pass
/// `isize::MAX` bytes, so such a request is not accepted. The capacity it
/// reaches is the allocator's choice and is not stated.
#[verifier::external_body]
fn vec_reserve(v: &mut Vec<u8>, additional: usize)
    requires
        old(v)@.len() + additional <= isize::MAX,
    ensures
        final(v)@ == old(v)@,
{
    v.reserve(additional)
}

/// Prepares `vec` to be read into: where its capacity is below `capacity`, it
/// reserves the difference and then takes up all the capacity it has, the
/// new bytes zero. The old bytes stay. How long the vector ends up depends on
/// the capacity that the allocator gave, which is not stated: where it
/// already sufficed, nothing changes, and after growing the length may still
/// fall short of `capacity` when the vector was shorter than its capacity.
pub fn ensure_capacity(vec: &mut Vec<u8>, capacity: usize)
    requires
        capacity <= isize::MAX,
    ensures
        final(vec)@.len() >= old(vec)@.len(),
        final(vec)@.subrange(0, old(vec)@.len() as int) == old(vec)@,
        forall|i: int| old(vec)@.len() <= i < final(vec)@.len() ==> final(vec)@[i] == 0,
{
    let ghost before: Seq<u8> = vec@;
    let current = vec_capacity(vec);
    if current < capacity {
        vec_reserve(vec, capacity - current);
        let grown = vec_capacity(vec);
        vec.resize(grown, 0);
        proof {
            assert(vec@.subrange(0, before.len() as int) =~= before);
        }
    }
}

/// A packet as it travels: its id and the bytes of its fields.
pub struct MinecraftPacket<'t> {
    pub packet_id: i32,
    pub data: &'t [u8],
}

/// The frame a packet travels in: the length of what follows as a VarInt,
/// then the id as a VarInt, then the data.
pub open spec fn frame_bytes(packet_id: i32, data: Seq<u8>) -> Seq<u8> {
    varint::varint_bytes((varint::varint_len(packet_id) + data.len()) as i32) + varint::varint_bytes(packet_id)
        + data
}

/// A frame can be written when its id is not negative and its length fits an
/// `i32`.
pub open spec fn frame_writable(packet_id: i32, data_len: nat) -> bool {
    packet_id >= 0 && varint::varint_len(packet_id) + data_len <= i32::MAX
}

/// The packet framed at the front of `bytes`, as its id and data, with the
/// frame's length. A frame whose length is below 1, whose id is negative, or
/// whose id takes more bytes than the length announces fails hard.
pub open spec fn spec_read_frame(bytes: Seq<u8>) -> ReadOutcome<(i32, Seq<u8>)> {
    match varint::varint_decode(bytes) {
        None => ReadOutcome::Eof,
        Some((len, n)) => if len < 1 {
            ReadOutcome::Fault
        } else {
            match varint::varint_decode(bytes.skip(n as int)) {
                None => ReadOutcome::Eof,
                Some((id, k)) => if id < 0 || len < k {
                    ReadOutcome::Fault
                } else if bytes.len() < n + len {
                    ReadOutcome::Eof
                } else {
                    ReadOutcome::Parsed((id, bytes.subrange((n + k) as int, n + len)), (n + len) as nat)
                },
            }
        },
    }
}

/// The number of data bytes that follow a frame's id, given the frame length
/// and the id read: `None` where the frame is malformed (length below 1,
/// negative id, id longer than the frame).
pub fn frame_body_length(length: i32, id: &Varint21) -> (r: Option<usize>)
    ensures
        r is Some <==> length >= 1 && id.ans >= 0 && length >= id.size,
        r matches Some(n) ==> n == length - id.size,
{
    if length < 1 || id.ans < 0 {
        return None;
    }
    let rest = length - id.size as i32;
    if rest < 0 {
        None
    } else {
        Some(rest as usize)
    }
}

/// Reads one framed packet from the front of `buf`; its data borrows the
/// input. A frame that the layout has no meaning for (length below 1,
/// negative id, id longer than the frame) has no result and is not accepted;
/// the only error is running out of input.
pub fn read_packet<'t>(buf: &mut Reader<'t>) -> (r: Result<MinecraftPacket<'t>, ReadError>)
    requires
        !(spec_read_frame(old(buf)@) is Fault),
    ensures
        match r {
            Ok(p) => spec_read_frame(old(buf)@) matches ReadOutcome::Parsed((id, data), n) && id == p.packet_id
                && data == p.data@ && n <= old(buf)@.len() && final(buf)@ == old(buf)@.skip(n as int),
            Err(ReadError::UnexpectedEof) => spec_read_frame(old(buf)@) is Eof && final(buf)@ == Seq::<u8>::empty(),
            Err(ReadError::Malformed) => false,
        },
{
    read_packet_checked(buf)
}

/// Reads one framed packet from the front of `buf`, as `read_packet` does,
/// and answers a frame that the layout has no meaning for with `Malformed`.
pub fn read_packet_checked<'t>(buf: &mut Reader<'t>) -> (r: Result<MinecraftPacket<'t>, ReadError>)
    ensures
        match r {
            Ok(p) => spec_read_frame(old(buf)@) matches ReadOutcome::Parsed((id, data), n) && id == p.packet_id
                && data == p.data@ && n <= old(buf)@.len() && final(buf)@ == old(buf)@.skip(n as int),
            Err(ReadError::UnexpectedEof) => spec_read_frame(old(buf)@) is Eof && final(buf)@ == Seq::<u8>::empty(),
            Err(ReadError::Malformed) => spec_read_frame(old(buf)@) is Fault,
        },
{
    let ghost orig: Seq<u8> = buf@;
    proof {
        varint::lemma_span_bounds(orig, 0);
    }
    let length = match buf.read_varint() {
        Ok(v) => v,
        Err(e) => {
            return Err(e);
        },
    };
    if length.ans < 1 {
        return Err(ReadError::Malformed);
    }
    let ghost mid: Seq<u8> = buf@;
    proof {
        varint::lemma_span_bounds(mid, 0);
    }
    let id = match buf.read_varint() {
        Ok(v) => v,
        Err(e) => {
            return Err(e);
        },
    };
    let body = match frame_body_length(length.ans, &id) {
        Some(n) => n,
        None => {
            return Err(ReadError::Malformed);
        },
    };
    match buf.take(body) {
        Some(data) => {
            proof {
                assert(data@ =~= orig.subrange(length.size + id.size, length.size + length.ans));
                assert(buf@ =~= orig.skip(length.size + length.ans));
            }
            Ok(MinecraftPacket { packet_id: id.ans, data })
        },
        None => Err(ReadError::UnexpectedEof),
    }
}

impl<'t> MinecraftPacket<'t> {
    /// Reads a `T` from the front of the data, leaving the rest. Malformed data
    /// has no result (reading it panics), so it is not accepted.
    pub fn decode<T: Packet>(&mut self) -> (r: Result<T, ReadError>)
        requires
            !(T::spec_read(old(self).data@) is Fault),
        ensures
            packet::read_agrees(T::spec_read(old(self).data@), packet::deep_result(r), old(self).data@, final(self).data@),
            r matches Err(e) ==> e == ReadError::UnexpectedEof,
            final(self).packet_id == old(self).packet_id,
    {
        let mut r = Reader::new(self.data);
        let v = T::read(&mut r);
        self.data = r.remaining();
        v
    }

    /// Appends the packet's frame to `buf`.
    pub fn write(self, buf: &mut Vec<u8>)
        requires
            frame_writable(self.packet_id, self.data@.len()),
        ensures
            final(buf)@ == old(buf)@ + frame_bytes(self.packet_id, self.data@),
    {
        let id_len = varint::varint_size(self.packet_id);
        buf.write_varint(self.data.len() as i32 + id_len as i32);
        buf.write_varint(self.packet_id);
        buf.extend_from_slice(self.data);
        assert(buf@ =~= old(buf)@ + frame_bytes(self.packet_id, self.data@));
    }
}

/// Appends a frame with the given id around `data`: the id is written first,
/// then the data, and the two are prefixed with their joint length.
pub fn write_packet_fn(buf: &mut Vec<u8>, packet_id: i32, data: &[u8])
    requires
        frame_writable(packet_id, data@.len()),
    ensures
        final(buf)@ == old(buf)@ + frame_bytes(packet_id, data@),
{
    let mut out: Vec<u8> = Vec::new();
    out.write_varint(packet_id);
    out.extend_from_slice(data);
    proof {
        varint::lemma_varint_roundtrip(packet_id, Seq::empty());
    }
    buf.write_varint(out.len() as i32);
    buf.extend_from_slice(out.as_slice());
    assert(buf@ =~= old(buf)@ + frame_bytes(packet_id, data@));
}

/// Appends `packet` in a frame under its id.
pub fn write_packet<T: Packet>(buf: &mut Vec<u8>, packet: &T)
    requires
        T::spec_writable(packet.deep_view()),
        frame_writable(T::spec_id(), T::spec_write(packet.deep_view()).len()),
    ensures
        final(buf)@ == old(buf)@ + frame_bytes(T::spec_id(), T::spec_write(packet.deep_view())),
{
    proof {
        T::lemma_id();
    }
    let mut data: Vec<u8> = Vec::new();
    packet.write(&mut data);
    assert(data@ =~= T::spec_write(packet.deep_view()));
    write_packet_fn(buf, T::ID, data.as_slice());
}

/// Reading a frame back gives the id and data it was written with, and takes
/// exactly its bytes, whatever follows.
pub proof fn lemma_frame_roundtrip(packet_id: i32, data: Seq<u8>, rest: Seq<u8>)
    requires
        frame_writable(packet_id, data.len()),
    ensures
        spec_read_frame(frame_bytes(packet_id, data) + rest) == ReadOutcome::Parsed(
            (packet_id, data),
            frame_bytes(packet_id, data).len(),
        ),
{
    let len = (varint::varint_len(packet_id) + data.len()) as i32;
    let p = varint::varint_bytes(len);
    let q = varint::varint_bytes(packet_id);
    let all = frame_bytes(packet_id, data) + rest;
    varint::lemma_varint_roundtrip(packet_id, data + rest);
    varint::lemma_varint_roundtrip(len, q + data + rest);
    assert(all =~= p + (q + data + rest));
    assert(all.skip(p.len() as int) =~= q + (data + rest));
    assert(all.subrange((p.len() + q.len()) as int, p.len() + len) =~= data);
}

/// A packet written in its frame reads back: the frame gives the packet's id
/// and data, and decoding the data gives the packet's value.
pub proof fn lemma_packet_roundtrip<T: Packet>(v: <T as DeepView>::V, rest: Seq<u8>)
    requires
        T::spec_writable(v),
        frame_writable(T::spec_id(), T::spec_write(v).len()),
    ensures
        spec_read_frame(frame_bytes(T::spec_id(), T::spec_write(v)) + rest) == ReadOutcome::Parsed(
            (T::spec_id(), T::spec_write(v)),
            frame_bytes(T::spec_id(), T::spec_write(v)).len(),
        ),
        T::spec_read(T::spec_write(v)) == ReadOutcome::Parsed(v, T::spec_write(v).len()),
{
    lemma_frame_roundtrip(T::spec_id(), T::spec_write(v), rest);
    T::lemma_roundtrip(v, Seq::empty());
    assert(T::spec_write(v) + Seq::<u8>::empty() =~= T::spec_write(v));
}

} // verus!
