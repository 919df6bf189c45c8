//! How values are laid out on the wire: the `PacketData` codec and its
//! instances for the protocol's field types.

use vstd::prelude::*;
use crate::bigendian;
use crate::ext;
use crate::ext::{MinecraftReadExt, MinecraftWriteExt, ReadError, ReadOutcome, Reader};
use crate::varint;

verus! {

/// The result of a read, with a successfully read value taken by its abstract
/// value.
pub open spec fn deep_result<T: DeepView>(r: Result<T, ReadError>) -> Result<T::V, ReadError> {
    match r {
        Ok(t) => Ok(t.deep_view()),
        Err(e) => Err(e),
    }
}

/// A read from `before`, leaving `after`, returned `r` as the outcome `o`
/// prescribes: the value and exactly its bytes consumed; `UnexpectedEof` with
/// all input consumed when the input ends first; `Malformed` on malformed input.
pub open spec fn read_agrees<V>(o: ReadOutcome<V>, r: Result<V, ReadError>, before: Seq<u8>, after: Seq<u8>) -> bool {
    match r {
        Ok(v) => o matches ReadOutcome::Parsed(w, n) && w == v && n <= before.len() && after == before.skip(n as int),
        Err(ReadError::UnexpectedEof) => o is Eof && after == Seq::<u8>::empty(),
        Err(ReadError::Malformed) => o is Fault,
    }
}

/// A type with a wire layout. `spec_read` says what reading gives on any input
/// (as an abstract value), `spec_write` what writing a value appends, and
/// `spec_writable` which values can be written at all.
pub trait PacketData: Sized + DeepView {
    spec fn spec_read(bytes: Seq<u8>) -> ReadOutcome<<Self as DeepView>::V>;

    spec fn spec_writable(v: <Self as DeepView>::V) -> bool;

    spec fn spec_write(v: <Self as DeepView>::V) -> Seq<u8>;

    /// Reading what was written gives back the value, and takes exactly the
    /// written bytes, whatever follows them.
    proof fn lemma_roundtrip(v: <Self as DeepView>::V, rest: Seq<u8>)
        requires
            Self::spec_writable(v),
        ensures
            Self::spec_read(Self::spec_write(v) + rest) == ReadOutcome::Parsed(v, Self::spec_write(v).len()),
    ;

    /// Reads a value from the front of `buf`, on every input: what the wire
    /// layout has no meaning for comes back as `Malformed`.
    fn read_checked(buf: &mut Reader) -> (r: Result<Self, ReadError>)
        ensures
            read_agrees(Self::spec_read(old(buf)@), deep_result(r), old(buf)@, final(buf)@),
    ;

    /// Reads a value from the front of `buf`. Malformed input has no result
    /// (reading it panics), so it is not accepted; a read can still fail with
    /// `UnexpectedEof`.
    fn read(buf: &mut Reader) -> (r: Result<Self, ReadError>)
        requires
            !(Self::spec_read(old(buf)@) is Fault),
        ensures
            read_agrees(Self::spec_read(old(buf)@), deep_result(r), old(buf)@, final(buf)@),
            r matches Err(e) ==> e == ReadError::UnexpectedEof,
    {
        Self::read_checked(buf)
    }

    /// Appends the wire layout of `self` to `buf`.
    fn write(&self, buf: &mut Vec<u8>)
        requires
            Self::spec_writable(self.deep_view()),
        ensures
            final(buf)@ == old(buf)@ + Self::spec_write(self.deep_view()),
    ;
}

/// One byte, taken from the front of `bytes`.
pub open spec fn spec_read_u8(bytes: Seq<u8>) -> ReadOutcome<u8> {
    if bytes.len() >= 1 {
        ReadOutcome::Parsed(bytes[0], 1)
    } else {
        ReadOutcome::Eof
    }
}

impl PacketData for u8 {
    open spec fn spec_read(bytes: Seq<u8>) -> ReadOutcome<u8> {
        spec_read_u8(bytes)
    }

    open spec fn spec_writable(v: u8) -> bool {
        true
    }

    open spec fn spec_write(v: u8) -> Seq<u8> {
        seq![v]
    }

    proof fn lemma_roundtrip(v: u8, rest: Seq<u8>) {
        assert((seq![v] + rest)[0] == v);
    }

    fn read_checked(buf: &mut Reader) -> (r: Result<u8, ReadError>) {
        match buf.take(1) {
            Some(s) => Ok(s[0]),
            None => Err(ReadError::UnexpectedEof),
        }
    }

    fn write(&self, buf: &mut Vec<u8>) {
        buf.push(*self);
        assert(buf@ =~= old(buf)@ + seq![*self]);
    }
}

impl PacketData for i16 {
    open spec fn spec_read(bytes: Seq<u8>) -> ReadOutcome<i16> {
        if bytes.len() >= 2 {
            ReadOutcome::Parsed(bigendian::i16_from_be(bytes), 2)
        } else {
            ReadOutcome::Eof
        }
    }

    open spec fn spec_writable(v: i16) -> bool {
        true
    }

    open spec fn spec_write(v: i16) -> Seq<u8> {
        bigendian::i16_to_be(v)
    }

    proof fn lemma_roundtrip(v: i16, rest: Seq<u8>) {
        bigendian::lemma_i16_roundtrip(v, rest);
    }

    fn read_checked(buf: &mut Reader) -> (r: Result<i16, ReadError>) {
        match buf.take(2) {
            Some(s) => Ok(bigendian::read_i16_be(s)),
            None => Err(ReadError::UnexpectedEof),
        }
    }

    fn write(&self, buf: &mut Vec<u8>) {
        let b = bigendian::write_i16_be(*self);
        buf.extend_from_slice(&b);
        assert(buf@ =~= old(buf)@ + bigendian::i16_to_be(*self));
    }
}

impl PacketData for i32 {
    open spec fn spec_read(bytes: Seq<u8>) -> ReadOutcome<i32> {
        if bytes.len() >= 4 {
            ReadOutcome::Parsed(bigendian::i32_from_be(bytes), 4)
        } else {
            ReadOutcome::Eof
        }
    }

    open spec fn spec_writable(v: i32) -> bool {
        true
    }

    open spec fn spec_write(v: i32) -> Seq<u8> {
        bigendian::i32_to_be(v)
    }

    proof fn lemma_roundtrip(v: i32, rest: Seq<u8>) {
        bigendian::lemma_i32_roundtrip(v, rest);
    }

    fn read_checked(buf: &mut Reader) -> (r: Result<i32, ReadError>) {
        match buf.take(4) {
            Some(s) => Ok(bigendian::read_i32_be(s)),
            None => Err(ReadError::UnexpectedEof),
        }
    }

    fn write(&self, buf: &mut Vec<u8>) {
        let b = bigendian::write_i32_be(*self);
        buf.extend_from_slice(&b);
        assert(buf@ =~= old(buf)@ + bigendian::i32_to_be(*self));
    }
}

impl PacketData for i64 {
    open spec fn spec_read(bytes: Seq<u8>) -> ReadOutcome<i64> {
        if bytes.len() >= 8 {
            ReadOutcome::Parsed(bigendian::i64_from_be(bytes), 8)
        } else {
            ReadOutcome::Eof
        }
    }

    open spec fn spec_writable(v: i64) -> bool {
        true
    }

    open spec fn spec_write(v: i64) -> Seq<u8> {
        bigendian::i64_to_be(v)
    }

    proof fn lemma_roundtrip(v: i64, rest: Seq<u8>) {
        bigendian::lemma_i64_roundtrip(v, rest);
    }

    fn read_checked(buf: &mut Reader) -> (r: Result<i64, ReadError>) {
        match buf.take(8) {
            Some(s) => Ok(bigendian::read_i64_be(s)),
            None => Err(ReadError::UnexpectedEof),
        }
    }

    fn write(&self, buf: &mut Vec<u8>) {
        let b = bigendian::write_i64_be(*self);
        buf.extend_from_slice(&b);
        assert(buf@ =~= old(buf)@ + bigendian::i64_to_be(*self));
    }
}

/// A `u64` is read as the bits of a big-endian `i64` and written as a
/// big-endian `u64`.
impl PacketData for u64 {
    open spec fn spec_read(bytes: Seq<u8>) -> ReadOutcome<u64> {
        if bytes.len() >= 8 {
            ReadOutcome::Parsed(bigendian::i64_from_be(bytes) as u64, 8)
        } else {
            ReadOutcome::Eof
        }
    }

    open spec fn spec_writable(v: u64) -> bool {
        true
    }

    open spec fn spec_write(v: u64) -> Seq<u8> {
        bigendian::u64_to_be(v)
    }

    proof fn lemma_roundtrip(v: u64, rest: Seq<u8>) {
        bigendian::lemma_u64_roundtrip(v, rest);
        let u = bigendian::u64_from_be(bigendian::u64_to_be(v) + rest);
        assert((u as i64) as u64 == u) by (bit_vector);
    }

    fn read_checked(buf: &mut Reader) -> (r: Result<u64, ReadError>) {
        match buf.take(8) {
            Some(s) => Ok(bigendian::read_i64_be(s) as u64),
            None => Err(ReadError::UnexpectedEof),
        }
    }

    fn write(&self, buf: &mut Vec<u8>) {
        let b = bigendian::write_u64_be(*self);
        buf.extend_from_slice(&b);
        assert(buf@ =~= old(buf)@ + bigendian::u64_to_be(*self));
    }
}

/// A `bool` is one byte: it reads as `true` exactly when the byte is 1, and is
/// written as 1 or 0.
impl PacketData for bool {
    open spec fn spec_read(bytes: Seq<u8>) -> ReadOutcome<bool> {
        if bytes.len() >= 1 {
            ReadOutcome::Parsed(bytes[0] == 1, 1)
        } else {
            ReadOutcome::Eof
        }
    }

    open spec fn spec_writable(v: bool) -> bool {
        true
    }

    open spec fn spec_write(v: bool) -> Seq<u8> {
        seq![if v { 1u8 } else { 0u8 }]
    }

    proof fn lemma_roundtrip(v: bool, rest: Seq<u8>) {
        assert((Self::spec_write(v) + rest)[0] == Self::spec_write(v)[0]);
    }

    fn read_checked(buf: &mut Reader) -> (r: Result<bool, ReadError>) {
        match buf.take(1) {
            Some(s) => Ok(s[0] == 1),
            None => Err(ReadError::UnexpectedEof),
        }
    }

    fn write(&self, buf: &mut Vec<u8>) {
        buf.push(if *self { 1 } else { 0 });
        assert(buf@ =~= old(buf)@ + Self::spec_write(*self));
    }
}

/// A string is its UTF-8 bytes prefixed with their number as a VarInt; reading
/// replaces invalid UTF-8 sequences, and fails hard (`Malformed`) on a missing
/// or negative length or on missing bytes.
impl PacketData for String {
    open spec fn spec_read(bytes: Seq<u8>) -> ReadOutcome<Seq<char>> {
        ext::prefixed_string(bytes, i32::MAX)
    }

    open spec fn spec_writable(v: Seq<char>) -> bool {
        vstd::utf8::encode_utf8(v).len() <= i32::MAX
    }

    open spec fn spec_write(v: Seq<char>) -> Seq<u8> {
        varint::varint_bytes(vstd::utf8::encode_utf8(v).len() as i32) + vstd::utf8::encode_utf8(v)
    }

    proof fn lemma_roundtrip(v: Seq<char>, rest: Seq<u8>) {
        let e = vstd::utf8::encode_utf8(v);
        let l = e.len() as i32;
        let p = varint::varint_bytes(l);
        varint::lemma_varint_roundtrip(l, e + rest);
        assert(p + e + rest == p + (e + rest));
        assert((p + e + rest).subrange(p.len() as int, p.len() + l) =~= e);
        vstd::utf8::encode_utf8_valid_utf8(v);
        vstd::utf8::encode_utf8_decode_utf8(v);
    }

    fn read_checked(buf: &mut Reader) -> (r: Result<String, ReadError>) {
        let bytes = match ext::read_prefixed(buf, i32::MAX) {
            Ok(b) => b,
            Err(e) => {
                return Err(e);
            },
        };
        let s = ext::string_from_utf8_lossy(bytes.as_slice());
        assert(s@ == ext::lossy_utf8(bytes@));
        assert(s.deep_view() == s@);
        Ok(s)
    }

    fn write(&self, buf: &mut Vec<u8>) {
        buf.write_string(self.as_str());
    }
}

/// An `i32` written as a VarInt.
#[derive(Debug)]
pub struct VarInt(pub i32);

impl DeepView for VarInt {
    type V = i32;

    open spec fn deep_view(&self) -> i32 {
        self.0
    }
}

impl core::ops::Deref for VarInt {
    type Target = i32;

    fn deref(&self) -> (r: &i32)
        ensures
            *r == self.0,
    {
        &self.0
    }
}

impl From<i32> for VarInt {
    fn from(v: i32) -> (r: VarInt) {
        VarInt(v)
    }
}

impl vstd::std_specs::convert::FromSpecImpl<i32> for VarInt {
    open spec fn obeys_from_spec() -> bool {
        true
    }

    open spec fn from_spec(v: i32) -> VarInt {
        VarInt(v)
    }
}

/// A VarInt: any five-byte or shorter VarInt reads, and only non-negative
/// values can be written (a negative one never ends its encoding).
impl PacketData for VarInt {
    open spec fn spec_read(bytes: Seq<u8>) -> ReadOutcome<i32> {
        match varint::varint_decode(bytes) {
            Some((v, n)) => ReadOutcome::Parsed(v, n),
            None => ReadOutcome::Eof,
        }
    }

    open spec fn spec_writable(v: i32) -> bool {
        v >= 0
    }

    open spec fn spec_write(v: i32) -> Seq<u8> {
        varint::varint_bytes(v)
    }

    proof fn lemma_roundtrip(v: i32, rest: Seq<u8>) {
        varint::lemma_varint_roundtrip(v, rest);
    }

    fn read_checked(buf: &mut Reader) -> (r: Result<VarInt, ReadError>) {
        proof {
            varint::lemma_span_bounds(buf@, 0);
        }
        match buf.read_varint() {
            Ok(v) => Ok(VarInt(v.ans)),
            Err(e) => Err(e),
        }
    }

    fn write(&self, buf: &mut Vec<u8>) {
        buf.write_varint(self.0);
    }
}

/// `k` values read one after another from the front of `bytes`.
pub open spec fn read_seq<T: PacketData>(bytes: Seq<u8>, k: nat) -> ReadOutcome<Seq<<T as DeepView>::V>>
    decreases k,
{
    if k == 0 {
        ReadOutcome::Parsed(Seq::empty(), 0)
    } else {
        match read_seq::<T>(bytes, (k - 1) as nat) {
            ReadOutcome::Parsed(s, m) => match T::spec_read(bytes.skip(m as int)) {
                ReadOutcome::Parsed(x, l) => ReadOutcome::Parsed(s.push(x), m + l),
                ReadOutcome::Eof => ReadOutcome::Eof,
                ReadOutcome::Fault => ReadOutcome::Fault,
            },
            ReadOutcome::Eof => ReadOutcome::Eof,
            ReadOutcome::Fault => ReadOutcome::Fault,
        }
    }
}

/// Once reading a sequence of values fails, reading a longer one fails the same
/// way.
pub proof fn lemma_read_seq_stuck<T: PacketData>(bytes: Seq<u8>, k: nat, k2: nat)
    requires
        k <= k2,
        !(read_seq::<T>(bytes, k) is Parsed),
    ensures
        read_seq::<T>(bytes, k2) == read_seq::<T>(bytes, k),
    decreases k2 - k,
{
    if k < k2 {
        lemma_read_seq_stuck::<T>(bytes, k, (k2 - 1) as nat);
    }
}

/// The values of `s` written one after another.
pub open spec fn write_seq<T: PacketData>(s: Seq<<T as DeepView>::V>) -> Seq<u8>
    decreases s.len(),
{
    if s.len() == 0 {
        Seq::empty()
    } else {
        write_seq::<T>(s.drop_last()) + T::spec_write(s.last())
    }
}

/// Reading as many values as were written gives them back.
pub proof fn lemma_seq_roundtrip<T: PacketData>(s: Seq<<T as DeepView>::V>, rest: Seq<u8>)
    requires
        forall|i: int| 0 <= i < s.len() ==> T::spec_writable(#[trigger] s[i]),
    ensures
        read_seq::<T>(write_seq::<T>(s) + rest, s.len()) == ReadOutcome::Parsed(s, write_seq::<T>(s).len()),
    decreases s.len(),
{
    if s.len() == 0 {
        assert(s =~= Seq::<<T as DeepView>::V>::empty());
    } else {
        let p = s.drop_last();
        let x = s.last();
        let wx = T::spec_write(x);
        assert forall|i: int| 0 <= i < p.len() implies T::spec_writable(#[trigger] p[i]) by {
            assert(p[i] == s[i]);
        }
        lemma_seq_roundtrip::<T>(p, wx + rest);
        let all = write_seq::<T>(s) + rest;
        assert(all =~= write_seq::<T>(p) + (wx + rest));
        let m = write_seq::<T>(p).len();
        assert(all.skip(m as int) =~= wx + rest);
        assert(T::spec_writable(s[s.len() - 1]));
        T::lemma_roundtrip(x, rest);
        assert(p.push(x) =~= s);
        assert(read_seq::<T>(all, p.len()) == ReadOutcome::Parsed(p, m));
        assert(T::spec_read(all.skip(m as int)) == ReadOutcome::Parsed(x, wx.len()));
        assert(write_seq::<T>(s) == write_seq::<T>(p) + wx);
    }
}

/// An array is its length as a VarInt followed by its elements. A negative
/// length fails hard (`Malformed`); an array longer than `i32::MAX` cannot be
/// written.
impl<T: PacketData> PacketData for Vec<T> {
    open spec fn spec_read(bytes: Seq<u8>) -> ReadOutcome<Seq<<T as DeepView>::V>> {
        match varint::varint_decode(bytes) {
            None => ReadOutcome::Eof,
            Some((len, n)) => if len < 0 {
                ReadOutcome::Fault
            } else {
                match read_seq::<T>(bytes.skip(n as int), len as nat) {
                    ReadOutcome::Parsed(s, m) => ReadOutcome::Parsed(s, n + m),
                    ReadOutcome::Eof => ReadOutcome::Eof,
                    ReadOutcome::Fault => ReadOutcome::Fault,
                }
            },
        }
    }

    open spec fn spec_writable(v: Seq<<T as DeepView>::V>) -> bool {
        &&& v.len() <= i32::MAX
        &&& forall|i: int| 0 <= i < v.len() ==> T::spec_writable(#[trigger] v[i])
    }

    open spec fn spec_write(v: Seq<<T as DeepView>::V>) -> Seq<u8> {
        varint::varint_bytes(v.len() as i32) + write_seq::<T>(v)
    }

    proof fn lemma_roundtrip(v: Seq<<T as DeepView>::V>, rest: Seq<u8>) {
        let p = varint::varint_bytes(v.len() as i32);
        let w = write_seq::<T>(v);
        varint::lemma_varint_roundtrip(v.len() as i32, w + rest);
        assert(p + w + rest =~= p + (w + rest));
        assert((p + w + rest).skip(p.len() as int) =~= w + rest);
        lemma_seq_roundtrip::<T>(v, rest);
    }

    fn read_checked(buf: &mut Reader) -> (r: Result<Vec<T>, ReadError>) {
        let ghost orig: Seq<u8> = buf@;
        proof {
            varint::lemma_span_bounds(orig, 0);
        }
        let len = match buf.read_varint() {
            Ok(v) => v,
            Err(e) => {
                return Err(e);
            },
        };
        if len.ans < 0 {
            return Err(ReadError::Malformed);
        }
        let ghost body: Seq<u8> = buf@;
        let mut out: Vec<T> = Vec::new();
        let ghost mut m: nat = 0;
        let mut i: i32 = 0;
        assert(body.skip(0) =~= body);
        assert(out.deep_view() =~= Seq::<<T as DeepView>::V>::empty());
        while i < len.ans
            invariant
                0 <= i <= len.ans,
                orig == old(buf)@,
                varint::varint_decode(orig) == Some((len.ans, len.size as nat)),
                len.size <= orig.len(),
                body == orig.skip(len.size as int),
                read_seq::<T>(body, i as nat) == ReadOutcome::Parsed(out.deep_view(), m),
                m <= body.len(),
                buf@ == body.skip(m as int),
            decreases len.ans - i,
        {
            let ghost before: Seq<u8> = buf@;
            match T::read_checked(buf) {
                Ok(x) => {
                    let ghost prev = out.deep_view();
                    out.push(x);
                    assert(out.deep_view() =~= prev.push(x.deep_view()));
                    proof {
                        let l = (before.len() - buf@.len()) as nat;
                        assert(buf@ =~= body.skip((m + l) as int));
                        m = m + l;
                    }
                },
                Err(e) => {
                    assert(read_seq::<T>(body, (i + 1) as nat) == match T::spec_read(before) {
                        ReadOutcome::Parsed(x, l) => ReadOutcome::Parsed(out.deep_view().push(x), m + l),
                        ReadOutcome::Eof => ReadOutcome::<Seq<<T as DeepView>::V>>::Eof,
                        ReadOutcome::Fault => ReadOutcome::<Seq<<T as DeepView>::V>>::Fault,
                    });
                    proof {
                        lemma_read_seq_stuck::<T>(body, (i + 1) as nat, len.ans as nat);
                    }
                    return Err(e);
                },
            }
            i = i + 1;
        }
        proof {
            assert(buf@ =~= orig.skip(len.size + m));
        }
        Ok(out)
    }

    fn write(&self, buf: &mut Vec<u8>) {
        let ghost s = self.deep_view();
        buf.write_varint(self.len() as i32);
        let mut i: usize = 0;
        while i < self.len()
            invariant
                i <= self.len(),
                s == self.deep_view(),
                Self::spec_writable(s),
                buf@ == old(buf)@ + varint::varint_bytes(s.len() as i32) + write_seq::<T>(s.take(i as int)),
            decreases self.len() - i,
        {
            assert(s[i as int] == self@[i as int].deep_view());
            self[i].write(buf);
            assert(s.take(i + 1).drop_last() =~= s.take(i as int));
            i = i + 1;
        }
        assert(s.take(i as int) =~= s);
    }
}

/// Two values one after the other; the fields of a packet are read and written
/// as nested pairs, in declaration order.
impl<A: PacketData, B: PacketData> PacketData for (A, B) {
    open spec fn spec_read(bytes: Seq<u8>) -> ReadOutcome<(<A as DeepView>::V, <B as DeepView>::V)> {
        match A::spec_read(bytes) {
            ReadOutcome::Parsed(a, n) => match B::spec_read(bytes.skip(n as int)) {
                ReadOutcome::Parsed(b, m) => ReadOutcome::Parsed((a, b), n + m),
                ReadOutcome::Eof => ReadOutcome::Eof,
                ReadOutcome::Fault => ReadOutcome::Fault,
            },
            ReadOutcome::Eof => ReadOutcome::Eof,
            ReadOutcome::Fault => ReadOutcome::Fault,
        }
    }

    open spec fn spec_writable(v: (<A as DeepView>::V, <B as DeepView>::V)) -> bool {
        A::spec_writable(v.0) && B::spec_writable(v.1)
    }

    open spec fn spec_write(v: (<A as DeepView>::V, <B as DeepView>::V)) -> Seq<u8> {
        A::spec_write(v.0) + B::spec_write(v.1)
    }

    proof fn lemma_roundtrip(v: (<A as DeepView>::V, <B as DeepView>::V), rest: Seq<u8>) {
        let wa = A::spec_write(v.0);
        let wb = B::spec_write(v.1);
        A::lemma_roundtrip(v.0, wb + rest);
        B::lemma_roundtrip(v.1, rest);
        assert(wa + wb + rest =~= wa + (wb + rest));
        assert((wa + wb + rest).skip(wa.len() as int) =~= wb + rest);
    }

    fn read_checked(buf: &mut Reader) -> (r: Result<(A, B), ReadError>) {
        let ghost orig: Seq<u8> = buf@;
        let a = match A::read_checked(buf) {
            Ok(a) => a,
            Err(e) => {
                return Err(e);
            },
        };
        let ghost mid: Seq<u8> = buf@;
        let b = match B::read_checked(buf) {
            Ok(b) => b,
            Err(e) => {
                assert(mid =~= orig.skip(orig.len() - mid.len()));
                return Err(e);
            },
        };
        proof {
            let n = orig.len() - mid.len();
            let m = mid.len() - buf@.len();
            assert(mid =~= orig.skip(n));
            assert(buf@ =~= orig.skip(n + m));
        }
        Ok((a, b))
    }

    fn write(&self, buf: &mut Vec<u8>) {
        self.0.write(buf);
        self.1.write(buf);
        assert(buf@ =~= old(buf)@ + (A::spec_write(self.0.deep_view()) + B::spec_write(self.1.deep_view())));
    }
}

/// A packet: its fields' wire layout and the id it is sent under.
pub trait Packet: PacketData {
    const ID: i32;

    /// The id, as contracts see it.
    spec fn spec_id() -> i32;

    /// `ID` is the id contracts speak of.
    proof fn lemma_id()
        ensures
            Self::ID == Self::spec_id(),
    ;
}

} // verus!

verus! {

/// A pair is read as its first part and then its second part from where the
/// first ended.
pub proof fn lemma_pair_read<A: PacketData, B: PacketData>(
    bytes: Seq<u8>,
    a: <A as DeepView>::V,
    n: nat,
    b: <B as DeepView>::V,
    m: nat,
)
    requires
        A::spec_read(bytes) == ReadOutcome::Parsed(a, n),
        B::spec_read(bytes.skip(n as int)) == ReadOutcome::Parsed(b, m),
    ensures
        <(A, B) as PacketData>::spec_read(bytes) == ReadOutcome::Parsed((a, b), n + m),
{
}

} // verus!
