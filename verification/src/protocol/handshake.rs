//! The packet a client opens a connection with.

use vstd::prelude::*;
use crate::ext::{ReadError, ReadOutcome, Reader};
use crate::protocol::packet::{lemma_pair_read, Packet, PacketData, VarInt};
use crate::protocol::State;

verus! {

/// The first packet of a connection: protocol version, the address and port the client connected to, and the state it moves to.
#[derive(Debug)]
pub struct Handshake {
    pub protocol: VarInt,
    pub address: String,
    pub port: i16,
    pub next_state: State,
}

impl DeepView for Handshake {
    type V = (i32, (Seq<char>, (i16, State)));

    open spec fn deep_view(&self) -> (i32, (Seq<char>, (i16, State))) {
        (self.protocol.deep_view(), (self.address.deep_view(), (self.port.deep_view(), self.next_state.deep_view())))
    }
}

/// The wire layout of the fields, in declaration order.
impl PacketData for Handshake {
    open spec fn spec_read(bytes: Seq<u8>) -> ReadOutcome<(i32, (Seq<char>, (i16, State)))> {
        <(VarInt, (String, (i16, State))) as PacketData>::spec_read(bytes)
    }

    open spec fn spec_writable(v: (i32, (Seq<char>, (i16, State)))) -> bool {
        <(VarInt, (String, (i16, State))) as PacketData>::spec_writable(v)
    }

    open spec fn spec_write(v: (i32, (Seq<char>, (i16, State)))) -> Seq<u8> {
        <(VarInt, (String, (i16, State))) as PacketData>::spec_write(v)
    }

    proof fn lemma_roundtrip(v: (i32, (Seq<char>, (i16, State))), rest: Seq<u8>) {
        <(VarInt, (String, (i16, State))) as PacketData>::lemma_roundtrip(v, rest);
    }

    fn read_checked(buf: &mut Reader) -> (r: Result<Handshake, ReadError>) {
        match <(VarInt, (String, (i16, State))) as PacketData>::read_checked(buf) {
            Ok((protocol, (address, (port, next_state)))) => Ok(Handshake { protocol, address, port, next_state }),
            Err(e) => Err(e),
        }
    }

    fn write(&self, buf: &mut Vec<u8>) {
        self.protocol.write(buf);
        self.address.write(buf);
        self.port.write(buf);
        self.next_state.write(buf);
        assert(buf@ =~= old(buf)@ + Self::spec_write(self.deep_view()));
    }
}

impl Packet for Handshake {
    const ID: i32 = 0;

    open spec fn spec_id() -> i32 {
        0
    }

    proof fn lemma_id() {
    }
}

} // verus!

verus! {

/// A handshake is written as its protocol version, then address, then port, then next state in that field's own
/// wire layout, in declaration order.
pub proof fn law_handshake_layout(p: Handshake)
    ensures
        <Handshake as PacketData>::spec_write(p.deep_view()) == <VarInt as PacketData>::spec_write(p.protocol.deep_view()) + <String as PacketData>::spec_write(p.address.deep_view()) + <i16 as PacketData>::spec_write(p.port.deep_view()) + <State as PacketData>::spec_write(p.next_state.deep_view()),
{
    assert(<Handshake as PacketData>::spec_write(p.deep_view()) =~= <VarInt as PacketData>::spec_write(p.protocol.deep_view()) + <String as PacketData>::spec_write(p.address.deep_view()) + <i16 as PacketData>::spec_write(p.port.deep_view()) + <State as PacketData>::spec_write(p.next_state.deep_view()));
}

/// A handshake is read as its protocol version, then address, then port, then next state,
/// each from where the one before ended: where
/// the fields read so from the front of `bytes`, the packet read is the
/// packet of those fields.
pub proof fn law_handshake_read(p: Handshake, bytes: Seq<u8>, n1: nat, n2: nat, n3: nat, n4: nat)
    requires
        n1 + n2 + n3 + n4 <= bytes.len(),
        <VarInt as PacketData>::spec_read(bytes) == ReadOutcome::Parsed(p.protocol.deep_view(), n1),
        <String as PacketData>::spec_read(bytes.skip(n1 as int)) == ReadOutcome::Parsed(p.address.deep_view(), n2),
        <i16 as PacketData>::spec_read(bytes.skip((n1 + n2) as int)) == ReadOutcome::Parsed(p.port.deep_view(), n3),
        <State as PacketData>::spec_read(bytes.skip((n1 + n2 + n3) as int)) == ReadOutcome::Parsed(p.next_state.deep_view(), n4),
    ensures
        <Handshake as PacketData>::spec_read(bytes) == ReadOutcome::Parsed(p.deep_view(), n1 + n2 + n3 + n4),
{
    assert(bytes.skip((n1 + n2) as int).skip(n3 as int) =~= bytes.skip((n1 + n2 + n3) as int));
    lemma_pair_read::<i16, State>(bytes.skip((n1 + n2) as int), p.port.deep_view(), n3, p.next_state.deep_view(), n4);
    assert(bytes.skip(n1 as int).skip(n2 as int) =~= bytes.skip((n1 + n2) as int));
    lemma_pair_read::<String, (i16, State)>(bytes.skip(n1 as int), p.address.deep_view(), n2, (p.port.deep_view(), p.next_state.deep_view()), n3 + n4);
    lemma_pair_read::<VarInt, (String, (i16, State))>(bytes, p.protocol.deep_view(), n1, (p.address.deep_view(), (p.port.deep_view(), p.next_state.deep_view())), n2 + n3 + n4);
}

} // verus!
