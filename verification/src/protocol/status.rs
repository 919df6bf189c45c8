//! Packets of the status phase (server list ping).

use vstd::prelude::*;
use crate::ext::{ReadError, ReadOutcome, Reader};
use crate::protocol::packet::{Packet, PacketData};

verus! {

/// The client asks for the server's status; the packet has no fields.
#[derive(Debug)]
pub struct StatusRequest;

impl DeepView for StatusRequest {
    type V = ();

    open spec fn deep_view(&self) -> () {
        ()
    }
}

/// Reading takes no bytes. Writing was never implemented (it panics), so no
/// value can be written.
impl PacketData for StatusRequest {
    open spec fn spec_read(bytes: Seq<u8>) -> ReadOutcome<()> {
        ReadOutcome::Parsed((), 0)
    }

    open spec fn spec_writable(v: ()) -> bool {
        false
    }

    open spec fn spec_write(v: ()) -> Seq<u8> {
        Seq::empty()
    }

    proof fn lemma_roundtrip(v: (), rest: Seq<u8>) {
    }

    fn read_checked(buf: &mut Reader) -> (r: Result<StatusRequest, ReadError>) {
        assert(buf@ =~= buf@.skip(0));
        Ok(StatusRequest)
    }

    fn write(&self, buf: &mut Vec<u8>) {
    }
}

impl Packet for StatusRequest {
    const ID: i32 = 0;

    open spec fn spec_id() -> i32 {
        0
    }

    proof fn lemma_id() {
    }
}

/// The server's status, as JSON text.
pub struct StatusResponse {
    pub response: String,
}

impl DeepView for StatusResponse {
    type V = Seq<char>;

    open spec fn deep_view(&self) -> Seq<char> {
        self.response.deep_view()
    }
}

/// The wire layout of the fields, in declaration order.
impl PacketData for StatusResponse {
    open spec fn spec_read(bytes: Seq<u8>) -> ReadOutcome<Seq<char>> {
        <String as PacketData>::spec_read(bytes)
    }

    open spec fn spec_writable(v: Seq<char>) -> bool {
        <String as PacketData>::spec_writable(v)
    }

    open spec fn spec_write(v: Seq<char>) -> Seq<u8> {
        <String as PacketData>::spec_write(v)
    }

    proof fn lemma_roundtrip(v: Seq<char>, rest: Seq<u8>) {
        <String as PacketData>::lemma_roundtrip(v, rest);
    }

    fn read_checked(buf: &mut Reader) -> (r: Result<StatusResponse, ReadError>) {
        match <String as PacketData>::read_checked(buf) {
            Ok(response) => Ok(StatusResponse { response }),
            Err(e) => Err(e),
        }
    }

    fn write(&self, buf: &mut Vec<u8>) {
        self.response.write(buf);
        assert(buf@ =~= old(buf)@ + Self::spec_write(self.deep_view()));
    }
}

impl Packet for StatusResponse {
    const ID: i32 = 0;

    open spec fn spec_id() -> i32 {
        0
    }

    proof fn lemma_id() {
    }
}

/// A ping carrying a payload to echo.
pub struct Ping {
    pub payload: i64,
}

impl DeepView for Ping {
    type V = i64;

    open spec fn deep_view(&self) -> i64 {
        self.payload.deep_view()
    }
}

/// The wire layout of the fields, in declaration order.
impl PacketData for Ping {
    open spec fn spec_read(bytes: Seq<u8>) -> ReadOutcome<i64> {
        <i64 as PacketData>::spec_read(bytes)
    }

    open spec fn spec_writable(v: i64) -> bool {
        <i64 as PacketData>::spec_writable(v)
    }

    open spec fn spec_write(v: i64) -> Seq<u8> {
        <i64 as PacketData>::spec_write(v)
    }

    proof fn lemma_roundtrip(v: i64, rest: Seq<u8>) {
        <i64 as PacketData>::lemma_roundtrip(v, rest);
    }

    fn read_checked(buf: &mut Reader) -> (r: Result<Ping, ReadError>) {
        match <i64 as PacketData>::read_checked(buf) {
            Ok(payload) => Ok(Ping { payload }),
            Err(e) => Err(e),
        }
    }

    fn write(&self, buf: &mut Vec<u8>) {
        self.payload.write(buf);
        assert(buf@ =~= old(buf)@ + Self::spec_write(self.deep_view()));
    }
}

impl Packet for Ping {
    const ID: i32 = 0x01;

    open spec fn spec_id() -> i32 {
        0x01
    }

    proof fn lemma_id() {
    }
}

/// The echo of a ping's payload.
pub struct Pong {
    pub payload: i64,
}

impl DeepView for Pong {
    type V = i64;

    open spec fn deep_view(&self) -> i64 {
        self.payload.deep_view()
    }
}

/// The wire layout of the fields, in declaration order.
impl PacketData for Pong {
    open spec fn spec_read(bytes: Seq<u8>) -> ReadOutcome<i64> {
        <i64 as PacketData>::spec_read(bytes)
    }

    open spec fn spec_writable(v: i64) -> bool {
        <i64 as PacketData>::spec_writable(v)
    }

    open spec fn spec_write(v: i64) -> Seq<u8> {
        <i64 as PacketData>::spec_write(v)
    }

    proof fn lemma_roundtrip(v: i64, rest: Seq<u8>) {
        <i64 as PacketData>::lemma_roundtrip(v, rest);
    }

    fn read_checked(buf: &mut Reader) -> (r: Result<Pong, ReadError>) {
        match <i64 as PacketData>::read_checked(buf) {
            Ok(payload) => Ok(Pong { payload }),
            Err(e) => Err(e),
        }
    }

    fn write(&self, buf: &mut Vec<u8>) {
        self.payload.write(buf);
        assert(buf@ =~= old(buf)@ + Self::spec_write(self.deep_view()));
    }
}

impl Packet for Pong {
    const ID: i32 = 0x01;

    open spec fn spec_id() -> i32 {
        0x01
    }

    proof fn lemma_id() {
    }
}

} // verus!

verus! {

/// A status response is written as its response in that field's own
/// wire layout.
pub proof fn law_status_response_layout(p: StatusResponse)
    ensures
        <StatusResponse as PacketData>::spec_write(p.deep_view()) == <String as PacketData>::spec_write(p.response.deep_view()),
{
}

/// A status response is read as its response: where
/// the fields read so from the front of `bytes`, the packet read is the
/// packet of those fields.
pub proof fn law_status_response_read(p: StatusResponse, bytes: Seq<u8>, n1: nat)
    requires
        n1 <= bytes.len(),
        <String as PacketData>::spec_read(bytes) == ReadOutcome::Parsed(p.response.deep_view(), n1),
    ensures
        <StatusResponse as PacketData>::spec_read(bytes) == ReadOutcome::Parsed(p.deep_view(), n1),
{
}

/// A ping is written as its payload in that field's own
/// wire layout.
pub proof fn law_ping_layout(p: Ping)
    ensures
        <Ping as PacketData>::spec_write(p.deep_view()) == <i64 as PacketData>::spec_write(p.payload.deep_view()),
{
}

/// A ping is read as its payload: where
/// the fields read so from the front of `bytes`, the packet read is the
/// packet of those fields.
pub proof fn law_ping_read(p: Ping, bytes: Seq<u8>, n1: nat)
    requires
        n1 <= bytes.len(),
        <i64 as PacketData>::spec_read(bytes) == ReadOutcome::Parsed(p.payload.deep_view(), n1),
    ensures
        <Ping as PacketData>::spec_read(bytes) == ReadOutcome::Parsed(p.deep_view(), n1),
{
}

/// A pong is written as its payload in that field's own
/// wire layout.
pub proof fn law_pong_layout(p: Pong)
    ensures
        <Pong as PacketData>::spec_write(p.deep_view()) == <i64 as PacketData>::spec_write(p.payload.deep_view()),
{
}

/// A pong is read as its payload: where
/// the fields read so from the front of `bytes`, the packet read is the
/// packet of those fields.
pub proof fn law_pong_read(p: Pong, bytes: Seq<u8>, n1: nat)
    requires
        n1 <= bytes.len(),
        <i64 as PacketData>::spec_read(bytes) == ReadOutcome::Parsed(p.payload.deep_view(), n1),
    ensures
        <Pong as PacketData>::spec_read(bytes) == ReadOutcome::Parsed(p.deep_view(), n1),
{
}

} // verus!
