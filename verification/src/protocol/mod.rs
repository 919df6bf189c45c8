//! The packets of the Minecraft protocol that the tunneller reads and writes,
//! and the protocol states a connection passes through.

pub mod handshake;
pub mod login;
pub mod packet;
pub mod play;
pub mod status;

use vstd::prelude::*;
use crate::ext::{MinecraftReadExt, MinecraftWriteExt, ReadError, ReadOutcome, Reader};
use crate::varint;

pub use packet::{Packet, PacketData, VarInt};

verus! {

/// The state a connection is in; the handshake names the state it moves to.
#[derive(Debug, Clone, Copy)]
pub enum State {
    Handshaking,
    Status,
    Login,
    Play,
}

impl DeepView for State {
    type V = State;

    open spec fn deep_view(&self) -> State {
        *self
    }
}

/// The number that stands for a state on the wire.
pub open spec fn state_code(s: State) -> i32 {
    match s {
        State::Handshaking => 0,
        State::Status => 1,
        State::Login => 2,
        State::Play => 3,
    }
}

/// The name a state is displayed by.
pub open spec fn state_name(s: State) -> Seq<char> {
    match s {
        State::Handshaking => "HANDSHAKE"@,
        State::Status => "STATUS"@,
        State::Login => "LOGIN"@,
        State::Play => "PLAY"@,
    }
}

impl State {
    /// The name the state is displayed by.
    pub fn to_string(&self) -> (s: String)
        ensures
            s@ == state_name(*self),
    {
        match self {
            State::Handshaking => "HANDSHAKE".to_owned(),
            State::Status => "STATUS".to_owned(),
            State::Login => "LOGIN".to_owned(),
            State::Play => "PLAY".to_owned(),
        }
    }
}

/// A state is a VarInt from 0 to 3; any other value fails hard (`Malformed`).
impl PacketData for State {
    open spec fn spec_read(bytes: Seq<u8>) -> ReadOutcome<State> {
        match varint::varint_decode(bytes) {
            None => ReadOutcome::Eof,
            Some((v, n)) => if v == 0 {
                ReadOutcome::Parsed(State::Handshaking, n)
            } else if v == 1 {
                ReadOutcome::Parsed(State::Status, n)
            } else if v == 2 {
                ReadOutcome::Parsed(State::Login, n)
            } else if v == 3 {
                ReadOutcome::Parsed(State::Play, n)
            } else {
                ReadOutcome::Fault
            },
        }
    }

    open spec fn spec_writable(v: State) -> bool {
        true
    }

    open spec fn spec_write(v: State) -> Seq<u8> {
        varint::varint_bytes(state_code(v))
    }

    proof fn lemma_roundtrip(v: State, rest: Seq<u8>) {
        varint::lemma_varint_roundtrip(state_code(v), rest);
    }

    fn read_checked(buf: &mut Reader) -> (r: Result<State, ReadError>) {
        proof {
            varint::lemma_span_bounds(buf@, 0);
        }
        let v = match buf.read_varint() {
            Ok(v) => v,
            Err(e) => {
                return Err(e);
            },
        };
        match v.ans {
            0 => Ok(State::Handshaking),
            1 => Ok(State::Status),
            2 => Ok(State::Login),
            3 => Ok(State::Play),
            _ => Err(ReadError::Malformed),
        }
    }

    fn write(&self, buf: &mut Vec<u8>) {
        buf.write_varint(
            match self {
                State::Handshaking => 0,
                State::Status => 1,
                State::Login => 2,
                State::Play => 3,
            },
        );
    }
}

} // verus!
