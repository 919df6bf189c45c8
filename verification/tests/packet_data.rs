use tunneller::ext::{MinecraftReadExt, MinecraftWriteExt, ReadError, Reader};
use tunneller::protocol::handshake::Handshake;
use tunneller::protocol::login::{
    Disconnect, EncryptionRequest, EncryptionResponse, LoginStart, LoginSuccess, SetCompression,
};
use tunneller::protocol::play::{ChatRequest, ChatResponse, JoinGame, KeepAlive};
use tunneller::protocol::status::{Ping, Pong, StatusRequest, StatusResponse};
use tunneller::protocol::{Packet, PacketData, State, VarInt};

fn bytes_of<T: PacketData>(v: &T) -> Vec<u8> {
    let mut out = Vec::new();
    v.write(&mut out);
    out
}

fn read_all<T: PacketData>(bytes: &[u8]) -> (Result<T, ReadError>, usize) {
    let mut r = Reader::new(bytes);
    let v = T::read_checked(&mut r);
    (v, r.remaining().len())
}

#[test]
fn i16_is_big_endian() {
    assert_eq!(bytes_of(&0x1234i16), vec![0x12, 0x34]);
    assert_eq!(bytes_of(&-2i16), vec![0xff, 0xfe]);
    assert_eq!(read_all::<i16>(&[0xff, 0xfe, 0x01]).0.unwrap(), -2);
    assert_eq!(read_all::<i16>(&[0x63, 0xdd]).0.unwrap(), 25565);
}

#[test]
fn i32_is_big_endian() {
    assert_eq!(bytes_of(&0x0102_0304i32), vec![1, 2, 3, 4]);
    assert_eq!(read_all::<i32>(&[0x80, 0, 0, 0]).0.unwrap(), i32::MIN);
    assert_eq!(read_all::<i32>(&[0, 0, 0x01, 0x00]).0.unwrap(), 256);
}

#[test]
fn i64_is_big_endian() {
    assert_eq!(bytes_of(&0x0102_0304_0506_0708i64), vec![1, 2, 3, 4, 5, 6, 7, 8]);
    assert_eq!(read_all::<i64>(&[0xff; 8]).0.unwrap(), -1);
}

#[test]
fn u64_reads_the_bits_of_an_i64() {
    assert_eq!(bytes_of(&u64::MAX), vec![0xff; 8]);
    assert_eq!(read_all::<u64>(&[0xff; 8]).0.unwrap(), u64::MAX);
    assert_eq!(read_all::<u64>(&[0, 0, 0, 0, 0, 0, 1, 0]).0.unwrap(), 256);
}

#[test]
fn short_input_is_unexpected_eof() {
    let (r, left) = read_all::<i32>(&[1, 2, 3]);
    assert_eq!(r.err(), Some(ReadError::UnexpectedEof));
    assert_eq!(left, 0);
    assert_eq!(read_all::<i64>(&[1]).0.err(), Some(ReadError::UnexpectedEof));
    assert_eq!(read_all::<u8>(&[]).0.err(), Some(ReadError::UnexpectedEof));
    assert_eq!(read_all::<bool>(&[]).0.err(), Some(ReadError::UnexpectedEof));
    assert_eq!(read_all::<VarInt>(&[0x80]).0.err(), Some(ReadError::UnexpectedEof));
}

#[test]
fn bool_reads_true_only_for_one() {
    assert_eq!(bytes_of(&true), vec![1]);
    assert_eq!(bytes_of(&false), vec![0]);
    assert_eq!(read_all::<bool>(&[1]).0.unwrap(), true);
    assert_eq!(read_all::<bool>(&[0]).0.unwrap(), false);
    assert_eq!(read_all::<bool>(&[2]).0.unwrap(), false);
}

#[test]
fn u8_is_one_byte() {
    assert_eq!(bytes_of(&0xabu8), vec![0xab]);
    let (v, left) = read_all::<u8>(&[7, 8]);
    assert_eq!((v.unwrap(), left), (7, 1));
}

#[test]
fn string_is_length_prefixed_utf8() {
    assert_eq!(bytes_of(&String::from("abc")), vec![3, b'a', b'b', b'c']);
    assert_eq!(bytes_of(&String::from("é")), vec![2, 0xc3, 0xa9]);
    assert_eq!(bytes_of(&String::new()), vec![0]);
    let (s, left) = read_all::<String>(&[2, 0xc3, 0xa9, 9]);
    assert_eq!(s.unwrap(), "é");
    assert_eq!(left, 1);
}

#[test]
fn string_roundtrip() {
    for s in ["", "localhost", "héllo wörld ✓", "a\0b"] {
        let owned = String::from(s);
        let bytes = bytes_of(&owned);
        let (back, left) = read_all::<String>(&bytes);
        assert_eq!(back.unwrap(), s);
        assert_eq!(left, 0);
    }
}

#[test]
fn string_replaces_invalid_utf8() {
    let (s, _) = read_all::<String>(&[3, b'a', 0xff, b'b']);
    assert_eq!(s.unwrap(), "a\u{fffd}b");
}

#[test]
fn string_failures_are_malformed() {
    assert_eq!(read_all::<String>(&[5, b'a']).0.err(), Some(ReadError::Malformed));
    assert_eq!(read_all::<String>(&[]).0.err(), Some(ReadError::Malformed));
    assert_eq!(read_all::<String>(&[0xff, 0xff, 0xff, 0xff, 0x0f]).0.err(), Some(ReadError::Malformed));
}

#[test]
fn read_bytes_and_read_string_with_limit() {
    let bytes = [3u8, 1, 2, 3, 4];
    let mut r = Reader::new(&bytes);
    assert_eq!(r.read_bytes(10).unwrap(), vec![1, 2, 3]);
    assert_eq!(r.remaining(), &[4]);
    let text = [2u8, b'h', b'i'];
    let mut r = Reader::new(&text);
    assert_eq!(r.read_string(2).unwrap(), "hi");
    assert_eq!(tunneller::ext::payload_length(3, 2), None);
    assert_eq!(tunneller::ext::payload_length(-1, 10), None);
    assert_eq!(tunneller::ext::payload_length(2, 2), Some(2));
    let mut r = Reader::new(&text);
    assert_eq!(tunneller::ext::read_prefixed(&mut r, 1).err(), Some(ReadError::Malformed));
}

#[test]
fn write_bytes_and_write_string() {
    let mut out = Vec::new();
    out.write_bytes(&[9, 8, 7]);
    out.write_string("ok");
    assert_eq!(out, vec![3, 9, 8, 7, 2, b'o', b'k']);
}

#[test]
fn varint_field() {
    assert_eq!(bytes_of(&VarInt(300)), vec![0xac, 0x02]);
    assert_eq!(read_all::<VarInt>(&[0xac, 0x02]).0.unwrap().0, 300);
    let v: VarInt = 7.into();
    assert_eq!(*v, 7);
}

#[test]
fn vec_is_count_then_elements() {
    let v: Vec<u8> = vec![1, 2, 3];
    assert_eq!(bytes_of(&v), vec![3, 1, 2, 3]);
    let strings = vec![String::from("a"), String::from("bc")];
    assert_eq!(bytes_of(&strings), vec![2, 1, b'a', 2, b'b', b'c']);
    let (back, left) = read_all::<Vec<String>>(&[2, 1, b'a', 2, b'b', b'c', 0]);
    assert_eq!(back.unwrap(), strings);
    assert_eq!(left, 1);
    let (empty, _) = read_all::<Vec<i16>>(&[0]);
    assert!(empty.unwrap().is_empty());
}

#[test]
fn vec_failures() {
    assert_eq!(read_all::<Vec<u8>>(&[0xff, 0xff, 0xff, 0xff, 0x0f]).0.err(), Some(ReadError::Malformed));
    assert_eq!(read_all::<Vec<u8>>(&[3, 1]).0.err(), Some(ReadError::UnexpectedEof));
    assert_eq!(read_all::<Vec<u8>>(&[]).0.err(), Some(ReadError::UnexpectedEof));
    assert_eq!(read_all::<Vec<String>>(&[1, 4, b'x']).0.err(), Some(ReadError::Malformed));
}

#[test]
fn state_codes_and_names() {
    let states = [State::Handshaking, State::Status, State::Login, State::Play];
    let names = ["HANDSHAKE", "STATUS", "LOGIN", "PLAY"];
    for (i, s) in states.iter().enumerate() {
        assert_eq!(bytes_of(s), vec![i as u8]);
        let back = read_all::<State>(&[i as u8]).0.unwrap();
        assert_eq!(back.to_string(), names[i]);
        assert_eq!(s.to_string(), names[i]);
    }
    assert_eq!(read_all::<State>(&[4]).0.err(), Some(ReadError::Malformed));
    assert_eq!(read_all::<State>(&[]).0.err(), Some(ReadError::UnexpectedEof));
}

#[test]
fn read_refuses_nothing_it_accepts() {
    let mut r = Reader::new(&[0x02]);
    assert!(matches!(State::read(&mut r), Ok(State::Login)));
    let mut r = Reader::new(&[0x00, 0x01]);
    assert_eq!(i32::read(&mut r).err(), Some(ReadError::UnexpectedEof));
}

#[test]
fn handshake_layout_and_roundtrip() {
    let h = Handshake {
        protocol: VarInt(340),
        address: String::from("mc.example"),
        port: 25565,
        next_state: State::Login,
    };
    let bytes = bytes_of(&h);
    let mut expected = vec![0xd4, 0x02, 10];
    expected.extend_from_slice(b"mc.example");
    expected.extend_from_slice(&[0x63, 0xdd, 0x02]);
    assert_eq!(bytes, expected);
    let (back, left) = read_all::<Handshake>(&bytes);
    let back = back.unwrap();
    assert_eq!(left, 0);
    assert_eq!(back.protocol.0, 340);
    assert_eq!(back.address, "mc.example");
    assert_eq!(back.port, 25565);
    assert!(matches!(back.next_state, State::Login));
    assert_eq!(<Handshake as Packet>::ID, 0);
}

#[test]
fn login_packets_roundtrip() {
    let s = LoginSuccess { uuid: String::from("u-1"), username: String::from("steve") };
    let back = read_all::<LoginSuccess>(&bytes_of(&s)).0.unwrap();
    assert_eq!((back.uuid.as_str(), back.username.as_str()), ("u-1", "steve"));
    let e = EncryptionRequest { server_id: String::new(), public: vec![1, 2], verify_token: vec![3] };
    assert_eq!(bytes_of(&e), vec![0, 2, 1, 2, 1, 3]);
    let back = read_all::<EncryptionRequest>(&bytes_of(&e)).0.unwrap();
    assert_eq!((back.public, back.verify_token), (vec![1, 2], vec![3]));
    let r = EncryptionResponse { shared_secret: vec![5; 3], verify_token: vec![] };
    let back = read_all::<EncryptionResponse>(&bytes_of(&r)).0.unwrap();
    assert_eq!(back.shared_secret, vec![5; 3]);
    assert_eq!(bytes_of(&SetCompression { threshold: VarInt(256) }), vec![0x80, 0x02]);
    assert_eq!(bytes_of(&LoginStart { name: String::from("x") }), vec![1, b'x']);
    assert_eq!(read_all::<Disconnect>(&[2, b'n', b'o']).0.unwrap().reason, "no");
    assert_eq!(
        (<LoginStart as Packet>::ID, <Disconnect as Packet>::ID, <SetCompression as Packet>::ID,
         <LoginSuccess as Packet>::ID, <EncryptionResponse as Packet>::ID, <EncryptionRequest as Packet>::ID),
        (0, 0, 3, 2, 1, 1)
    );
}

#[test]
fn play_packets_roundtrip() {
    let j = JoinGame {
        entity_id: 7,
        game_mode: 1,
        dimension: -1,
        difficulty: 2,
        max_players: 20,
        level_type: String::from("flat"),
        reduced_debug_info: true,
    };
    let bytes = bytes_of(&j);
    assert_eq!(
        bytes,
        vec![0, 0, 0, 7, 1, 0xff, 0xff, 0xff, 0xff, 2, 20, 4, b'f', b'l', b'a', b't', 1]
    );
    let back = read_all::<JoinGame>(&bytes).0.unwrap();
    assert_eq!((back.entity_id, back.dimension, back.max_players), (7, -1, 20));
    assert_eq!(back.level_type, "flat");
    assert!(back.reduced_debug_info);
    let c = ChatResponse { message: String::from("hi"), position: 1 };
    assert_eq!(bytes_of(&c), vec![2, b'h', b'i', 1]);
    assert_eq!(read_all::<ChatRequest>(&[1, b'q']).0.unwrap().message, "q");
    assert_eq!(read_all::<KeepAlive>(&bytes_of(&KeepAlive { random_id: -5 })).0.unwrap().random_id, -5);
    assert_eq!(
        (<JoinGame as Packet>::ID, <ChatRequest as Packet>::ID, <ChatResponse as Packet>::ID, <KeepAlive as Packet>::ID),
        (0x23, 0x02, 0x0f, 0x21)
    );
}

#[test]
fn status_packets() {
    let (req, left) = read_all::<StatusRequest>(&[1, 2]);
    assert!(req.is_ok());
    assert_eq!(left, 2);
    let ping = Ping { payload: 0x0102_0304_0506_0708 };
    assert_eq!(bytes_of(&ping), vec![1, 2, 3, 4, 5, 6, 7, 8]);
    assert_eq!(read_all::<Pong>(&bytes_of(&ping)).0.unwrap().payload, 0x0102_0304_0506_0708);
    let resp = StatusResponse { response: String::from("{}") };
    assert_eq!(bytes_of(&resp), vec![2, b'{', b'}']);
    assert_eq!(
        (<StatusRequest as Packet>::ID, <StatusResponse as Packet>::ID, <Ping as Packet>::ID, <Pong as Packet>::ID),
        (0, 0, 1, 1)
    );
}

#[test]
fn tuple_fields_fail_at_the_first_failing_field() {
    assert_eq!(read_all::<(u8, i16)>(&[1, 2]).0.err(), Some(ReadError::UnexpectedEof));
    assert_eq!(read_all::<(String, u8)>(&[3, b'a']).0.err(), Some(ReadError::Malformed));
}
