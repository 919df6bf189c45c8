use tunneller::ext::{
    ensure_capacity, frame_body_length, read_packet, read_packet_checked, write_packet, write_packet_fn,
    MinecraftPacket, ReadError, Reader,
};
use tunneller::protocol::handshake::Handshake;
use tunneller::protocol::play::KeepAlive;
use tunneller::protocol::status::Ping;
use tunneller::protocol::{State, VarInt};
use tunneller::varint::Varint21;

#[test]
fn write_packet_fn_frames_id_and_data() {
    let mut out = Vec::new();
    write_packet_fn(&mut out, 0x21, &[1, 2]);
    assert_eq!(out, vec![3, 0x21, 1, 2]);
    let mut out = Vec::new();
    write_packet_fn(&mut out, 300, &[]);
    assert_eq!(out, vec![2, 0xac, 0x02]);
}

#[test]
fn minecraft_packet_write_matches_write_packet_fn() {
    let data = [9u8; 130];
    let mut a = Vec::new();
    MinecraftPacket { packet_id: 5, data: &data }.write(&mut a);
    let mut b = Vec::new();
    write_packet_fn(&mut b, 5, &data);
    assert_eq!(a, b);
    assert_eq!(&a[..3], &[0x83, 0x01, 5]);
}

#[test]
fn write_packet_uses_the_packet_id() {
    let mut out = Vec::new();
    write_packet(&mut out, &KeepAlive { random_id: 0x0102 });
    assert_eq!(out, vec![3, 0x21, 0x01, 0x02]);
}

#[test]
fn ping_frame_bytes() {
    let mut out = Vec::new();
    write_packet(&mut out, &Ping { payload: 1 });
    assert_eq!(out, vec![0x09, 0x01, 0, 0, 0, 0, 0, 0, 0, 1]);
}

#[test]
fn packet_roundtrip_through_frame() {
    let h = Handshake {
        protocol: VarInt(47),
        address: String::from("a\0b\0c\0[]"),
        port: 25565,
        next_state: State::Status,
    };
    let mut out = Vec::new();
    write_packet(&mut out, &h);
    out.push(0xee);
    let mut r = Reader::new(&out);
    let mut p = read_packet(&mut r).unwrap();
    assert_eq!(p.packet_id, 0);
    assert_eq!(r.remaining(), &[0xee]);
    let back: Handshake = p.decode().unwrap();
    assert_eq!(back.address, "a\0b\0c\0[]");
    assert_eq!(back.port, 25565);
    assert!(p.data.is_empty());
}

#[test]
fn read_packet_errors() {
    let mut r = Reader::new(&[0x00, 0x00]);
    assert_eq!(read_packet_checked(&mut r).err(), Some(ReadError::Malformed));
    let mut r = Reader::new(&[0x02, 0xff, 0xff, 0xff, 0xff, 0x0f]);
    assert_eq!(read_packet_checked(&mut r).err(), Some(ReadError::Malformed));
    let mut r = Reader::new(&[0x01, 0x80, 0x01]);
    assert_eq!(read_packet_checked(&mut r).err(), Some(ReadError::Malformed));
    let mut r = Reader::new(&[0x05, 0x01, 0x02]);
    assert_eq!(read_packet(&mut r).err(), Some(ReadError::UnexpectedEof));
    assert!(r.remaining().is_empty());
    let mut r = Reader::new(&[]);
    assert_eq!(read_packet(&mut r).err(), Some(ReadError::UnexpectedEof));
}

#[test]
fn read_packet_checked_agrees_on_good_frames() {
    let bytes = [0x03, 0x01, 0xaa, 0xbb, 0x07];
    let mut a = Reader::new(&bytes);
    let mut b = Reader::new(&bytes);
    let pa = read_packet(&mut a).unwrap();
    let pb = read_packet_checked(&mut b).unwrap();
    assert_eq!(pa.packet_id, 1);
    assert_eq!(pa.data, &[0xaa, 0xbb]);
    assert_eq!(pb.packet_id, pa.packet_id);
    assert_eq!(pb.data, pa.data);
    assert_eq!(a.remaining(), &[0x07]);
    assert_eq!(b.remaining(), &[0x07]);
}

#[test]
fn frame_body_length_decisions() {
    let id = Varint21 { ans: 5, size: 1 };
    assert_eq!(frame_body_length(3, &id), Some(2));
    assert_eq!(frame_body_length(1, &id), Some(0));
    assert_eq!(frame_body_length(0, &id), None);
    assert_eq!(frame_body_length(3, &Varint21 { ans: -1, size: 5 }), None);
    assert_eq!(frame_body_length(1, &Varint21 { ans: 300, size: 2 }), None);
}

#[test]
fn ensure_capacity_grows_with_zeros() {
    let mut v = vec![1u8, 2];
    ensure_capacity(&mut v, 5);
    assert!(v.len() >= 5);
    assert_eq!(v.len(), v.capacity());
    assert_eq!(&v[..2], &[1, 2]);
    assert!(v[2..].iter().all(|b| *b == 0));
    let before = v.clone();
    ensure_capacity(&mut v, 3);
    assert_eq!(v, before);
}

#[test]
fn ensure_capacity_leaves_spare_capacity_alone() {
    let mut v: Vec<u8> = Vec::with_capacity(16);
    v.push(7);
    ensure_capacity(&mut v, 10);
    assert_eq!(v, vec![7]);
}
