use tunneller::ext::{MinecraftReadExt, MinecraftWriteExt, ReadError, Reader};
use tunneller::varint::{varint_size, Varint21};

fn encode(v: i32) -> Vec<u8> {
    let mut out = Vec::new();
    out.write_varint(v);
    out
}

#[test]
fn varint_size_at_group_boundaries() {
    assert_eq!(varint_size(0), 1);
    assert_eq!(varint_size(127), 1);
    assert_eq!(varint_size(128), 2);
    assert_eq!(varint_size(16383), 2);
    assert_eq!(varint_size(16384), 3);
    assert_eq!(varint_size(2097151), 3);
    assert_eq!(varint_size(2097152), 4);
    assert_eq!(varint_size(268435455), 4);
    assert_eq!(varint_size(268435456), 5);
    assert_eq!(varint_size(i32::MAX), 5);
}

#[test]
fn write_varint_known_encodings() {
    assert_eq!(encode(0), vec![0x00]);
    assert_eq!(encode(1), vec![0x01]);
    assert_eq!(encode(127), vec![0x7f]);
    assert_eq!(encode(128), vec![0x80, 0x01]);
    assert_eq!(encode(300), vec![0xac, 0x02]);
    assert_eq!(encode(25565), vec![0xdd, 0xc7, 0x01]);
    assert_eq!(encode(2097151), vec![0xff, 0xff, 0x7f]);
    assert_eq!(encode(i32::MAX), vec![0xff, 0xff, 0xff, 0xff, 0x07]);
}

#[test]
fn write_varint_appends_to_what_is_there() {
    let mut out = vec![9u8, 8];
    out.write_varint(300);
    assert_eq!(out, vec![9, 8, 0xac, 0x02]);
}

#[test]
fn encoding_length_is_varint_size() {
    for v in [0, 1, 127, 128, 255, 300, 16383, 16384, 1 << 20, 1 << 21, 1 << 27, 1 << 28, i32::MAX] {
        assert_eq!(encode(v).len(), varint_size(v));
    }
}

#[test]
fn read_varint_gives_value_size_and_rest() {
    let bytes = [0xac, 0x02, 0x99];
    let mut r = Reader::new(&bytes);
    let v = r.read_varint().unwrap();
    assert_eq!(v.ans, 300);
    assert_eq!(v.size, 2);
    assert_eq!(r.remaining(), &[0x99]);
}

#[test]
fn read_varint_roundtrip() {
    for v in [0, 1, 127, 128, 300, 25565, 16384, 2097152, 268435456, i32::MAX] {
        let mut bytes = encode(v);
        bytes.push(0x55);
        let mut r = Reader::new(&bytes);
        let got = r.read_varint().unwrap();
        assert_eq!(got.ans, v);
        assert_eq!(got.size as usize, varint_size(v));
        assert_eq!(r.remaining(), &[0x55]);
    }
}

#[test]
fn read_varint_negative_five_bytes() {
    let bytes = [0xff, 0xff, 0xff, 0xff, 0x0f];
    let mut r = Reader::new(&bytes);
    let v = r.read_varint().unwrap();
    assert_eq!(v.ans, -1);
    assert_eq!(v.size, 5);
}

#[test]
fn read_varint_stops_after_five_bytes() {
    let bytes = [0x80, 0x80, 0x80, 0x80, 0x80, 0x01];
    let mut r = Reader::new(&bytes);
    let v = r.read_varint().unwrap();
    assert_eq!(v.ans, 0);
    assert_eq!(v.size, 5);
    assert_eq!(r.remaining(), &[0x01]);
}

#[test]
fn read_varint_drops_bits_past_thirty_two() {
    let bytes = [0x80, 0x80, 0x80, 0x80, 0x7f];
    let mut r = Reader::new(&bytes);
    assert_eq!(r.read_varint().unwrap().ans, 0xf000_0000u32 as i32);
}

#[test]
fn read_varint_eof_consumes_everything() {
    let bytes = [0x80, 0x81];
    let mut r = Reader::new(&bytes);
    assert_eq!(r.read_varint().err(), Some(ReadError::UnexpectedEof));
    assert!(r.remaining().is_empty());
    let mut empty = Reader::new(&[]);
    assert_eq!(empty.read_varint().err(), Some(ReadError::UnexpectedEof));
}

#[test]
fn varint21_read_matches_read_varint() {
    let bytes = [0xdd, 0xc7, 0x01];
    let mut r = Reader::new(&bytes);
    let v = Varint21::read(&mut r).unwrap();
    assert_eq!((v.ans, v.size), (25565, 3));
}

#[test]
fn varint21_feed_step_by_step() {
    let st = Varint21::start();
    assert_eq!((st.ans, st.size), (0, 0));
    let (st, done) = st.feed(0xac);
    assert!(!done);
    assert_eq!((st.ans, st.size), (0x2c, 1));
    let (st, done) = st.feed(0x02);
    assert!(done);
    assert_eq!((st.ans, st.size), (300, 2));
}

#[test]
fn varint21_feed_completes_at_fifth_byte() {
    let mut st = Varint21::start();
    let mut done = false;
    for _ in 0..5 {
        let (next, d) = st.feed(0xff);
        st = next;
        done = d;
    }
    assert!(done);
    assert_eq!(st.size, 5);
    assert_eq!(st.ans, -1);
}
