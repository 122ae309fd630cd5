use nox_relay::client::user::User;
use nox_relay::instance::World;
use nox_relay::text::{blank, build_ws_url, player_name, str_eq, to_decimal};
use nox_relay::wire::{PacketReader, PacketWriter};

#[test]
fn writer_then_reader_round_trip() {
    let mut w = PacketWriter::new();
    w.write_u8(7);
    w.write_u16(0x1234);
    w.write_u32(0xDEADBEEF);
    w.write_u64(0x0102030405060708);
    w.write_i32(-5);
    w.write_i64(-1);
    w.write_string("héllo");
    let bytes = w.finish();
    let mut r = PacketReader::new(bytes);
    assert_eq!(r.read_u8(), 7);
    assert_eq!(r.read_u16(), 0x1234);
    assert_eq!(r.read_u32(), 0xDEADBEEF);
    assert_eq!(r.read_u64(), 0x0102030405060708);
    assert_eq!(r.read_i32(), -5);
    assert_eq!(r.read_i64(), -1);
    assert_eq!(r.read_string(), Some("héllo".to_string()));
    assert_eq!(r.remaining(), 0);
}

#[test]
fn writer_is_little_endian() {
    let mut w = PacketWriter::new();
    w.write_u16(0x0102);
    w.write_u32(0x03040506);
    w.write_string("ab");
    assert_eq!(w.finish(), vec![0x02, 0x01, 0x06, 0x05, 0x04, 0x03, 2, 0, b'a', b'b']);
}

#[test]
fn short_reads_give_zero_and_end() {
    let mut r = PacketReader::new(vec![1]);
    assert_eq!(r.read_u16(), 0);
    assert_eq!(r.remaining(), 0);
    assert_eq!(r.read_u8(), 0);
    let mut r = PacketReader::new(vec![5, 0, b'a']);
    assert_eq!(r.read_string(), None);
    assert_eq!(r.remaining(), 0);
}

#[test]
fn invalid_utf8_string_reads_none() {
    let mut r = PacketReader::new(vec![2, 0, 0xFF, 0xFE, 9]);
    assert_eq!(r.read_string(), None);
    assert_eq!(r.read_u8(), 9);
}

#[test]
fn ws_url_from_gateway() {
    assert_eq!(build_ws_url("https://node.example.com/"), "wss://node.example.com/api/ws");
    assert_eq!(build_ws_url("http://127.0.0.1:3042"), "ws://127.0.0.1:3042/api/ws");
    assert_eq!(build_ws_url("node.example.com//"), "ws://node.example.com/api/ws");
}

#[test]
fn identifiers() {
    let u = User { id: 1, username: "h".to_string(), display_name: "H".to_string(), address: "hactazia.fr".to_string() };
    assert_eq!(u.to_identifier(), "1@hactazia.fr");
    assert!(u.is_valid());
    let w = World::new(42, "nox.example.com".to_string(), 3);
    assert_eq!(w.to_identifier(), "42?v=3@nox.example.com");
}

#[test]
fn text_helpers() {
    assert_eq!(to_decimal(0), "0");
    assert_eq!(to_decimal(1234567), "1234567");
    assert_eq!(player_name(12), "Player 12");
    assert!(blank(" \t\u{3000}"));
    assert!(!blank(" x "));
    assert!(str_eq("abc", "abc"));
    assert!(!str_eq("abc", "abd"));
}
