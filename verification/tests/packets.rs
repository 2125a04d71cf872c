use tcp_packet::authenticate;
use tcp_packet::packet::{self, Packet, PacketType};
use tcp_packet::ping::{self, Ping, PingType};
use tcp_packet::wire::WireError;

fn packet_of(packet_type: i32, value: &[u8]) -> Packet {
    Packet { packet_type, value: value.to_vec() }
}

#[test]
fn serialize_packet_with_both_fields() {
    let p = packet_of(1, &[1, 2, 3]);
    assert_eq!(packet::serialize(&p), vec![0x08, 0x01, 0x12, 0x03, 1, 2, 3]);
    assert_eq!(packet::encoded_len(&p), 7);
}

#[test]
fn serialize_default_packet_is_empty() {
    let p = Packet::new();
    assert_eq!(packet::serialize(&p), Vec::<u8>::new());
    assert_eq!(packet::encoded_len(&p), 0);
}

#[test]
fn serialize_negative_type_takes_ten_bytes() {
    let p = packet_of(-1, &[]);
    let bytes = packet::serialize(&p);
    assert_eq!(
        bytes,
        vec![0x08, 0xFF, 0xFF, 0xFF, 0xFF, 0xFF, 0xFF, 0xFF, 0xFF, 0xFF, 0x01]
    );
    assert_eq!(packet::encoded_len(&p), 11);
    let back = packet::deserialize(&bytes).unwrap();
    assert_eq!(back.packet_type, -1);
}

#[test]
fn serialize_long_value_uses_two_byte_length() {
    let value = vec![7u8; 200];
    let p = packet_of(0, &value);
    let bytes = packet::serialize(&p);
    assert_eq!(&bytes[..3], &[0x12, 0xC8, 0x01]);
    assert_eq!(bytes.len(), 203);
    assert_eq!(packet::encoded_len(&p), 203);
    let back = packet::deserialize(&bytes).unwrap();
    assert_eq!(back.value, value);
}

#[test]
fn packet_roundtrip_examples() {
    for (t, v) in [(0, vec![]), (1, vec![0u8]), (i32::MIN, vec![10, 13]), (i32::MAX, vec![0xFF; 3])] {
        let p = packet_of(t, &v);
        let back = packet::deserialize(&packet::serialize(&p)).unwrap();
        assert_eq!(back.packet_type, t);
        assert_eq!(back.value, v);
    }
}

#[test]
fn deserialize_empty_is_default() {
    let p = packet::deserialize(&[]).unwrap();
    assert_eq!(p.packet_type, 0);
    assert!(p.value.is_empty());
}

#[test]
fn deserialize_last_field_wins() {
    let p = packet::deserialize(&[0x08, 0x01, 0x08, 0x02, 0x12, 0x01, 9, 0x12, 0x00]).unwrap();
    assert_eq!(p.packet_type, 2);
    assert!(p.value.is_empty());
}

#[test]
fn deserialize_truncates_wide_int32() {
    // 2^32 + 5 keeps its low 32 bits.
    let p = packet::deserialize(&[0x08, 0x85, 0x80, 0x80, 0x80, 0x10]).unwrap();
    assert_eq!(p.packet_type, 5);
}

#[test]
fn deserialize_skips_unknown_fields() {
    let p = packet::deserialize(&[0x18, 0x05, 0x08, 0x01, 0x22, 0x02, 0xAA, 0xBB, 0x2D, 1, 2, 3, 4]).unwrap();
    assert_eq!(p.packet_type, 1);
    assert!(p.value.is_empty());
}

#[test]
fn deserialize_skips_unknown_group() {
    // field 3 as a group holding field 1 = 7, closed by its end-group key.
    let p = packet::deserialize(&[0x1B, 0x08, 0x07, 0x1C, 0x08, 0x03]).unwrap();
    assert_eq!(p.packet_type, 3);
}

#[test]
fn deserialize_errors() {
    assert_eq!(packet::deserialize(&[0x00]).unwrap_err(), WireError::InvalidKey);
    assert_eq!(packet::deserialize(&[0x0F]).unwrap_err(), WireError::InvalidKey);
    assert_eq!(packet::deserialize(&[0x80]).unwrap_err(), WireError::InvalidKey);
    assert_eq!(packet::deserialize(&[0x08]).unwrap_err(), WireError::InvalidVarint);
    assert_eq!(packet::deserialize(&[0x08, 0x80]).unwrap_err(), WireError::InvalidVarint);
    assert_eq!(packet::deserialize(&[0x0A, 0x00]).unwrap_err(), WireError::UnexpectedWireType);
    assert_eq!(packet::deserialize(&[0x10, 0x00]).unwrap_err(), WireError::UnexpectedWireType);
    assert_eq!(packet::deserialize(&[0x12, 0x05, 1]).unwrap_err(), WireError::BufferUnderflow);
    assert_eq!(packet::deserialize(&[0x12]).unwrap_err(), WireError::InvalidVarint);
    assert_eq!(packet::deserialize(&[0x1C]).unwrap_err(), WireError::InvalidField);
    assert_eq!(packet::deserialize(&[0x1A, 0x09, 0x00]).unwrap_err(), WireError::InvalidField);
}

#[test]
fn deserialize_rejects_eleven_byte_varint() {
    let bytes = [0x08, 0xFF, 0xFF, 0xFF, 0xFF, 0xFF, 0xFF, 0xFF, 0xFF, 0xFF, 0x02];
    assert_eq!(packet::deserialize(&bytes).unwrap_err(), WireError::InvalidVarint);
}

#[test]
fn packet_type_accessors() {
    let mut p = Packet::new();
    assert_eq!(p.packet_type(), PacketType::Ping);
    p.set_packet_type(PacketType::Authenticate);
    assert_eq!(p.packet_type, 1);
    assert_eq!(p.packet_type(), PacketType::Authenticate);
    p.packet_type = 42;
    assert_eq!(p.packet_type(), PacketType::Ping);
    assert_eq!(PacketType::from_i32(1), Some(PacketType::Authenticate));
    assert_eq!(PacketType::from_i32(7), None);
}

#[test]
fn create_wraps_message_as_bytes_value() {
    let p = packet::create(PacketType::Authenticate, vec![1, 2]);
    assert_eq!(p.packet_type, 1);
    assert_eq!(p.value, vec![0x0A, 0x02, 1, 2]);
    let empty = packet::create(PacketType::Ping, vec![]);
    assert_eq!(empty.packet_type, 0);
    assert!(empty.value.is_empty());
}

#[test]
fn ping_create_and_serialize() {
    let ping = ping::create(PingType::Ping);
    assert_eq!(ping.ping_type, 0);
    assert!(ping::serialize(&ping).is_empty());
    let pong = ping::create(PingType::Pong);
    assert_eq!(pong.ping_type, 1);
    assert_eq!(ping::serialize(&pong), vec![0x08, 0x01]);
}

#[test]
fn ping_roundtrip_examples() {
    for t in [0, 1, -7, i32::MAX] {
        let bytes = ping::serialize(&Ping { ping_type: t });
        assert_eq!(ping::deserialize(&bytes).unwrap(), Ping { ping_type: t });
    }
    assert_eq!(ping::deserialize(&[0x10, 0x01]).unwrap(), Ping { ping_type: 0 });
    assert_eq!(ping::deserialize(&[0x0A, 0x00]).unwrap_err(), WireError::UnexpectedWireType);
}

#[test]
fn create_packet_wraps_the_ping() {
    let p = ping::create_packet(PingType::Pong);
    assert_eq!(p.packet_type, 0);
    assert_eq!(p.value, vec![0x0A, 0x02, 0x08, 0x01]);
    let q = ping::create_packet(PingType::Ping);
    assert!(q.value.is_empty());
    assert!(packet::serialize(&q).is_empty());
}

#[test]
fn authenticate_create_and_deserialize() {
    let a = authenticate::create(String::from("token"));
    assert_eq!(a.public_token, "token");
    let b = authenticate::deserialize(&[0x0A, 0x03, b'a', b'b', b'c']).unwrap();
    assert_eq!(b.public_token, "abc");
    let c = authenticate::deserialize(&[0x0A, 0x02, 0xC3, 0xA9]).unwrap();
    assert_eq!(c.public_token, "\u{e9}");
    let d = authenticate::deserialize(&[]).unwrap();
    assert_eq!(d.public_token, "");
}

#[test]
fn authenticate_errors() {
    assert_eq!(authenticate::deserialize(&[0x0A, 0x01, 0xFF]).unwrap_err(), WireError::InvalidString);
    assert_eq!(authenticate::deserialize(&[0x08, 0x01]).unwrap_err(), WireError::UnexpectedWireType);
    assert_eq!(authenticate::deserialize(&[0x0A, 0x04, b'a']).unwrap_err(), WireError::BufferUnderflow);
}

#[test]
fn defaults() {
    let p = Packet::default();
    assert_eq!(p.packet_type, 0);
    assert!(p.value.is_empty());
    assert_eq!(Ping::default(), Ping { ping_type: 0 });
    assert_eq!(authenticate::Authenticate::default().public_token, "");
}

#[test]
fn ping_type_accessors() {
    let mut p = Ping::default();
    assert_eq!(p.ping_type(), PingType::Ping);
    p.set_ping_type(PingType::Pong);
    assert_eq!(p.ping_type, 1);
    assert_eq!(p.ping_type(), PingType::Pong);
    p.ping_type = -3;
    assert_eq!(p.ping_type(), PingType::Ping);
    assert_eq!(PingType::from_i32(1), Some(PingType::Pong));
    assert_eq!(PingType::from_i32(2), None);
}

#[test]
fn skipping_unknown_fields_checks_lengths() {
    assert_eq!(packet::deserialize(&[0x19, 1, 2, 3]).unwrap_err(), WireError::InvalidField);
    assert_eq!(packet::deserialize(&[0x1D, 1, 2, 3]).unwrap_err(), WireError::InvalidField);
    assert_eq!(packet::deserialize(&[0x18, 0x80]).unwrap_err(), WireError::InvalidField);
    let p = packet::deserialize(&[0x19, 1, 2, 3, 4, 5, 6, 7, 8, 0x08, 0x04]).unwrap();
    assert_eq!(p.packet_type, 4);
    assert_eq!(packet::deserialize(&[0x1B, 0x24]).unwrap_err(), WireError::InvalidField);
}
