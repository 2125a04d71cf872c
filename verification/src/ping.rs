//! The `Ping` message.

use vstd::prelude::*;
use crate::packet::{bytes_message, create as create_packet_of, Packet, PacketType};
use crate::wire::{
    decode_key, field_key, int32_field, int32_wire_value, lemma_decode_key_len,
    lemma_int32_payload_roundtrip, lemma_key_roundtrip, lemma_payload_len, payload,
    put_int32_field, read_payload, take_key, varint_bytes, FieldKind, FieldPayload, PayloadModel,
    WireError, WireType, small_field_keys, lemma_int32_roundtrip, lemma_varint_len, lemma_varint_bound_top,
};

verus! {

/// Direction of a ping.
#[derive(Debug, Clone, Copy, PartialEq, Eq, Structural)]
pub enum PingType {
    Ping,
    Pong,
}

impl PingType {
    /// The number that stands for the ping type on the wire.
    pub open spec fn number(self) -> i32 {
        match self {
            PingType::Ping => 0,
            PingType::Pong => 1,
        }
    }

    /// The number that stands for the ping type on the wire.
    pub fn as_i32(self) -> (n: i32)
        ensures
            n == self.number(),
    {
        match self {
            PingType::Ping => 0,
            PingType::Pong => 1,
        }
    }
}

impl PingType {
    /// The ping type numbered `n`, if there is one.
    pub open spec fn spec_from_i32(n: i32) -> Option<PingType> {
        if n == 0 {
            Some(PingType::Ping)
        } else if n == 1 {
            Some(PingType::Pong)
        } else {
            None
        }
    }

    /// The ping type numbered `n`, if there is one.
    pub fn from_i32(n: i32) -> (t: Option<PingType>)
        ensures
            t == Self::spec_from_i32(n),
    {
        if n == 0 {
            Some(PingType::Ping)
        } else if n == 1 {
            Some(PingType::Pong)
        } else {
            None
        }
    }
}

/// A ping message: the number of its ping type.
#[derive(Debug, Clone, Copy, PartialEq, Eq, Structural)]
pub struct Ping {
    pub ping_type: i32,
}

impl Ping {
    /// The ping's type; a number that names no type reads as the default,
    /// `Ping`.
    pub fn ping_type(&self) -> (t: PingType)
        ensures
            t == (match PingType::spec_from_i32(self.ping_type) {
                Some(t) => t,
                None => PingType::Ping,
            }),
    {
        match PingType::from_i32(self.ping_type) {
            Some(t) => t,
            None => PingType::Ping,
        }
    }

    /// Sets the ping's type.
    pub fn set_ping_type(&mut self, t: PingType)
        ensures
            final(self).ping_type == t.number(),
    {
        self.ping_type = t.as_i32();
    }
}

impl Default for Ping {
    /// The ping with type number 0.
    fn default() -> (p: Ping)
        ensures
            p.ping_type == 0,
    {
        Ping { ping_type: 0 }
    }
}

/// Wire form of a ping: field 1 holds the type unless it is 0.
pub open spec fn encode_ping(ping_type: i32) -> Seq<u8> {
    if ping_type != 0 {
        int32_field(1, ping_type)
    } else {
        Seq::empty()
    }
}

/// How a ping reads field number `tag`.
pub open spec fn ping_field_kind(tag: nat) -> FieldKind {
    if tag == 1 {
        FieldKind::Int32
    } else {
        FieldKind::Unknown
    }
}

/// Reads the fields in `s` one after the other, starting from type number `acc`.
pub open spec fn decode_ping_from(s: Seq<u8>, acc: i32) -> Result<i32, WireError>
    decreases s.len(),
{
    if s.len() == 0 {
        Ok(acc)
    } else {
        match decode_key(s) {
            None => Err(WireError::InvalidKey),
            Some((tag, wire, n)) => {
                let after_key = s.subrange(n as int, s.len() as int);
                match payload(ping_field_kind(tag), wire, tag, after_key) {
                    Err(e) => Err(e),
                    Ok((p, m)) => {
                        proof {
                            lemma_decode_key_len(s);
                            lemma_payload_len(ping_field_kind(tag), wire, tag, after_key);
                        }
                        decode_ping_from(
                            s.subrange((n + m) as int, s.len() as int),
                            match p {
                                PayloadModel::Int32(v) => v,
                                _ => acc,
                            },
                        )
                    },
                }
            },
        }
    }
}

/// The ping type number that the bytes `s` encode, or why they encode no ping.
pub open spec fn decode_ping(s: Seq<u8>) -> Result<i32, WireError> {
    decode_ping_from(s, 0)
}

/// A ping of type `ping_type`.
pub fn create(ping_type: PingType) -> (ping: Ping)
    ensures
        ping.ping_type == ping_type.number(),
{
    Ping { ping_type: ping_type.as_i32() }
}

/// A `Ping` packet whose value is the encoded ping of type `ping_type`,
/// wrapped once more as a message of bytes.
pub fn create_packet(ping_type: PingType) -> (packet: Packet)
    ensures
        packet.packet_type == PacketType::Ping.number(),
        packet.value@ == bytes_message(encode_ping(ping_type.number())),
{
    create_packet_of(PacketType::Ping, serialize(&create(ping_type)))
}

/// Wire form of `ping`.
pub fn serialize(ping: &Ping) -> (buf: Vec<u8>)
    ensures
        buf@ == encode_ping(ping.ping_type),
{
    let mut buf: Vec<u8> = Vec::new();
    if ping.ping_type != 0 {
        put_int32_field(1, ping.ping_type, &mut buf);
    }
    assert(buf@ =~= encode_ping(ping.ping_type));
    buf
}

/// How a ping reads field number `tag`.
fn field_kind_of(tag: u32) -> (k: FieldKind)
    ensures
        k == ping_field_kind(tag as nat),
{
    if tag == 1 {
        FieldKind::Int32
    } else {
        FieldKind::Unknown
    }
}

/// Reads a ping from `buf`, field after field; unknown fields are skipped.
pub fn deserialize(buf: &[u8]) -> (res: Result<Ping, WireError>)
    ensures
        match res {
            Ok(p) => decode_ping(buf@) == Ok::<i32, WireError>(p.ping_type),
            Err(e) => decode_ping(buf@) == Err::<i32, WireError>(e),
        },
{
    let mut ping = Ping { ping_type: 0 };
    let mut pos: usize = 0;
    assert(buf@.subrange(0, buf@.len() as int) =~= buf@);
    while pos < buf.len()
        invariant
            pos <= buf@.len(),
            decode_ping_from(buf@.subrange(pos as int, buf@.len() as int), ping.ping_type)
                == decode_ping(buf@),
        decreases buf@.len() - pos,
    {
        let rest = vstd::slice::slice_subrange(buf, pos, buf.len());
        let (tag, wire, after_key) = match take_key(rest) {
            Ok(k) => k,
            Err(_) => return Err(WireError::InvalidKey),
        };
        let n = rest.len() - after_key;
        let body = vstd::slice::slice_subrange(rest, n, rest.len());
        proof {
            lemma_decode_key_len(rest@);
        }
        match read_payload(field_kind_of(tag), wire, tag, body) {
            Err(e) => return Err(e),
            Ok((p, m)) => {
                proof {
                    lemma_payload_len(ping_field_kind(tag as nat), wire, tag as nat, body@);
                }
                match p {
                    FieldPayload::Int32(v) => ping.ping_type = v,
                    _ => {},
                }
                assert(rest@.subrange((n + m) as int, rest@.len() as int) =~= buf@.subrange(
                    (pos + n + m) as int,
                    buf@.len() as int,
                ));
                pos = pos + n + m;
            },
        }
    }
    assert(buf@.subrange(pos as int, buf@.len() as int) =~= Seq::<u8>::empty());
    Ok(ping)
}

/// A ping's wire form takes at most eleven bytes.
pub proof fn lemma_encode_ping_len(ping_type: i32)
    ensures
        encode_ping(ping_type).len() <= 11,
{
    if ping_type != 0 {
        lemma_int32_roundtrip(ping_type);
        lemma_varint_len(int32_wire_value(ping_type));
        lemma_varint_bound_top();
        assert(field_key(1, WireType::Varint) =~= seq![8u8]);
    }
}

/// Reading back the wire form of a ping gives that ping.
pub proof fn ping_roundtrip(ping_type: i32)
    ensures
        decode_ping(encode_ping(ping_type)) == Ok::<i32, WireError>(ping_type),
{
    let s = encode_ping(ping_type);
    if ping_type != 0 {
        let key = field_key(1, WireType::Varint);
        let rest = varint_bytes(int32_wire_value(ping_type)) + Seq::<u8>::empty();
        assert(s =~= key + rest);
        lemma_key_roundtrip(1, WireType::Varint, rest);
        let n = key.len();
        assert(s.subrange(n as int, s.len() as int) =~= rest);
        lemma_int32_payload_roundtrip(1, ping_type, Seq::<u8>::empty());
        let m = varint_bytes(int32_wire_value(ping_type)).len();
        assert(s.subrange((n + m) as int, s.len() as int) =~= Seq::<u8>::empty());
        assert(decode_ping_from(Seq::<u8>::empty(), ping_type) == Ok::<i32, WireError>(ping_type));
    } else {
        assert(s =~= Seq::<u8>::empty());
    }
}

/// Layout of a ping's wire form: byte 0x08 (field 1, varint) and the type's
/// varint unless the type is 0; nothing otherwise.
pub proof fn ping_wire_layout(ping_type: i32)
    ensures
        encode_ping(ping_type) == (if ping_type != 0 {
            seq![0x08u8] + varint_bytes(int32_wire_value(ping_type))
        } else {
            Seq::<u8>::empty()
        }),
{
    small_field_keys();
}

} // verus!
