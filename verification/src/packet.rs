//! The `Packet` envelope: a packet type and the encoded message it carries.

use vstd::prelude::*;
use crate::wire::{
    small_field_keys,
    field_key, lemma_key_roundtrip, lemma_int32_payload_roundtrip, lemma_delimited_roundtrip,
    varint_bytes, delimited, WireType,
    bytes_field, decode_key, int32_field, int32_to_wire, int32_wire_value, lemma_decode_key_len,
    lemma_int32_roundtrip, lemma_payload_len, lemma_varint_bound_top, lemma_varint_len, payload,
    put_bytes_field, put_int32_field, read_payload, take_key, varint_len, FieldKind, FieldPayload,
    PayloadModel, WireError,
};

verus! {

/// Kind of message that a packet carries.
#[derive(Debug, Clone, Copy, PartialEq, Eq, Structural)]
pub enum PacketType {
    Ping,
    Authenticate,
}

impl PacketType {
    /// The number that stands for the packet type on the wire.
    pub open spec fn number(self) -> i32 {
        match self {
            PacketType::Ping => 0,
            PacketType::Authenticate => 1,
        }
    }

    /// The number that stands for the packet type on the wire.
    pub fn as_i32(self) -> (n: i32)
        ensures
            n == self.number(),
    {
        match self {
            PacketType::Ping => 0,
            PacketType::Authenticate => 1,
        }
    }

    /// The packet type numbered `n`, if there is one.
    pub open spec fn spec_from_i32(n: i32) -> Option<PacketType> {
        if n == 0 {
            Some(PacketType::Ping)
        } else if n == 1 {
            Some(PacketType::Authenticate)
        } else {
            None
        }
    }

    /// The packet type numbered `n`, if there is one.
    pub fn from_i32(n: i32) -> (t: Option<PacketType>)
        ensures
            t == Self::spec_from_i32(n),
    {
        if n == 0 {
            Some(PacketType::Ping)
        } else if n == 1 {
            Some(PacketType::Authenticate)
        } else {
            None
        }
    }
}

/// A packet: the number of its type and the bytes of its message.
#[derive(Debug, Clone)]
pub struct Packet {
    pub packet_type: i32,
    pub value: Vec<u8>,
}

/// Mathematical value of a packet.
pub ghost struct PacketModel {
    pub packet_type: i32,
    pub value: Seq<u8>,
}

impl Packet {
    pub open spec fn model(&self) -> PacketModel {
        PacketModel { packet_type: self.packet_type, value: self.value@ }
    }

    /// The packet with every field at its default: type number 0, no bytes.
    pub fn new() -> (p: Packet)
        ensures
            p.model() == default_packet(),
    {
        Packet { packet_type: 0, value: Vec::new() }
    }

    /// The packet's type; a number that names no type reads as the default,
    /// `Ping`.
    pub fn packet_type(&self) -> (t: PacketType)
        ensures
            t == (match PacketType::spec_from_i32(self.packet_type) {
                Some(t) => t,
                None => PacketType::Ping,
            }),
    {
        match PacketType::from_i32(self.packet_type) {
            Some(t) => t,
            None => PacketType::Ping,
        }
    }

    /// Sets the packet's type.
    pub fn set_packet_type(&mut self, t: PacketType)
        ensures
            final(self).packet_type == t.number(),
            final(self).value@ == old(self).value@,
    {
        self.packet_type = t.as_i32();
    }
}

impl Default for Packet {
    /// The packet with every field at its default: type number 0, no bytes.
    fn default() -> (p: Packet)
        ensures
            p.model() == default_packet(),
    {
        Packet::new()
    }
}

/// The packet with every field at its default.
pub open spec fn default_packet() -> PacketModel {
    PacketModel { packet_type: 0, value: Seq::empty() }
}

/// Wire form of a packet: field 1 holds the type unless it is 0, field 2 the
/// bytes unless there are none.
pub open spec fn encode_packet(p: PacketModel) -> Seq<u8> {
    (if p.packet_type != 0 {
        int32_field(1, p.packet_type)
    } else {
        Seq::empty()
    }) + (if p.value.len() != 0 {
        bytes_field(2, p.value)
    } else {
        Seq::empty()
    })
}

/// How a packet reads field number `tag`.
pub open spec fn packet_field_kind(tag: nat) -> FieldKind {
    if tag == 1 {
        FieldKind::Int32
    } else if tag == 2 {
        FieldKind::Bytes
    } else {
        FieldKind::Unknown
    }
}

/// The packet after a field's payload was read into `acc`; a later field
/// replaces an earlier one.
pub open spec fn merge_packet_field(acc: PacketModel, p: PayloadModel) -> PacketModel {
    match p {
        PayloadModel::Int32(v) => PacketModel { packet_type: v, ..acc },
        PayloadModel::Bytes(b) => PacketModel { value: b, ..acc },
        _ => acc,
    }
}

/// Reads the fields in `s` one after the other into `acc`.
pub open spec fn decode_packet_from(s: Seq<u8>, acc: PacketModel) -> Result<PacketModel, WireError>
    decreases s.len(),
{
    if s.len() == 0 {
        Ok(acc)
    } else {
        match decode_key(s) {
            None => Err(WireError::InvalidKey),
            Some((tag, wire, n)) => {
                let after_key = s.subrange(n as int, s.len() as int);
                match payload(packet_field_kind(tag), wire, tag, after_key) {
                    Err(e) => Err(e),
                    Ok((p, m)) => {
                        proof {
                            lemma_decode_key_len(s);
                            lemma_payload_len(packet_field_kind(tag), wire, tag, after_key);
                        }
                        decode_packet_from(
                            s.subrange((n + m) as int, s.len() as int),
                            merge_packet_field(acc, p),
                        )
                    },
                }
            },
        }
    }
}

/// The packet that the bytes `s` encode, or why they encode none.
pub open spec fn decode_packet(s: Seq<u8>) -> Result<PacketModel, WireError> {
    decode_packet_from(s, default_packet())
}

/// How a packet reads field number `tag`.
fn field_kind_of(tag: u32) -> (k: FieldKind)
    ensures
        k == packet_field_kind(tag as nat),
{
    if tag == 1 {
        FieldKind::Int32
    } else if tag == 2 {
        FieldKind::Bytes
    } else {
        FieldKind::Unknown
    }
}

/// Number of bytes that `serialize` produces for `packet`.
pub fn encoded_len(packet: &Packet) -> (n: usize)
    requires
        packet.value@.len() <= usize::MAX - 32,
    ensures
        n == encode_packet(packet.model()).len(),
{
    let mut n: usize = 0;
    if packet.packet_type != 0 {
        proof {
            lemma_int32_roundtrip(packet.packet_type);
            lemma_varint_len(int32_wire_value(packet.packet_type));
            lemma_varint_bound_top();
        }
        n = 1 + varint_len(int32_to_wire(packet.packet_type));
    }
    if packet.value.len() != 0 {
        proof {
            lemma_varint_len(packet.value@.len());
            lemma_varint_bound_top();
        }
        n = n + 1 + varint_len(packet.value.len() as u64) + packet.value.len();
    }
    n
}

/// Wire form of `packet`.
pub fn serialize(packet: &Packet) -> (buf: Vec<u8>)
    requires
        packet.value@.len() <= usize::MAX - 32,
    ensures
        buf@ == encode_packet(packet.model()),
{
    let mut buf: Vec<u8> = Vec::with_capacity(encoded_len(packet));
    if packet.packet_type != 0 {
        put_int32_field(1, packet.packet_type, &mut buf);
    }
    let ghost mid = buf@;
    if packet.value.len() != 0 {
        put_bytes_field(2, packet.value.as_slice(), &mut buf);
    }
    assert(buf@ =~= encode_packet(packet.model()));
    buf
}

/// Reads a packet from `buf`, field after field; fields that a packet does
/// not know are skipped.
pub fn deserialize(buf: &[u8]) -> (res: Result<Packet, WireError>)
    ensures
        match res {
            Ok(p) => decode_packet(buf@) == Ok::<PacketModel, WireError>(p.model()),
            Err(e) => decode_packet(buf@) == Err::<PacketModel, WireError>(e),
        },
{
    let mut packet = Packet::new();
    let mut pos: usize = 0;
    assert(buf@.subrange(0, buf@.len() as int) =~= buf@);
    while pos < buf.len()
        invariant
            pos <= buf@.len(),
            decode_packet_from(buf@.subrange(pos as int, buf@.len() as int), packet.model())
                == decode_packet(buf@),
        decreases buf@.len() - pos,
    {
        let rest = vstd::slice::slice_subrange(buf, pos, buf.len());
        let (tag, wire, after_key) = match take_key(rest) {
            Ok(k) => k,
            Err(_) => return Err(WireError::InvalidKey),
        };
        let n = rest.len() - after_key;
        let body = vstd::slice::slice_subrange(rest, n, rest.len());
        proof {
            lemma_decode_key_len(rest@);
        }
        match read_payload(field_kind_of(tag), wire, tag, body) {
            Err(e) => return Err(e),
            Ok((p, m)) => {
                proof {
                    lemma_payload_len(packet_field_kind(tag as nat), wire, tag as nat, body@);
                }
                let ghost before = packet.model();
                match p {
                    FieldPayload::Int32(v) => packet.packet_type = v,
                    FieldPayload::Bytes(b) => packet.value = b,
                    _ => {},
                }
                assert(packet.model() == merge_packet_field(before, p.model()));
                assert(rest@.subrange((n + m) as int, rest@.len() as int) =~= buf@.subrange(
                    (pos + n + m) as int,
                    buf@.len() as int,
                ));
                pos = pos + n + m;
            },
        }
    }
    assert(buf@.subrange(pos as int, buf@.len() as int) =~= Seq::<u8>::empty());
    Ok(packet)
}

/// Wire form that prost gives a `Vec<u8>` used as a message
/// (`google.protobuf.BytesValue`): nothing for no bytes, else field 1 with the bytes.
pub open spec fn bytes_message(b: Seq<u8>) -> Seq<u8> {
    if b.len() != 0 {
        bytes_field(1, b)
    } else {
        Seq::empty()
    }
}

/// Calls `prost::Message::encode_to_vec` on a `Vec<u8>`, which prost encodes
/// as `google.protobuf.BytesValue`: nothing for no bytes, else field 1 with
/// the bytes.
#[verifier::external_body]
fn encode_bytes_message(message: &Vec<u8>) -> (out: Vec<u8>)
    ensures
        out@ == bytes_message(message@),
{
    prost::Message::encode_to_vec(message)
}

/// A packet of type `packet_type` whose value is `message` encoded as a
/// message of its own (`google.protobuf.BytesValue`, which wraps the bytes in
/// field 1 unless there are none).
pub fn create(packet_type: PacketType, message: Vec<u8>) -> (packet: Packet)
    ensures
        packet.packet_type == packet_type.number(),
        packet.value@ == bytes_message(message@),
{
    let mut packet = Packet::new();
    packet.set_packet_type(packet_type);
    packet.value = encode_bytes_message(&message);
    packet
}

/// The bytes field of a packet, as `encode_packet` writes it.
pub open spec fn packet_value_field(value: Seq<u8>) -> Seq<u8> {
    if value.len() != 0 {
        bytes_field(2, value)
    } else {
        Seq::empty()
    }
}

proof fn lemma_packet_value_roundtrip(acc: PacketModel, value: Seq<u8>)
    requires
        acc.value == Seq::<u8>::empty(),
        value.len() < 0x1_0000_0000_0000_0000,
    ensures
        decode_packet_from(packet_value_field(value), acc) == Ok::<PacketModel, WireError>(
            PacketModel { packet_type: acc.packet_type, value },
        ),
{
    if value.len() != 0 {
        let s = packet_value_field(value);
        let key = field_key(2, WireType::LengthDelimited);
        let body = varint_bytes(value.len()) + value;
        assert(s =~= key + body);
        lemma_key_roundtrip(2, WireType::LengthDelimited, body);
        let n = key.len();
        assert(s.subrange(n as int, s.len() as int) =~= body);
        assert(body =~= varint_bytes(value.len()) + value + Seq::<u8>::empty());
        lemma_delimited_roundtrip(value, Seq::<u8>::empty());
        let m = body.len();
        assert(s.subrange((n + m) as int, s.len() as int) =~= Seq::<u8>::empty());
        assert(decode_packet_from(Seq::<u8>::empty(), PacketModel { packet_type: acc.packet_type, value })
            == Ok::<PacketModel, WireError>(PacketModel { packet_type: acc.packet_type, value }));
    } else {
        assert(packet_value_field(value) =~= Seq::<u8>::empty());
        assert(value =~= Seq::<u8>::empty());
        assert(acc == PacketModel { packet_type: acc.packet_type, value });
    }
}

/// Reading back the wire form of a packet gives that packet.
pub proof fn packet_roundtrip(p: PacketModel)
    requires
        p.value.len() < 0x1_0000_0000_0000_0000,
    ensures
        decode_packet(encode_packet(p)) == Ok::<PacketModel, WireError>(p),
{
    let tail = packet_value_field(p.value);
    let s = encode_packet(p);
    if p.packet_type != 0 {
        let key = field_key(1, WireType::Varint);
        let rest = varint_bytes(int32_wire_value(p.packet_type)) + tail;
        assert(s =~= key + rest);
        lemma_key_roundtrip(1, WireType::Varint, rest);
        let n = key.len();
        assert(s.subrange(n as int, s.len() as int) =~= rest);
        lemma_int32_payload_roundtrip(1, p.packet_type, tail);
        let m = varint_bytes(int32_wire_value(p.packet_type)).len();
        assert(s.subrange((n + m) as int, s.len() as int) =~= tail);
        let acc = PacketModel { packet_type: p.packet_type, value: Seq::empty() };
        assert(merge_packet_field(default_packet(), PayloadModel::Int32(p.packet_type)) == acc);
        lemma_packet_value_roundtrip(acc, p.value);
    } else {
        assert(s =~= tail);
        lemma_packet_value_roundtrip(default_packet(), p.value);
    }
}

/// Layout of a packet's wire form: byte 0x08 (field 1, varint) and the type's
/// varint unless the type is 0, then byte 0x12 (field 2, length-delimited),
/// the value's length and the value unless it is empty.
pub proof fn packet_wire_layout(p: PacketModel)
    ensures
        encode_packet(p) == (if p.packet_type != 0 {
            seq![0x08u8] + varint_bytes(int32_wire_value(p.packet_type))
        } else {
            Seq::<u8>::empty()
        }) + (if p.value.len() != 0 {
            seq![0x12u8] + varint_bytes(p.value.len()) + p.value
        } else {
            Seq::<u8>::empty()
        }),
{
    small_field_keys();
}

/// The value of a packet built by `create` is the message wrapped as field 1:
/// byte 0x0A, the message's length, the message; nothing for an empty message.
pub proof fn bytes_message_layout(b: Seq<u8>)
    ensures
        bytes_message(b) == (if b.len() != 0 {
            seq![0x0Au8] + varint_bytes(b.len()) + b
        } else {
            Seq::<u8>::empty()
        }),
{
    small_field_keys();
}

} // verus!
