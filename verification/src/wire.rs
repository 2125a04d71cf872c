//! Protocol Buffers wire primitives: varints, field keys and skipping of
//! unknown fields.

use vstd::prelude::*;
use vstd::utf8::*;
use prost::encoding::WireType as ProstWire;

verus! {

/// Largest field number that Protocol Buffers allows.
pub const MAX_TAG: u32 = 536870911;

/// How a field's payload is laid out on the wire.
#[derive(Debug, Clone, Copy, PartialEq, Eq, Structural)]
pub enum WireType {
    Varint,
    SixtyFourBit,
    LengthDelimited,
    StartGroup,
    EndGroup,
    ThirtyTwoBit,
}

impl WireType {
    /// The three-bit number that stands for the wire type in a field key.
    pub open spec fn code(self) -> nat {
        match self {
            WireType::Varint => 0,
            WireType::SixtyFourBit => 1,
            WireType::LengthDelimited => 2,
            WireType::StartGroup => 3,
            WireType::EndGroup => 4,
            WireType::ThirtyTwoBit => 5,
        }
    }

    /// The wire type whose number is `c` (meaningful for `c <= 5`).
    pub open spec fn from_code(c: nat) -> WireType {
        if c == 0 {
            WireType::Varint
        } else if c == 1 {
            WireType::SixtyFourBit
        } else if c == 2 {
            WireType::LengthDelimited
        } else if c == 3 {
            WireType::StartGroup
        } else if c == 4 {
            WireType::EndGroup
        } else {
            WireType::ThirtyTwoBit
        }
    }
}

/// Why a buffer is not a valid message.
#[derive(Debug, Clone, Copy, PartialEq, Eq, Structural)]
pub enum WireError {
    /// A field key is not a valid varint, is wider than 32 bits, names a
    /// wire type above 5 or names field 0.
    InvalidKey,
    /// A varint payload (a value or a length) is malformed or cut short.
    InvalidVarint,
    /// A known field arrived with another wire type than its own.
    UnexpectedWireType,
    /// A length-delimited field claims more bytes than remain.
    BufferUnderflow,
    /// An unknown field could not be skipped.
    InvalidField,
    /// A string field does not hold UTF-8.
    InvalidString,
}

/// LEB128 form of `v`: seven bits per byte, low bits first, high bit set on
/// every byte but the last.
pub open spec fn varint_bytes(v: nat) -> Seq<u8>
    decreases v,
{
    if v < 128 {
        seq![v as u8]
    } else {
        seq![(v % 128 + 128) as u8] + varint_bytes(v / 128)
    }
}

/// Reads a varint whose first byte is the `count`-th byte of the varint:
/// the value and the number of bytes read, or `None` when the bytes run out,
/// the varint is longer than ten bytes, or the tenth byte overflows 64 bits.
pub open spec fn varint_from(s: Seq<u8>, count: nat) -> Option<(nat, nat)>
    decreases 10 - count,
{
    if count >= 10 || s.len() == 0 {
        None
    } else if s[0] < 128 {
        if count == 9 && s[0] >= 2 {
            None
        } else {
            Some((s[0] as nat, 1nat))
        }
    } else {
        match varint_from(s.drop_first(), count + 1) {
            Some((v, n)) => Some(((s[0] - 128) as nat + 128 * v, n + 1)),
            None => None,
        }
    }
}

/// The varint at the start of `s`: its value and its length in bytes.
pub open spec fn decode_varint(s: Seq<u8>) -> Option<(nat, nat)> {
    varint_from(s, 0)
}

/// Key that opens field `tag` with wire type `wire`.
pub open spec fn field_key(tag: nat, wire: WireType) -> Seq<u8> {
    varint_bytes(tag * 8 + wire.code())
}

/// The field key at the start of `s`: tag, wire type and the key's length.
pub open spec fn decode_key(s: Seq<u8>) -> Option<(nat, WireType, nat)> {
    match decode_varint(s) {
        None => None,
        Some((k, n)) => if k > u32::MAX || k % 8 > 5 || k / 8 < 1 {
            None
        } else {
            Some((k / 8, WireType::from_code(k % 8), n))
        },
    }
}

/// Exclusive upper bound of a value whose varint starts at byte `count`.
pub open spec fn varint_bound(count: nat) -> nat
    decreases 9 - count,
{
    if count >= 9 {
        2
    } else {
        128 * varint_bound(count + 1)
    }
}

/// The sign-extended 64-bit form in which an `int32` travels.
pub open spec fn int32_wire_value(v: i32) -> nat {
    if v >= 0 {
        v as nat
    } else {
        (v + 0x1_0000_0000_0000_0000) as nat
    }
}

/// The `int32` that a decoded varint stands for: its low 32 bits, two's complement.
pub open spec fn int32_from_wire(v: nat) -> i32 {
    let low = v % 0x1_0000_0000;
    if low < 0x8000_0000 {
        low as i32
    } else {
        (low - 0x1_0000_0000) as i32
    }
}

/// Name for what `prost::encoding::skip_field` leaves unread of `buf` after
/// skipping a group numbered `tag` whose start-group key was read, or `None`
/// where it fails.
pub uninterp spec fn skip_group_remainder(tag: nat, buf: Seq<u8>) -> Option<nat>;

/// What is left of `buf` after skipping the payload of an unknown field with
/// wire type `wire` and number `tag`, or `None` where it cannot be skipped:
/// a varint, eight or four fixed bytes, a length-prefixed run of bytes; an
/// end-group key cannot be skipped; a group is skipped up to its end-group key.
pub open spec fn skipped(wire: WireType, tag: nat, buf: Seq<u8>) -> Option<nat> {
    match wire {
        WireType::Varint => match decode_varint(buf) {
            Some((_, n)) => Some((buf.len() - n) as nat),
            None => None,
        },
        WireType::SixtyFourBit => if buf.len() >= 8 {
            Some((buf.len() - 8) as nat)
        } else {
            None
        },
        WireType::ThirtyTwoBit => if buf.len() >= 4 {
            Some((buf.len() - 4) as nat)
        } else {
            None
        },
        WireType::LengthDelimited => match decode_varint(buf) {
            Some((len, n)) => if n + len <= buf.len() {
                Some((buf.len() - n - len) as nat)
            } else {
                None
            },
            None => None,
        },
        WireType::EndGroup => None,
        WireType::StartGroup => skip_group_remainder(tag, buf),
    }
}

pub proof fn lemma_varint_bound_top()
    ensures
        varint_bound(0) == 0x1_0000_0000_0000_0000,
{
    reveal_with_fuel(varint_bound, 10);
}

/// A decoded varint fits below the bound of its starting position, and its
/// length lies between one byte and what remains.
pub proof fn lemma_varint_from_facts(s: Seq<u8>, count: nat)
    ensures
        varint_from(s, count) matches Some((v, n)) ==> {
            &&& v < varint_bound(count)
            &&& 1 <= n <= s.len()
        },
    decreases 10 - count,
{
    if count < 10 && s.len() > 0 && s[0] >= 128 {
        lemma_varint_from_facts(s.drop_first(), count + 1);
        if let Some((v, n)) = varint_from(s.drop_first(), count + 1) {
            assert(count < 9);
            let x: int = s[0] - 128;
            let b: int = varint_bound(count + 1) as int;
            assert(x + 128 * v < 128 * b) by (nonlinear_arith)
                requires
                    v < b,
                    0 <= x < 128,
            ;
        }
    } else if count < 10 && s.len() > 0 {
        assert(varint_bound(count) >= 2) by {
            lemma_varint_bound_ge_two(count);
        }
    }
}

pub proof fn lemma_varint_bound_ge_two(count: nat)
    ensures
        varint_bound(count) >= 2,
    decreases 9 - count,
{
    if count < 9 {
        lemma_varint_bound_ge_two(count + 1);
    }
}

/// A decoded varint fits in 64 bits.
pub proof fn lemma_decode_varint_facts(s: Seq<u8>)
    ensures
        decode_varint(s) matches Some((v, n)) ==> {
            &&& v < 0x1_0000_0000_0000_0000
            &&& 1 <= n <= s.len()
        },
{
    lemma_varint_from_facts(s, 0);
    lemma_varint_bound_top();
}

/// Reading back the varint of `v` from position `count` gives `v` and
/// consumes exactly its bytes, whatever follows.
pub proof fn lemma_varint_roundtrip_from(v: nat, rest: Seq<u8>, count: nat)
    requires
        count <= 9,
        v < varint_bound(count),
    ensures
        varint_from(varint_bytes(v) + rest, count) == Some((v, varint_bytes(v).len())),
    decreases v,
{
    let s = varint_bytes(v) + rest;
    if v < 128 {
        assert(s[0] == v as u8);
        if count < 9 {
            lemma_varint_bound_ge_two(count);
        }
    } else {
        if count == 9 {
            assert(false);
        }
        assert(v / 128 < varint_bound(count + 1)) by (nonlinear_arith)
            requires
                v < 128 * varint_bound(count + 1),
        ;
        lemma_varint_roundtrip_from(v / 128, rest, count + 1);
        assert(s.drop_first() =~= varint_bytes(v / 128) + rest);
        assert(s[0] == (v % 128 + 128) as u8);
    }
}

/// Reading back the varint of a 64-bit `v` gives `v` and consumes exactly
/// its bytes, whatever follows.
pub proof fn lemma_varint_roundtrip(v: u64, rest: Seq<u8>)
    ensures
        decode_varint(varint_bytes(v as nat) + rest) == Some((v as nat, varint_bytes(v as nat).len())),
{
    lemma_varint_bound_top();
    lemma_varint_roundtrip_from(v as nat, rest, 0);
}

/// The varint of any value is one to ten bytes long.
pub proof fn lemma_varint_len(v: nat)
    ensures
        1 <= varint_bytes(v).len(),
        v < varint_bound(0) ==> varint_bytes(v).len() <= 10,
{
    lemma_varint_len_from(v, 0);
}

proof fn lemma_varint_len_from(v: nat, count: nat)
    requires
        count <= 9,
    ensures
        1 <= varint_bytes(v).len(),
        v < varint_bound(count) ==> varint_bytes(v).len() <= 10 - count,
    decreases v,
{
    if v >= 128 {
        if count < 9 {
            lemma_varint_len_from(v / 128, count + 1);
            if v < varint_bound(count) {
                assert(v / 128 < varint_bound(count + 1)) by (nonlinear_arith)
                    requires
                        v < 128 * varint_bound(count + 1),
                ;
            }
        } else {
            lemma_varint_len_from(v / 128, count);
        }
    }
}

/// Decoding a truncated sign-extended `int32` gives back the original.
pub proof fn lemma_int32_roundtrip(v: i32)
    ensures
        int32_from_wire(int32_wire_value(v)) == v,
        int32_wire_value(v) < 0x1_0000_0000_0000_0000,
{
    if v < 0 {
        let w = (v + 0x1_0000_0000_0000_0000) as nat;
        assert(w % 0x1_0000_0000 == v + 0x1_0000_0000) by (nonlinear_arith)
            requires
                w == v + 0x1_0000_0000_0000_0000,
                -0x8000_0000 <= v < 0,
        ;
    }
}

/// The 64-bit word in which `v` travels as an `int32`.
pub fn int32_to_wire(v: i32) -> (r: u64)
    ensures
        r as nat == int32_wire_value(v),
{
    if v >= 0 {
        v as u64
    } else {
        let magnitude_less_one = (-(v as i64) - 1) as u64;
        u64::MAX - magnitude_less_one
    }
}

/// The `int32` carried by the decoded varint `v`.
pub fn int32_of_wire(v: u64) -> (r: i32)
    ensures
        r == int32_from_wire(v as nat),
{
    let low: u64 = v % 0x1_0000_0000;
    if low < 0x8000_0000 {
        low as i32
    } else {
        (low as i64 - 0x1_0000_0000) as i32
    }
}

#[verifier::external_type_specification]
#[verifier::external_body]
pub struct ExProstDecodeError(prost::DecodeError);

/// Calls `prost::encoding::encode_varint`, which appends the LEB128 form of
/// `value` to `buf`.
#[verifier::external_body]
pub(crate) fn put_varint(value: u64, buf: &mut Vec<u8>)
    ensures
        final(buf)@ == old(buf)@ + varint_bytes(value as nat),
{
    prost::encoding::encode_varint(value, buf);
}

/// Calls `prost::encoding::encoded_len_varint`, which returns the length of
/// the LEB128 form of `value`.
#[verifier::external_body]
pub(crate) fn varint_len(value: u64) -> (n: usize)
    ensures
        n == varint_bytes(value as nat).len(),
{
    prost::encoding::encoded_len_varint(value)
}

/// Calls `prost::encoding::encode_key`, which appends the varint of
/// `tag * 8` plus the wire type's number to `buf`.
#[verifier::external_body]
pub(crate) fn put_key(tag: u32, wire: WireType, buf: &mut Vec<u8>)
    requires
        1 <= tag <= MAX_TAG,
    ensures
        final(buf)@ == old(buf)@ + field_key(tag as nat, wire),
{
    let wire_type = match wire {
        WireType::Varint => ProstWire::Varint,
        WireType::SixtyFourBit => ProstWire::SixtyFourBit,
        WireType::LengthDelimited => ProstWire::LengthDelimited,
        WireType::StartGroup => ProstWire::StartGroup,
        WireType::EndGroup => ProstWire::EndGroup,
        WireType::ThirtyTwoBit => ProstWire::ThirtyTwoBit,
    };
    prost::encoding::encode_key(tag, wire_type, buf);
}

/// Calls `prost::encoding::decode_varint` on `buf`: on success the value and
/// how many bytes of `buf` remain unread; it fails exactly where
/// `decode_varint` has no value.
#[verifier::external_body]
pub(crate) fn take_varint(buf: &[u8]) -> (res: Result<(u64, usize), prost::DecodeError>)
    ensures
        match res {
            Ok((v, rest)) => rest <= buf@.len() && decode_varint(buf@) == Some(
                (v as nat, (buf@.len() - rest) as nat),
            ),
            Err(_) => decode_varint(buf@) is None,
        },
{
    let mut cursor = buf;
    match prost::encoding::decode_varint(&mut cursor) {
        Ok(v) => Ok((v, cursor.len())),
        Err(e) => Err(e),
    }
}

/// Calls `prost::encoding::decode_key` on `buf`: on success the field number,
/// the wire type and how many bytes remain unread; it fails exactly where
/// `decode_key` has no key.
#[verifier::external_body]
pub(crate) fn take_key(buf: &[u8]) -> (res: Result<(u32, WireType, usize), prost::DecodeError>)
    ensures
        match res {
            Ok((tag, wire, rest)) => rest <= buf@.len() && decode_key(buf@) == Some(
                (tag as nat, wire, (buf@.len() - rest) as nat),
            ),
            Err(_) => decode_key(buf@) is None,
        },
{
    let mut cursor = buf;
    match prost::encoding::decode_key(&mut cursor) {
        Ok((tag, ProstWire::Varint)) => Ok((tag, WireType::Varint, cursor.len())),
        Ok((tag, ProstWire::SixtyFourBit)) => Ok((tag, WireType::SixtyFourBit, cursor.len())),
        Ok((tag, ProstWire::LengthDelimited)) => Ok((tag, WireType::LengthDelimited, cursor.len())),
        Ok((tag, ProstWire::StartGroup)) => Ok((tag, WireType::StartGroup, cursor.len())),
        Ok((tag, ProstWire::EndGroup)) => Ok((tag, WireType::EndGroup, cursor.len())),
        Ok((tag, ProstWire::ThirtyTwoBit)) => Ok((tag, WireType::ThirtyTwoBit, cursor.len())),
        Err(e) => Err(e),
    }
}

/// Calls `prost::encoding::skip_field` with a fresh decode context on `buf`:
/// on success how many bytes remain unread, as `skipped` states; for a group
/// that is the name `skip_group_remainder`, whose value (nested fields up to
/// prost's recursion limit, closed by the matching end-group key) is not
/// restated here.
#[verifier::external_body]
pub(crate) fn skip_field(wire: WireType, tag: u32, buf: &[u8]) -> (res: Result<usize, prost::DecodeError>)
    ensures
        match res {
            Ok(rest) => rest <= buf@.len() && skipped(wire, tag as nat, buf@) == Some(rest as nat),
            Err(_) => skipped(wire, tag as nat, buf@) is None,
        },
        wire == WireType::StartGroup ==> match res {
            Ok(rest) => skip_group_remainder(tag as nat, buf@) == Some(rest as nat),
            Err(_) => skip_group_remainder(tag as nat, buf@) is None,
        },
{
    let mut cursor = buf;
    let wire_type = match wire {
        WireType::Varint => ProstWire::Varint,
        WireType::SixtyFourBit => ProstWire::SixtyFourBit,
        WireType::LengthDelimited => ProstWire::LengthDelimited,
        WireType::StartGroup => ProstWire::StartGroup,
        WireType::EndGroup => ProstWire::EndGroup,
        WireType::ThirtyTwoBit => ProstWire::ThirtyTwoBit,
    };
    let ctx = prost::encoding::DecodeContext::default();
    match prost::encoding::skip_field(wire_type, tag, &mut cursor, ctx) {
        Ok(()) => Ok(cursor.len()),
        Err(e) => Err(e),
    }
}

/// How a message reads the field that carries a given number.
#[derive(Debug, Clone, Copy, PartialEq, Eq, Structural)]
pub enum FieldKind {
    /// An `int32` (or enumeration) field.
    Int32,
    /// A `bytes` field.
    Bytes,
    /// A `string` field.
    Text,
    /// A field that the message does not know, skipped.
    Unknown,
}

/// Mathematical value of a decoded field payload.
pub ghost enum PayloadModel {
    Int32(i32),
    Bytes(Seq<u8>),
    Text(Seq<char>),
    Skipped,
}

/// A decoded field payload.
pub enum FieldPayload {
    Int32(i32),
    Bytes(Vec<u8>),
    Text(String),
    Skipped,
}

impl FieldPayload {
    pub open spec fn model(&self) -> PayloadModel {
        match self {
            FieldPayload::Int32(v) => PayloadModel::Int32(*v),
            FieldPayload::Bytes(b) => PayloadModel::Bytes(b@),
            FieldPayload::Text(t) => PayloadModel::Text(t@),
            FieldPayload::Skipped => PayloadModel::Skipped,
        }
    }
}

/// The length-delimited payload at the start of `s`: its bytes and how many
/// bytes it takes with its length prefix.
pub open spec fn delimited(s: Seq<u8>) -> Result<(Seq<u8>, nat), WireError> {
    match decode_varint(s) {
        None => Err(WireError::InvalidVarint),
        Some((len, m)) => if m + len > s.len() {
            Err(WireError::BufferUnderflow)
        } else {
            Ok((s.subrange(m as int, (m + len) as int), m + len))
        },
    }
}

/// Reads the payload of a field numbered `tag` with wire type `wire` from the
/// bytes `s` that follow its key, as a field of kind `kind`: the payload and
/// how many bytes it takes.
pub open spec fn payload(kind: FieldKind, wire: WireType, tag: nat, s: Seq<u8>) -> Result<
    (PayloadModel, nat),
    WireError,
> {
    match kind {
        FieldKind::Int32 => if wire != WireType::Varint {
            Err(WireError::UnexpectedWireType)
        } else {
            match decode_varint(s) {
                None => Err(WireError::InvalidVarint),
                Some((v, m)) => Ok((PayloadModel::Int32(int32_from_wire(v)), m)),
            }
        },
        FieldKind::Bytes => if wire != WireType::LengthDelimited {
            Err(WireError::UnexpectedWireType)
        } else {
            match delimited(s) {
                Err(e) => Err(e),
                Ok((b, m)) => Ok((PayloadModel::Bytes(b), m)),
            }
        },
        FieldKind::Text => if wire != WireType::LengthDelimited {
            Err(WireError::UnexpectedWireType)
        } else {
            match delimited(s) {
                Err(e) => Err(e),
                Ok((b, m)) => if valid_utf8(b) {
                    Ok((PayloadModel::Text(decode_utf8(b)), m))
                } else {
                    Err(WireError::InvalidString)
                },
            }
        },
        FieldKind::Unknown => match skipped(wire, tag, s) {
            None => Err(WireError::InvalidField),
            Some(r) => if r <= s.len() {
                Ok((PayloadModel::Skipped, (s.len() - r) as nat))
            } else {
                Err(WireError::InvalidField)
            },
        },
    }
}

/// Bytes of an `int32` field that carries `v`.
pub open spec fn int32_field(tag: nat, v: i32) -> Seq<u8> {
    field_key(tag, WireType::Varint) + varint_bytes(int32_wire_value(v))
}

/// Bytes of a length-delimited field that carries `b`.
pub open spec fn bytes_field(tag: nat, b: Seq<u8>) -> Seq<u8> {
    field_key(tag, WireType::LengthDelimited) + varint_bytes(b.len()) + b
}

/// A successful payload never reads past the bytes it was given.
pub proof fn lemma_payload_len(kind: FieldKind, wire: WireType, tag: nat, s: Seq<u8>)
    ensures
        payload(kind, wire, tag, s) matches Ok((p, m)) ==> m <= s.len(),
{
    lemma_decode_varint_facts(s);
}

/// A decoded key takes at least one byte and no more than there are.
pub proof fn lemma_decode_key_len(s: Seq<u8>)
    ensures
        decode_key(s) matches Some((tag, wire, n)) ==> 1 <= n <= s.len() && 1 <= tag <= u32::MAX,
{
    lemma_decode_varint_facts(s);
}

/// The key of a valid field number reads back as that number and wire type.
pub proof fn lemma_key_roundtrip(tag: nat, wire: WireType, rest: Seq<u8>)
    requires
        1 <= tag <= MAX_TAG,
    ensures
        decode_key(field_key(tag, wire) + rest) == Some((tag, wire, field_key(tag, wire).len())),
{
    let k = tag * 8 + wire.code();
    assert(k < 0x1_0000_0000);
    lemma_varint_roundtrip(k as u64, rest);
    assert(k % 8 == wire.code());
    assert(k / 8 == tag);
}

/// An `int32` payload reads back as its value.
pub proof fn lemma_int32_payload_roundtrip(tag: nat, v: i32, rest: Seq<u8>)
    ensures
        payload(FieldKind::Int32, WireType::Varint, tag, varint_bytes(int32_wire_value(v)) + rest)
            == Ok::<(PayloadModel, nat), WireError>(
            (PayloadModel::Int32(v), varint_bytes(int32_wire_value(v)).len()),
        ),
{
    lemma_int32_roundtrip(v);
    lemma_varint_roundtrip(int32_wire_value(v) as u64, rest);
}

/// A length-delimited payload reads back as its bytes.
pub proof fn lemma_delimited_roundtrip(b: Seq<u8>, rest: Seq<u8>)
    requires
        b.len() < 0x1_0000_0000_0000_0000,
    ensures
        delimited(varint_bytes(b.len()) + b + rest) == Ok::<(Seq<u8>, nat), WireError>(
            (b, varint_bytes(b.len()).len() + b.len()),
        ),
{
    let s = varint_bytes(b.len()) + b + rest;
    assert(s =~= varint_bytes(b.len()) + (b + rest));
    lemma_varint_roundtrip(b.len() as u64, b + rest);
    let m = varint_bytes(b.len()).len();
    assert(s.subrange(m as int, (m + b.len()) as int) =~= b);
}

/// A string field reads back as the text that was written, whatever its
/// length and whatever follows: its UTF-8 bytes, all of them, after the
/// whole varint length.
pub proof fn text_payload_roundtrip(t: Seq<char>, tag: nat, rest: Seq<u8>)
    requires
        encode_utf8(t).len() < 0x1_0000_0000_0000_0000,
    ensures
        payload(
            FieldKind::Text,
            WireType::LengthDelimited,
            tag,
            varint_bytes(encode_utf8(t).len()) + encode_utf8(t) + rest,
        ) == Ok::<(PayloadModel, nat), WireError>(
            (PayloadModel::Text(t), varint_bytes(encode_utf8(t).len()).len() + encode_utf8(t).len()),
        ),
{
    let b = encode_utf8(t);
    lemma_delimited_roundtrip(b, rest);
    encode_utf8_valid_utf8(t);
    encode_utf8_decode_utf8(t);
}

/// A bytes field reads back as the bytes that were written, whatever its
/// length and whatever follows.
pub proof fn bytes_payload_roundtrip(b: Seq<u8>, tag: nat, rest: Seq<u8>)
    requires
        b.len() < 0x1_0000_0000_0000_0000,
    ensures
        payload(FieldKind::Bytes, WireType::LengthDelimited, tag, varint_bytes(b.len()) + b + rest)
            == Ok::<(PayloadModel, nat), WireError>(
            (PayloadModel::Bytes(b), varint_bytes(b.len()).len() + b.len()),
        ),
{
    lemma_delimited_roundtrip(b, rest);
}

/// Keys of small field numbers are one byte: the number times eight plus the
/// wire type's number.
pub proof fn small_field_keys()
    ensures
        field_key(1, WireType::Varint) == seq![0x08u8],
        field_key(1, WireType::LengthDelimited) == seq![0x0Au8],
        field_key(2, WireType::LengthDelimited) == seq![0x12u8],
{
    assert(varint_bytes(8) =~= seq![0x08u8]);
    assert(varint_bytes(10) =~= seq![0x0Au8]);
    assert(varint_bytes(18) =~= seq![0x12u8]);
}

/// Appends the bytes of `src` to `buf`.
pub fn append_bytes(buf: &mut Vec<u8>, src: &[u8])
    ensures
        final(buf)@ == old(buf)@ + src@,
{
    let mut i: usize = 0;
    while i < src.len()
        invariant
            i <= src@.len(),
            buf@ == old(buf)@ + src@.subrange(0, i as int),
        decreases src@.len() - i,
    {
        buf.push(src[i]);
        i = i + 1;
        assert(src@.subrange(0, i as int) =~= src@.subrange(0, i - 1) + seq![src@[i - 1]]);
    }
    assert(src@.subrange(0, src@.len() as int) =~= src@);
}

/// Appends an `int32` field numbered `tag` that carries `v`.
pub fn put_int32_field(tag: u32, v: i32, buf: &mut Vec<u8>)
    requires
        1 <= tag <= MAX_TAG,
    ensures
        final(buf)@ == old(buf)@ + int32_field(tag as nat, v),
{
    put_key(tag, WireType::Varint, buf);
    put_varint(int32_to_wire(v), buf);
    assert(buf@ =~= old(buf)@ + int32_field(tag as nat, v));
}

/// Appends a length-delimited field numbered `tag` that carries `bytes`.
pub fn put_bytes_field(tag: u32, bytes: &[u8], buf: &mut Vec<u8>)
    requires
        1 <= tag <= MAX_TAG,
    ensures
        final(buf)@ == old(buf)@ + bytes_field(tag as nat, bytes@),
{
    put_key(tag, WireType::LengthDelimited, buf);
    put_varint(bytes.len() as u64, buf);
    append_bytes(buf, bytes);
    assert(buf@ =~= old(buf)@ + bytes_field(tag as nat, bytes@));
}

/// Reads the payload of a field numbered `tag` with wire type `wire` from the
/// bytes that follow its key.
pub fn read_payload(kind: FieldKind, wire: WireType, tag: u32, s: &[u8]) -> (res: Result<
    (FieldPayload, usize),
    WireError,
>)
    ensures
        match res {
            Ok((p, m)) => payload(kind, wire, tag as nat, s@) == Ok::<(PayloadModel, nat), WireError>(
                (p.model(), m as nat),
            ),
            Err(e) => payload(kind, wire, tag as nat, s@) == Err::<(PayloadModel, nat), WireError>(e),
        },
{
    match kind {
        FieldKind::Int32 => {
            if wire != WireType::Varint {
                return Err(WireError::UnexpectedWireType);
            }
            match take_varint(s) {
                Err(_) => Err(WireError::InvalidVarint),
                Ok((v, rest)) => Ok((FieldPayload::Int32(int32_of_wire(v)), s.len() - rest)),
            }
        },
        FieldKind::Bytes => {
            if wire != WireType::LengthDelimited {
                return Err(WireError::UnexpectedWireType);
            }
            match read_delimited(s) {
                Err(e) => Err(e),
                Ok((b, m)) => Ok((FieldPayload::Bytes(b), m)),
            }
        },
        FieldKind::Text => {
            if wire != WireType::LengthDelimited {
                return Err(WireError::UnexpectedWireType);
            }
            match read_delimited(s) {
                Err(e) => Err(e),
                Ok((b, m)) => {
                    let ghost bytes = b@;
                    match string_from_utf8(b) {
                        None => Err(WireError::InvalidString),
                        Some(text) => {
                            assert(valid_utf8(bytes));
                            Ok((FieldPayload::Text(text), m))
                        },
                    }
                },
            }
        },
        FieldKind::Unknown => match skip_field(wire, tag, s) {
            Err(_) => Err(WireError::InvalidField),
            Ok(rest) => Ok((FieldPayload::Skipped, s.len() - rest)),
        },
    }
}

/// Reads a length-delimited payload from the start of `s`.
pub fn read_delimited(s: &[u8]) -> (res: Result<(Vec<u8>, usize), WireError>)
    ensures
        match res {
            Ok((b, m)) => delimited(s@) == Ok::<(Seq<u8>, nat), WireError>((b@, m as nat)),
            Err(e) => delimited(s@) == Err::<(Seq<u8>, nat), WireError>(e),
        },
{
    match take_varint(s) {
        Err(_) => Err(WireError::InvalidVarint),
        Ok((len, rest)) => {
            let m = s.len() - rest;
            if len > rest as u64 {
                Err(WireError::BufferUnderflow)
            } else {
                let end = m + len as usize;
                let b = vstd::slice::slice_to_vec(vstd::slice::slice_subrange(s, m, end));
                Ok((b, end))
            }
        },
    }
}

/// Calls `String::from_utf8`: the text when `bytes` are valid UTF-8, the
/// characters that they encode.
#[verifier::external_body]
pub(crate) fn string_from_utf8(bytes: Vec<u8>) -> (res: Option<String>)
    ensures
        res is Some <==> valid_utf8(bytes@),
        res matches Some(text) ==> text@ == decode_utf8(bytes@),
{
    String::from_utf8(bytes).ok()
}

} // verus!
