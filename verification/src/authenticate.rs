//! The `Authenticate` message.

use vstd::prelude::*;
use vstd::utf8::encode_utf8;
use crate::wire::{
    decode_key, lemma_decode_key_len, lemma_payload_len, payload, read_payload, take_key,
    FieldKind, FieldPayload, PayloadModel, WireError, WireType, field_key, lemma_key_roundtrip,
    small_field_keys, text_payload_roundtrip, varint_bytes,
};

verus! {

/// An authentication request that carries the client's public token.
#[derive(Debug, Clone)]
pub struct Authenticate {
    pub public_token: String,
}

impl Default for Authenticate {
    /// The request with an empty token.
    fn default() -> (a: Authenticate)
        ensures
            a.public_token@ == Seq::<char>::empty(),
    {
        Authenticate { public_token: String::new() }
    }
}

/// How an authentication request reads field number `tag`.
pub open spec fn authenticate_field_kind(tag: nat) -> FieldKind {
    if tag == 1 {
        FieldKind::Text
    } else {
        FieldKind::Unknown
    }
}

/// Reads the fields in `s` one after the other, starting from the token `acc`.
pub open spec fn decode_authenticate_from(s: Seq<u8>, acc: Seq<char>) -> Result<Seq<char>, WireError>
    decreases s.len(),
{
    if s.len() == 0 {
        Ok(acc)
    } else {
        match decode_key(s) {
            None => Err(WireError::InvalidKey),
            Some((tag, wire, n)) => {
                let after_key = s.subrange(n as int, s.len() as int);
                match payload(authenticate_field_kind(tag), wire, tag, after_key) {
                    Err(e) => Err(e),
                    Ok((p, m)) => {
                        proof {
                            lemma_decode_key_len(s);
                            lemma_payload_len(authenticate_field_kind(tag), wire, tag, after_key);
                        }
                        decode_authenticate_from(
                            s.subrange((n + m) as int, s.len() as int),
                            match p {
                                PayloadModel::Text(t) => t,
                                _ => acc,
                            },
                        )
                    },
                }
            },
        }
    }
}

/// The token that the bytes `s` encode, or why they encode no request.
pub open spec fn decode_authenticate(s: Seq<u8>) -> Result<Seq<char>, WireError> {
    decode_authenticate_from(s, Seq::empty())
}

/// An authentication request that carries `public_token`.
pub fn create(public_token: String) -> (auth: Authenticate)
    ensures
        auth.public_token@ == public_token@,
{
    Authenticate { public_token }
}

/// How an authentication request reads field number `tag`.
fn field_kind_of(tag: u32) -> (k: FieldKind)
    ensures
        k == authenticate_field_kind(tag as nat),
{
    if tag == 1 {
        FieldKind::Text
    } else {
        FieldKind::Unknown
    }
}

/// Reads an authentication request from `buf`, field after field; unknown
/// fields are skipped.
pub fn deserialize(buf: &[u8]) -> (res: Result<Authenticate, WireError>)
    ensures
        match res {
            Ok(a) => decode_authenticate(buf@) == Ok::<Seq<char>, WireError>(a.public_token@),
            Err(e) => decode_authenticate(buf@) == Err::<Seq<char>, WireError>(e),
        },
{
    let mut auth = Authenticate { public_token: String::new() };
    let mut pos: usize = 0;
    assert(buf@.subrange(0, buf@.len() as int) =~= buf@);
    assert(auth.public_token@ =~= Seq::<char>::empty());
    while pos < buf.len()
        invariant
            pos <= buf@.len(),
            decode_authenticate_from(buf@.subrange(pos as int, buf@.len() as int), auth.public_token@)
                == decode_authenticate(buf@),
        decreases buf@.len() - pos,
    {
        let rest = vstd::slice::slice_subrange(buf, pos, buf.len());
        let (tag, wire, after_key) = match take_key(rest) {
            Ok(k) => k,
            Err(_) => return Err(WireError::InvalidKey),
        };
        let n = rest.len() - after_key;
        let body = vstd::slice::slice_subrange(rest, n, rest.len());
        proof {
            lemma_decode_key_len(rest@);
        }
        match read_payload(field_kind_of(tag), wire, tag, body) {
            Err(e) => return Err(e),
            Ok((p, m)) => {
                proof {
                    lemma_payload_len(authenticate_field_kind(tag as nat), wire, tag as nat, body@);
                }
                match p {
                    FieldPayload::Text(t) => auth.public_token = t,
                    _ => {},
                }
                assert(rest@.subrange((n + m) as int, rest@.len() as int) =~= buf@.subrange(
                    (pos + n + m) as int,
                    buf@.len() as int,
                ));
                pos = pos + n + m;
            },
        }
    }
    assert(buf@.subrange(pos as int, buf@.len() as int) =~= Seq::<u8>::empty());
    Ok(auth)
}

/// A request whose only field is the token `t` (byte 0x0A, the length of its
/// UTF-8 form, that form) decodes to exactly `t`, whatever its length.
pub proof fn token_roundtrip(t: Seq<char>)
    requires
        encode_utf8(t).len() < 0x1_0000_0000_0000_0000,
    ensures
        decode_authenticate(seq![0x0Au8] + varint_bytes(encode_utf8(t).len()) + encode_utf8(t))
            == Ok::<Seq<char>, WireError>(t),
{
    let b = encode_utf8(t);
    let body = varint_bytes(b.len()) + b;
    let s = seq![0x0Au8] + body;
    small_field_keys();
    assert(seq![0x0Au8] + varint_bytes(b.len()) + b =~= s);
    assert(s =~= field_key(1, WireType::LengthDelimited) + body);
    lemma_key_roundtrip(1, WireType::LengthDelimited, body);
    assert(s.subrange(1, s.len() as int) =~= body);
    assert(body =~= varint_bytes(b.len()) + b + Seq::<u8>::empty());
    text_payload_roundtrip(t, 1, Seq::<u8>::empty());
    let m = body.len();
    assert(s.subrange((1 + m) as int, s.len() as int) =~= Seq::<u8>::empty());
    assert(decode_authenticate_from(Seq::<u8>::empty(), t) == Ok::<Seq<char>, WireError>(t));
}

} // verus!
