//! Requests that the client's user sends to its connection.

use vstd::prelude::*;
use crate::framing::{frame_packet, framed};
use crate::packet::{bytes_message, encode_packet, PacketModel, PacketType};
use crate::ping::{create_packet, encode_ping, lemma_encode_ping_len, PingType};
use crate::wire::{bytes_field, field_key, lemma_varint_len, varint_bytes, WireType};

verus! {

/// A request to the client's connection.
#[derive(Debug, Clone, Copy, PartialEq, Eq, Structural)]
pub enum Message {
    Connected,
    Disconnected,
    Ping,
}

/// The packet that a `Ping` request sends.
pub open spec fn ping_request_packet() -> PacketModel {
    PacketModel {
        packet_type: PacketType::Ping.number(),
        value: bytes_message(encode_ping(PingType::Ping.number())),
    }
}

impl Message {
    /// The line that this request sends, if any: a ping packet for `Ping`,
    /// nothing otherwise.
    pub fn outgoing(&self) -> (line: Option<Vec<u8>>)
        ensures
            *self == Message::Ping ==> (line matches Some(l) && l@ == framed(
                encode_packet(ping_request_packet()),
            )),
            *self != Message::Ping ==> line is None,
    {
        match self {
            Message::Ping => {
                let packet = create_packet(PingType::Ping);
                proof {
                    let b = encode_ping(PingType::Ping.number());
                    lemma_encode_ping_len(PingType::Ping.number());
                    lemma_varint_len(b.len());
                    assert(field_key(1, WireType::LengthDelimited) =~= seq![10u8]);
                    assert(bytes_message(b).len() <= 32);
                }
                Some(frame_packet(&packet))
            },
            _ => None,
        }
    }
}

} // verus!
