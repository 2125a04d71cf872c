//! The server's answer to each packet.

use vstd::prelude::*;
use crate::packet::{Packet, PacketType};

verus! {

/// What the server does about a received packet.
#[derive(Debug, Clone, Copy, PartialEq, Eq, Structural)]
pub enum PacketResponse {
    /// Note the ping and keep the connection.
    Acknowledge,
    /// Send the farewell line and stop the connection.
    Farewell,
}

/// A ping is acknowledged; any other packet gets the farewell.
pub fn respond(packet: &Packet) -> (r: PacketResponse)
    ensures
        r == (if packet.packet_type == PacketType::Ping.number() || PacketType::spec_from_i32(
            packet.packet_type,
        ) is None {
            PacketResponse::Acknowledge
        } else {
            PacketResponse::Farewell
        }),
{
    match packet.packet_type() {
        PacketType::Ping => PacketResponse::Acknowledge,
        _ => PacketResponse::Farewell,
    }
}

/// The line sent to a client before its connection is stopped.
pub fn farewell_message() -> (m: &'static str)
    ensures
        m@ == "See you next time!"@,
{
    "See you next time!"
}

} // verus!
