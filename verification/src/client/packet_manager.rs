//! Packets that arrive at the client, one per line.

use vstd::prelude::*;
use crate::framing::{trimmed, trunc_message};
use crate::packet::{decode_packet, deserialize, Packet, PacketModel};
use crate::wire::WireError;

verus! {

/// Reads the packet carried by a received line.
pub fn read_packet_line(content: Vec<u8>) -> (res: Result<Packet, WireError>)
    ensures
        match res {
            Ok(p) => decode_packet(trimmed(content@)) == Ok::<PacketModel, WireError>(p.model()),
            Err(e) => decode_packet(trimmed(content@)) == Err::<PacketModel, WireError>(e),
        },
{
    let bytes = trunc_message(content);
    deserialize(bytes.as_slice())
}

} // verus!
