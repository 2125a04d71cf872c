//! Line framing: every packet travels as its wire form followed by `\r\n`.

use vstd::prelude::*;
use crate::packet::{decode_packet, encode_packet, packet_roundtrip, serialize, Packet, PacketModel};
use crate::wire::WireError;

verus! {

/// `message` without one trailing `\n`, and without the `\r` before it, when
/// it ends so.
pub open spec fn trimmed(message: Seq<u8>) -> Seq<u8> {
    if message.len() > 0 && message.last() == 10u8 {
        let shorter = message.drop_last();
        if shorter.len() > 0 && shorter.last() == 13u8 {
            shorter.drop_last()
        } else {
            shorter
        }
    } else {
        message
    }
}

/// The line that carries `bytes`: the bytes followed by `\r\n`.
pub open spec fn framed(bytes: Seq<u8>) -> Seq<u8> {
    bytes + seq![13u8, 10u8]
}

/// Drops the line ending (`\n` or `\r\n`) from a received line.
pub fn trunc_message(message: Vec<u8>) -> (out: Vec<u8>)
    ensures
        out@ == trimmed(message@),
{
    let mut message = message;
    let n = message.len();
    if n > 0 && message[n - 1] == 10u8 {
        message.pop();
        let m = message.len();
        if m > 0 && message[m - 1] == 13u8 {
            message.pop();
        }
    }
    message
}

/// The line that carries `packet`: its wire form followed by `\r\n`.
pub fn frame_packet(packet: &Packet) -> (line: Vec<u8>)
    requires
        packet.value@.len() <= usize::MAX - 32,
    ensures
        line@ == framed(encode_packet(packet.model())),
{
    let mut line = serialize(packet);
    line.push(13u8);
    line.push(10u8);
    assert(line@ =~= framed(encode_packet(packet.model())));
    line
}

/// Dropping the line ending of a framed line gives back what was framed.
pub proof fn trimmed_framed(bytes: Seq<u8>)
    ensures
        trimmed(framed(bytes)) == bytes,
{
    let f = framed(bytes);
    assert(f.drop_last() =~= bytes + seq![13u8]);
    assert(f.drop_last().drop_last() =~= bytes);
}

/// A line ending in a bare `\n` loses just that byte; a line that does not
/// end in `\n` is kept whole.
pub proof fn trimmed_line_endings(bytes: Seq<u8>)
    ensures
        (bytes.len() == 0 || bytes.last() != 13u8) ==> trimmed(bytes + seq![10u8]) == bytes,
        (bytes.len() == 0 || bytes.last() != 10u8) ==> trimmed(bytes) == bytes,
{
    assert((bytes + seq![10u8]).drop_last() =~= bytes);
}

/// The packet read from the line that carries a packet is that packet.
pub proof fn packet_line_roundtrip(p: PacketModel)
    requires
        p.value.len() < 0x1_0000_0000_0000_0000,
    ensures
        decode_packet(trimmed(framed(encode_packet(p)))) == Ok::<PacketModel, WireError>(p),
{
    trimmed_framed(encode_packet(p));
    packet_roundtrip(p);
}

} // verus!
