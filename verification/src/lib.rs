//! Packet encoding and the connection logic of a small TCP client and server.
//!
//! Packets are Protocol Buffers messages; the wire primitives come from `prost`
//! and the message-level codecs are verified here.

pub mod authenticate;
pub mod client;
pub mod framing;
pub mod wire;
pub mod packet;
pub mod ping;
pub mod server;
