//! Messages that client connections hand to the server's message loop.

use vstd::prelude::*;
use std::sync::Arc;
use crate::packet::{decode_packet, deserialize, Packet, PacketModel};
use crate::server::io::Client;
use crate::wire::WireError;

verus! {

/// Work for the server's message loop.
pub enum ServerMessage<C> {
    /// Bytes of a packet that `Client` sent.
    HandlePacket(Client<C>, Vec<u8>),
    /// `Client` went away.
    Disconnect(Client<C>),
}

#[verifier::external_type_specification]
#[verifier::external_body]
#[verifier::reject_recursive_types(T)]
pub struct ExChannelSender<T>(std::sync::mpsc::Sender<T>);

/// Calls `std::sync::mpsc::Sender::send`; what it returns (an error once the
/// receiving end is gone) is dropped, so nothing is promised.
#[verifier::external_body]
fn channel_send<T>(sender: &std::sync::mpsc::Sender<T>, message: T) {
    let _ = sender.send(message);
}

/// Shared sending end of the channel into the server's message loop.
#[verifier::reject_recursive_types(C)]
pub struct ServerMessageSender<C> {
    sender: Arc<std::sync::mpsc::Sender<ServerMessage<C>>>,
}

impl<C> Clone for ServerMessageSender<C> {
    fn clone(&self) -> (copy: Self)
        ensures
            copy.channel() == self.channel(),
    {
        ServerMessageSender { sender: Arc::clone(&self.sender) }
    }
}

impl<C> ServerMessageSender<C> {
    /// The channel end that this sender shares.
    pub closed spec fn channel(&self) -> std::sync::mpsc::Sender<ServerMessage<C>> {
        *self.sender
    }

    /// Wraps `sender` so that connections can share it.
    pub fn new(sender: std::sync::mpsc::Sender<ServerMessage<C>>) -> (s: Self)
        ensures
            s.channel() == sender,
    {
        ServerMessageSender { sender: Arc::new(sender) }
    }

    /// Hands `server_message` to the message loop; a closed loop drops it.
    pub fn send(&self, server_message: ServerMessage<C>) {
        channel_send(&*self.sender, server_message);
    }
}

/// What the message loop does with a message.
pub enum Route<C> {
    /// Give the decoded packet from `Client` to the packet handler.
    Dispatch(Client<C>, Packet),
    /// Report that the bytes from `Client` are no packet.
    Undecodable(Client<C>, WireError),
    /// Remove `Client` from the connected clients.
    Remove(Client<C>),
}

/// Decides what the message loop does with `message`: packet bytes are
/// decoded and dispatched, or reported when they are no packet; a departed
/// client is removed.
pub fn route<C>(message: ServerMessage<C>) -> (r: Route<C>)
    ensures
        match message {
            ServerMessage::HandlePacket(c, bytes) => match decode_packet(bytes@) {
                Ok(p) => r matches Route::Dispatch(c2, q) && c2 == c && q.model() == p,
                Err(e) => r == Route::Undecodable(c, e),
            },
            ServerMessage::Disconnect(c) => r == Route::Remove(c),
        },
{
    match message {
        ServerMessage::HandlePacket(io_client, bytes) => match deserialize(bytes.as_slice()) {
            Ok(packet) => Route::Dispatch(io_client, packet),
            Err(err) => Route::Undecodable(io_client, err),
        },
        ServerMessage::Disconnect(io_client) => Route::Remove(io_client),
    }
}

} // verus!
