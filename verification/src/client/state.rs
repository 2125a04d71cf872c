//! The client's connection as a state machine: the caller performs each
//! action (connect, wait, read, write, notify) and reports what came of it.

use vstd::prelude::*;
use crate::client::message::{ping_request_packet, Message};
use crate::client::packet_manager::read_packet_line;
use crate::framing::{framed, trimmed};
use crate::packet::{decode_packet, encode_packet, Packet};
use crate::wire::WireError;

verus! {

/// Whether the client holds a connection to the server.
#[derive(Debug, Clone, Copy, PartialEq, Eq, Structural)]
pub enum ConnectionState {
    Disconnected,
    Connected,
}

/// What happened since the last step.
#[derive(Debug)]
pub enum ClientEvent {
    /// A connection to the server was opened.
    ConnectSucceeded,
    /// The server could not be reached.
    ConnectFailed,
    /// A line was read: its bytes and what the read returned.
    LineRead(Vec<u8>, Result<usize, std::io::Error>),
    /// A request arrived from the user, or the request channel closed.
    MessageReceived(Option<Message>),
    /// A line was written: what the write returned.
    SendCompleted(Result<usize, std::io::Error>),
}

/// What the caller does next.
#[derive(Debug)]
pub enum ClientAction {
    Nothing,
    /// Tell the user that the client is connected (with a way to send requests).
    AnnounceConnected,
    /// Wait before telling the user that the client is still disconnected.
    RetryLater,
    /// Hand the received packet to the user.
    DeliverPacket(Packet),
    /// Report a line that carries no packet and drop it.
    DiscardLine(WireError),
    /// Write the line to the server.
    Send(Vec<u8>),
    /// Report the error and tell the user that the client is disconnected.
    Disconnect(std::io::Error),
}

/// Next state and action after `event`.
pub fn step(state: ConnectionState, event: ClientEvent) -> (res: (ConnectionState, ClientAction))
    ensures
        match event {
            ClientEvent::ConnectSucceeded => res.0 == ConnectionState::Connected && res.1 is AnnounceConnected,
            ClientEvent::ConnectFailed => res.0 == ConnectionState::Disconnected && res.1 is RetryLater,
            ClientEvent::LineRead(content, Ok(_)) => res.0 == state && match decode_packet(trimmed(content@)) {
                Ok(p) => res.1 matches ClientAction::DeliverPacket(q) && q.model() == p,
                Err(e) => res.1 == ClientAction::DiscardLine(e),
            },
            ClientEvent::LineRead(_, Err(e)) => res.0 == ConnectionState::Disconnected && res.1
                == ClientAction::Disconnect(e),
            ClientEvent::MessageReceived(Some(Message::Ping)) => res.0 == state && (res.1 matches ClientAction::Send(line)
                && line@ == framed(encode_packet(ping_request_packet()))),
            ClientEvent::MessageReceived(_) => res.0 == state && res.1 is Nothing,
            ClientEvent::SendCompleted(Ok(_)) => res.0 == state && res.1 is Nothing,
            ClientEvent::SendCompleted(Err(e)) => res.0 == ConnectionState::Disconnected && res.1
                == ClientAction::Disconnect(e),
        },
{
    match event {
        ClientEvent::ConnectSucceeded => (ConnectionState::Connected, ClientAction::AnnounceConnected),
        ClientEvent::ConnectFailed => (ConnectionState::Disconnected, ClientAction::RetryLater),
        ClientEvent::LineRead(content, Ok(_)) => match read_packet_line(content) {
            Ok(packet) => (state, ClientAction::DeliverPacket(packet)),
            Err(err) => (state, ClientAction::DiscardLine(err)),
        },
        ClientEvent::LineRead(_, Err(err)) => (ConnectionState::Disconnected, ClientAction::Disconnect(err)),
        ClientEvent::MessageReceived(Some(message)) => match message.outgoing() {
            Some(line) => (state, ClientAction::Send(line)),
            None => (state, ClientAction::Nothing),
        },
        ClientEvent::MessageReceived(None) => (state, ClientAction::Nothing),
        ClientEvent::SendCompleted(Ok(_)) => (state, ClientAction::Nothing),
        ClientEvent::SendCompleted(Err(err)) => (ConnectionState::Disconnected, ClientAction::Disconnect(err)),
    }
}

} // verus!
