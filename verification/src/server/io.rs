//! Connected clients and the lines that they send.

use vstd::prelude::*;
use crate::framing::{trimmed, trunc_message};

verus! {

#[verifier::external_type_specification]
#[verifier::external_body]
pub struct ExIoError(std::io::Error);

/// Number that the server gave a connection.
#[derive(Debug, Clone, Copy)]
pub struct ClientId(pub usize);

/// A connected client: its number and the connection that reaches it.
#[derive(Clone)]
pub struct Client<C> {
    pub id: ClientId,
    pub connection: C,
}

impl<C> Client<C> {
    /// The client numbered `id` that `connection` reaches.
    pub fn new(id: ClientId, connection: C) -> (client: Self)
        ensures
            client.id.0 == id.0,
            client.connection == connection,
    {
        Client { id, connection }
    }
}

/// One line read from a client: its bytes without the line ending, nothing
/// when the line is empty or the stream ended, or the read error.
#[derive(Debug)]
pub struct Message {
    pub content: Result<Option<Vec<u8>>, std::io::Error>,
}

/// What the server does with a line read from a client.
#[derive(Debug)]
pub enum Delivery {
    /// Hand the packet bytes to the packet handler and keep listening.
    Forward(Vec<u8>),
    /// Stop listening: the stream ended or the line was empty.
    EndOfStream,
    /// Shut the connection down after the read error.
    Failed(std::io::Error),
}

impl Delivery {
    /// Whether the server keeps listening to the client afterwards.
    pub fn keeps_listening(&self) -> (b: bool)
        ensures
            b <==> self is Forward,
    {
        match self {
            Delivery::Forward(_) => true,
            _ => false,
        }
    }
}

impl Message {
    /// The message for a line read into `response`, where `length` is what
    /// the read returned: a line longer than its `\n` carries bytes, a
    /// shorter one (or the end of the stream) carries none.
    pub fn parse_next_line(length: Result<usize, std::io::Error>, response: Vec<u8>) -> (m: Self)
        ensures
            match length {
                Ok(l) => if l > 1 {
                    m.content matches Ok(Some(v)) && v@ == trimmed(response@)
                } else {
                    m.content matches Ok(None)
                },
                Err(e) => m.content == Err::<Option<Vec<u8>>, std::io::Error>(e),
            },
    {
        Message {
            content: match length {
                Ok(length) => if length > 1 {
                    Ok(Some(trunc_message(response)))
                } else {
                    Ok(None)
                },
                Err(err) => Err(err),
            },
        }
    }

    /// What the server does with this line.
    pub fn into_delivery(self) -> (d: Delivery)
        ensures
            match self.content {
                Ok(Some(v)) => d matches Delivery::Forward(w) && w@ == v@,
                Ok(None) => d is EndOfStream,
                Err(e) => d == Delivery::Failed(e),
            },
    {
        match self.content {
            Ok(Some(bytes)) => Delivery::Forward(bytes),
            Ok(None) => Delivery::EndOfStream,
            Err(err) => Delivery::Failed(err),
        }
    }
}

} // verus!
