use std::io;

use tcp_packet::client::message::Message as Request;
use tcp_packet::client::packet_manager::read_packet_line;
use tcp_packet::client::state::{step, ClientAction, ClientEvent, ConnectionState};
use tcp_packet::framing::{frame_packet, trunc_message};
use tcp_packet::packet::Packet;
use tcp_packet::server::io::{Client, ClientId, Delivery, Message};
use tcp_packet::server::network::{farewell_message, respond, PacketResponse};
use tcp_packet::server::server::Server;
use tcp_packet::server::server_manager::ServerManager;
use tcp_packet::server::server_message::{route, Route, ServerMessage, ServerMessageSender};
use tcp_packet::server::transporter::TransporterStatus;
use tcp_packet::wire::WireError;

fn client(id: usize, tag: &'static str) -> Client<&'static str> {
    Client::new(ClientId(id), tag)
}

#[test]
fn trunc_message_drops_line_endings() {
    assert_eq!(trunc_message(b"abc\r\n".to_vec()), b"abc".to_vec());
    assert_eq!(trunc_message(b"abc\n".to_vec()), b"abc".to_vec());
    assert_eq!(trunc_message(b"abc\r".to_vec()), b"abc\r".to_vec());
    assert_eq!(trunc_message(b"\r\n".to_vec()), Vec::<u8>::new());
    assert_eq!(trunc_message(b"\n\n".to_vec()), b"\n".to_vec());
    assert_eq!(trunc_message(Vec::new()), Vec::<u8>::new());
}

#[test]
fn frame_then_trunc_gives_back_the_packet() {
    let p = Packet { packet_type: 1, value: vec![4, 5] };
    let line = frame_packet(&p);
    assert_eq!(line, vec![0x08, 0x01, 0x12, 0x02, 4, 5, b'\r', b'\n']);
    let back = read_packet_line(line).unwrap();
    assert_eq!(back.packet_type, 1);
    assert_eq!(back.value, vec![4, 5]);
}

#[test]
fn read_packet_line_reports_errors() {
    assert_eq!(read_packet_line(vec![0x08, b'\n']).unwrap_err(), WireError::InvalidVarint);
}

#[test]
fn parse_next_line_cases() {
    let m = Message::parse_next_line(Ok(4), b"ab\r\n".to_vec());
    assert_eq!(m.content.unwrap(), Some(b"ab".to_vec()));
    let m = Message::parse_next_line(Ok(1), b"\n".to_vec());
    assert_eq!(m.content.unwrap(), None);
    let m = Message::parse_next_line(Ok(0), Vec::new());
    assert_eq!(m.content.unwrap(), None);
    let m = Message::parse_next_line(Err(io::Error::new(io::ErrorKind::Other, "boom")), b"x".to_vec());
    assert_eq!(m.content.unwrap_err().to_string(), "boom");
}

#[test]
fn deliveries() {
    let d = Message::parse_next_line(Ok(3), b"a\r\n".to_vec()).into_delivery();
    assert!(d.keeps_listening());
    assert!(matches!(d, Delivery::Forward(ref v) if v == b"a"));
    let d = Message::parse_next_line(Ok(1), b"\n".to_vec()).into_delivery();
    assert!(!d.keeps_listening());
    assert!(matches!(d, Delivery::EndOfStream));
    let d = Message::parse_next_line(Err(io::Error::new(io::ErrorKind::Other, "x")), vec![]).into_delivery();
    assert!(!d.keeps_listening());
    assert!(matches!(d, Delivery::Failed(_)));
}

#[test]
fn manager_numbers_and_lists_clients() {
    let mut m: ServerManager<&'static str> = ServerManager::new();
    assert_eq!(m.next_id(), 1);
    assert_eq!(m.next_id(), 2);
    m.add_client(client(1, "a"));
    m.add_client(client(2, "b"));
    m.add_client(client(1, "c"));
    m.remove_client(&client(1, "x"));
    let left: Vec<&str> = m.clients.iter().map(|c| c.connection).collect();
    assert_eq!(left, vec!["b", "c"]);
    m.remove_client(&client(9, "x"));
    assert_eq!(m.clients.len(), 2);
    assert_eq!(m.next_id(), 3);
    let d: ServerManager<&'static str> = Default::default();
    assert!(d.clients.is_empty());
}

#[test]
fn add_then_remove_restores_the_list() {
    let mut m: ServerManager<&'static str> = ServerManager::new();
    m.add_client(client(1, "a"));
    m.add_client(client(7, "b"));
    m.remove_client(&client(7, "b"));
    let ids: Vec<usize> = m.clients.iter().map(|c| c.id.0).collect();
    assert_eq!(ids, vec![1]);
}

#[test]
fn route_messages() {
    match route(ServerMessage::HandlePacket(client(3, "a"), vec![0x08, 0x01])) {
        Route::Dispatch(c, p) => {
            assert_eq!(c.id.0, 3);
            assert_eq!(p.packet_type, 1);
        }
        _ => panic!("expected a dispatch"),
    }
    match route(ServerMessage::HandlePacket(client(3, "a"), vec![0x00])) {
        Route::Undecodable(c, e) => {
            assert_eq!(c.id.0, 3);
            assert_eq!(e, WireError::InvalidKey);
        }
        _ => panic!("expected an error"),
    }
    match route(ServerMessage::Disconnect(client(4, "b"))) {
        Route::Remove(c) => assert_eq!(c.id.0, 4),
        _ => panic!("expected a removal"),
    }
}

#[test]
fn sender_reaches_the_loop() {
    let (tx, rx) = std::sync::mpsc::channel();
    let sender: ServerMessageSender<&'static str> = ServerMessageSender::new(tx);
    let copy = sender.clone();
    copy.send(ServerMessage::Disconnect(client(5, "z")));
    match rx.recv().unwrap() {
        ServerMessage::Disconnect(c) => assert_eq!(c.id.0, 5),
        _ => panic!("expected a disconnect"),
    }
    drop(rx);
    sender.send(ServerMessage::Disconnect(client(6, "z")));
}

#[test]
fn transporter_status() {
    assert!(TransporterStatus::Active.is_active());
    assert!(!TransporterStatus::Stopped.is_active());
}

#[test]
fn bind_address() {
    let s = Server::new(String::from("0.0.0.0"), 3000, ());
    assert_eq!(s.bind_addr(), "0.0.0.0:3000");
    assert!(s.is_on());
    let t = Server::new(String::from("localhost"), 0, 5u8);
    assert_eq!(t.bind_addr(), "localhost:0");
    assert_eq!(*t.server_manager(), 5u8);
    assert_eq!(Server::new(String::new(), 65535, ()).bind_addr(), ":65535");
}

#[test]
fn server_responses() {
    assert_eq!(respond(&Packet { packet_type: 0, value: vec![] }), PacketResponse::Acknowledge);
    assert_eq!(respond(&Packet { packet_type: 1, value: vec![] }), PacketResponse::Farewell);
    assert_eq!(respond(&Packet { packet_type: 99, value: vec![] }), PacketResponse::Acknowledge);
    assert_eq!(farewell_message(), "See you next time!");
}

#[test]
fn ping_request_sends_an_empty_packet_line() {
    assert_eq!(Request::Ping.outgoing(), Some(b"\r\n".to_vec()));
    assert_eq!(Request::Connected.outgoing(), None);
    assert_eq!(Request::Disconnected.outgoing(), None);
}

#[test]
fn client_state_machine() {
    let s = ConnectionState::Disconnected;
    let (s, a) = step(s, ClientEvent::ConnectFailed);
    assert_eq!(s, ConnectionState::Disconnected);
    assert!(matches!(a, ClientAction::RetryLater));
    let (s, a) = step(s, ClientEvent::ConnectSucceeded);
    assert_eq!(s, ConnectionState::Connected);
    assert!(matches!(a, ClientAction::AnnounceConnected));
    let (s, a) = step(s, ClientEvent::LineRead(vec![0x08, 0x01, b'\r', b'\n'], Ok(4)));
    assert_eq!(s, ConnectionState::Connected);
    assert!(matches!(a, ClientAction::DeliverPacket(ref p) if p.packet_type == 1));
    let (s, a) = step(s, ClientEvent::LineRead(vec![0x00, b'\n'], Ok(2)));
    assert_eq!(s, ConnectionState::Connected);
    assert!(matches!(a, ClientAction::DiscardLine(WireError::InvalidKey)));
    let (s, a) = step(s, ClientEvent::MessageReceived(Some(Request::Ping)));
    assert!(matches!(a, ClientAction::Send(ref l) if l == b"\r\n"));
    let (s, a) = step(s, ClientEvent::MessageReceived(None));
    assert!(matches!(a, ClientAction::Nothing));
    let (s, a) = step(s, ClientEvent::SendCompleted(Ok(2)));
    assert_eq!(s, ConnectionState::Connected);
    assert!(matches!(a, ClientAction::Nothing));
    let (s, a) = step(s, ClientEvent::SendCompleted(Err(io::Error::new(io::ErrorKind::Other, "w"))));
    assert_eq!(s, ConnectionState::Disconnected);
    assert!(matches!(a, ClientAction::Disconnect(_)));
    let (s, _) = step(s, ClientEvent::ConnectSucceeded);
    let (s, a) = step(s, ClientEvent::LineRead(vec![], Err(io::Error::new(io::ErrorKind::Other, "r"))));
    assert_eq!(s, ConnectionState::Disconnected);
    assert!(matches!(a, ClientAction::Disconnect(_)));
}
