//! The TCP server's decisions and bookkeeping.

pub mod io;
pub mod network;
pub mod server;
pub mod server_manager;
pub mod server_message;
pub mod transporter;
