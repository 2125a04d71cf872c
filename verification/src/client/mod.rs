//! The TCP client's decisions.

pub mod message;
pub mod packet_manager;
pub mod state;
