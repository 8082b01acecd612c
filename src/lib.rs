//! Rendezvous and relay server core: message model, origin rooms, per-connection
//! rate limiting and the connection state machine.

pub mod text;
pub mod protocol;
pub mod limits;
pub mod origin;
pub mod rate;
pub mod room;
pub mod connection;
pub mod cli;
