//! The wire messages, as values: what a client sends and what the server sends back.
//!
//! The JSON form (a `type` tag in snake case, snake-case fields, lower-case device types)
//! is written and read by the embedding program.

use vstd::prelude::*;

verus! {

/// Relies on `serde_json::Value`: an opaque JSON tree, carried through unchanged.
#[verifier::external_type_specification]
#[verifier::external_body]
pub struct ExJsonValue(serde_json::Value);

/// Device category reported by a peer; informational only.
#[derive(Clone, Copy, Debug, PartialEq, Eq, Structural)]
pub enum DeviceType {
    Phone,
    Tablet,
    Laptop,
    Desktop,
}

/// The public, shareable description of a peer.
#[derive(Clone, Debug)]
pub struct PeerData {
    pub peer_code: String,
    pub device_name: String,
    pub device_type: DeviceType,
}

impl PeerData {
    /// A field-for-field copy.
    pub fn duplicate(&self) -> (r: PeerData)
        ensures
            r == *self,
    {
        PeerData {
            peer_code: self.peer_code.clone(),
            device_name: self.device_name.clone(),
            device_type: self.device_type,
        }
    }
}

/// Messages from a client to the server.
#[derive(Debug)]
pub enum ClientMessage {
    /// The first message of every connection.
    Register { peer_code: String, device_name: String, device_type: DeviceType },
    /// An opaque payload to relay to the peer registered as `to`.
    Signal { to: String, payload: serde_json::Value },
    /// Keepalive; does nothing.
    Ping,
}

/// Messages from the server to a client.
#[derive(Debug)]
pub enum ServerMessage {
    /// The room's members before this peer joined; sent once, on registration.
    Peers { peers: Vec<PeerData> },
    /// A peer joined the room.
    PeerJoined { peer: PeerData },
    /// A peer left the room.
    PeerLeft { peer_code: String },
    /// A payload relayed from the peer `from`.
    Signal { from: String, payload: serde_json::Value },
    /// A refused message, described in words.
    Error { message: String },
}

/// An `Error` message whose text is `message`.
pub open spec fn is_error_with(m: ServerMessage, message: Seq<char>) -> bool {
    match m {
        ServerMessage::Error { message: t } => t@ == message,
        _ => false,
    }
}

impl ServerMessage {
    /// An `Error` message with the given text.
    pub fn error(message: String) -> (r: ServerMessage)
        ensures
            is_error_with(r, message@),
    {
        ServerMessage::Error { message }
    }
}

} // verus!
