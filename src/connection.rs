//! One connection's life: registration, relay, rate limiting and teardown.
//!
//! The embedding program reads frames, decodes text frames, and hands each one to
//! [`Connection::on_frame`] with the time; it then performs the returned [`Reaction`].

use vstd::prelude::*;
use crate::limits::{
    validate_device_name, validate_message_size, validate_peer_code, validate_signal_target,
    is_valid_code, code_fault, byte_len, message_too_large_text, device_name_too_long_text,
    peer_code_fault_text, target_fault_text, MAX_MESSAGE_BYTES, MAX_DEVICE_NAME_BYTES,
};
use crate::protocol::{ClientMessage, DeviceType, PeerData, ServerMessage, is_error_with};
use crate::rate::{RateLimit, checked, fresh_window};
use crate::room::{
    ConnId, Delivery, PeerInfo, RoomManager, Rooms, data_of, has_code, join_notices, joined,
    left, leave_notices, public_data, reachable, registered_at, room_of, without_code,
    duplicate_code_text,
};
use crate::text::{joined as concat, joined3};

verus! {

/// One inbound frame, as the transport delivered it.
#[derive(Debug)]
pub enum Frame {
    /// A text frame: its length in bytes and what decoding it as a client message gave.
    Text { len: usize, message: Result<ClientMessage, String> },
    /// A binary frame; the protocol is text only.
    Binary,
    /// Ping, pong and other frames the transport handles itself.
    Control,
    /// A close frame, the end of the stream, or a read error.
    End,
}

/// Where a connection stands.
#[derive(Debug)]
pub enum Phase {
    /// Waiting for a valid `Register`.
    Registering,
    /// Registered under `peer_code`.
    Active { peer_code: String },
    /// Torn down; nothing more is done.
    Closed,
}

/// A signal to relay to the connection `conn`, whose peer was looked up as `target`.
#[derive(Debug)]
pub struct Relay {
    pub conn: ConnId,
    pub target: String,
    pub message: ServerMessage,
}

/// What to do after a frame: deliver these messages in order, relay at most one signal,
/// and whether to close the connection.
#[derive(Debug)]
pub struct Reaction {
    pub deliveries: Vec<Delivery>,
    pub relay: Option<Relay>,
    pub close: bool,
}

/// One connection's state.
#[derive(Debug)]
pub struct Connection {
    /// The origin key, which names the room.
    pub origin: String,
    /// This connection's own id, for replies.
    pub conn: ConnId,
    /// This connection's rate window.
    pub limiter: RateLimit,
    pub phase: Phase,
}

/// Nothing to send, no relay.
pub open spec fn is_quiet(r: Reaction, close: bool) -> bool {
    r.deliveries@.len() == 0 && r.relay is None && r.close == close
}

/// Exactly one `Error` with text `text`, to `conn`.
pub open spec fn is_lone_error(r: Reaction, conn: ConnId, text: Seq<char>, close: bool) -> bool {
    &&& r.deliveries@.len() == 1
    &&& r.deliveries@[0].conn == conn
    &&& is_error_with(r.deliveries@[0].message, text)
    &&& r.relay is None
    &&& r.close == close
}

/// The teardown of `s`: a registered peer leaves its room and its members are told.
pub open spec fn torn_down(s: Connection, m: Rooms, m2: Rooms, r: Reaction) -> bool {
    &&& r.close
    &&& r.relay is None
    &&& match s.phase {
        Phase::Active { peer_code } => {
            &&& m2 == left(m, s.origin@, peer_code@)
            &&& m.contains_key(s.origin@) ==> leave_notices(r.deliveries@, without_code(m[s.origin@], peer_code@), peer_code@)
            &&& !m.contains_key(s.origin@) ==> r.deliveries@.len() == 0
        },
        _ => m2 == m && r.deliveries@.len() == 0,
    }
}

/// The error text for a message that could not be decoded.
pub open spec fn malformed_text(e: Seq<char>) -> Seq<char> {
    "malformed message: "@ + e
}

/// The error text for a signal target with no registered peer.
pub open spec fn not_found_text(to: Seq<char>) -> Seq<char> {
    "peer '"@ + to + "' not found"@
}

/// The error text for a signal target whose queue is gone.
pub open spec fn unreachable_text(to: Seq<char>) -> Seq<char> {
    "peer '"@ + to + "' is no longer connected"@
}

/// The room entry a `Register` creates on connection `conn`.
pub open spec fn entry_of(code: String, name: String, ty: DeviceType, conn: ConnId) -> PeerInfo {
    PeerInfo { peer_code: code, device_name: name, device_type: ty, conn }
}

/// A `Peers` message listing `peers`.
pub open spec fn is_peers_with(m: ServerMessage, peers: Seq<PeerData>) -> bool {
    match m {
        ServerMessage::Peers { peers: p } => p@ == peers,
        _ => false,
    }
}

/// The outcome of a decoded `Register` while registering: a device name that is too
/// long is refused and registration goes on; a malformed code or one taken in the room
/// is refused and the connection closes untouched; otherwise the peer joins, the members
/// are told, and the new peer gets the members from before.
pub open spec fn register_outcome(
    s: Connection,
    m: Rooms,
    code: String,
    name: String,
    ty: DeviceType,
    s2: Connection,
    m2: Rooms,
    r: Reaction,
) -> bool {
    let room = room_of(m, s.origin@);
    let entry = entry_of(code, name, ty, s.conn);
    if byte_len(name@) > MAX_DEVICE_NAME_BYTES {
        is_lone_error(r, s.conn, device_name_too_long_text(byte_len(name@)), false) && m2 == m && s2 == s
    } else if !is_valid_code(code@) {
        &&& is_lone_error(r, s.conn, peer_code_fault_text(code_fault(code@)->Some_0), true)
        &&& m2 == m
        &&& s2 == (Connection { phase: Phase::Closed, ..s })
    } else if has_code(room, code@) {
        &&& is_lone_error(r, s.conn, duplicate_code_text(code@), true)
        &&& m2 == m
        &&& s2 == (Connection { phase: Phase::Closed, ..s })
    } else {
        &&& m2 == joined(m, s.origin@, entry)
        &&& r.deliveries@.len() == room.len() + 1
        &&& r.deliveries@.subrange(0, room.len() as int) == join_notices(room, data_of(entry))
        &&& r.deliveries@[room.len() as int].conn == s.conn
        &&& is_peers_with(r.deliveries@[room.len() as int].message, public_data(room))
        &&& r.relay is None
        &&& !r.close
        &&& s2 == (Connection { phase: Phase::Active { peer_code: code }, ..s })
    }
}

/// The outcome of a decoded message while registered as `me`: a signal to a malformed
/// target or to a code nobody holds is refused; otherwise it is relayed, unchanged, to a
/// connection registered under the target code. `Ping` does nothing; a second `Register`
/// is refused.
pub open spec fn active_outcome(s: Connection, m: Rooms, me: String, msg: ClientMessage, r: Reaction) -> bool {
    match msg {
        ClientMessage::Signal { to, payload } => {
            if !is_valid_code(to@) {
                is_lone_error(r, s.conn, target_fault_text(code_fault(to@)->Some_0, byte_len(to@)), false)
            } else if !reachable(m, to@) {
                is_lone_error(r, s.conn, not_found_text(to@), false)
            } else {
                &&& r.deliveries@.len() == 0
                &&& !r.close
                &&& r.relay is Some
                &&& registered_at(m, to@, r.relay->Some_0.conn)
                &&& r.relay->Some_0.target@ == to@
                &&& r.relay->Some_0.message == (ServerMessage::Signal { from: me, payload })
            }
        },
        ClientMessage::Ping => is_quiet(r, false),
        ClientMessage::Register { .. } => is_lone_error(r, s.conn, "already registered"@, false),
    }
}

/// The outcome of one frame. A closed connection ignores everything. Other frames:
/// control frames are absorbed; a binary frame is refused; the end of the stream tears
/// the connection down. A text frame first counts against the rate window (refused, or
/// torn down once violations reach the threshold), then against the size limit, then
/// must have decoded; a decoded message goes to registration or, once registered, to
/// relay handling.
pub open spec fn frame_outcome(
    s: Connection,
    m: Rooms,
    frame: Frame,
    now: u64,
    s2: Connection,
    m2: Rooms,
    r: Reaction,
) -> bool {
    let closed = Connection { phase: Phase::Closed, ..s };
    if s.phase is Closed {
        is_quiet(r, true) && s2 == s && m2 == m
    } else {
        match frame {
            Frame::Control => is_quiet(r, false) && s2 == s && m2 == m,
            Frame::Binary => is_lone_error(r, s.conn, "binary frames not accepted"@, false) && s2 == s && m2 == m,
            Frame::End => torn_down(s, m, m2, r) && s2 == closed,
            Frame::Text { len, message } => {
                let lim = checked(s.limiter, now).0;
                let verdict = checked(s.limiter, now).1;
                let s1 = Connection { limiter: lim, ..s };
                if verdict == Err::<(), bool>(true) {
                    torn_down(s, m, m2, r) && s2 == (Connection { phase: Phase::Closed, ..s1 })
                } else if verdict == Err::<(), bool>(false) {
                    is_lone_error(r, s.conn, "rate limited"@, false) && s2 == s1 && m2 == m
                } else if len > MAX_MESSAGE_BYTES {
                    is_lone_error(r, s.conn, message_too_large_text(len as nat), false) && s2 == s1 && m2 == m
                } else {
                    match message {
                        Err(e) => is_lone_error(r, s.conn, malformed_text(e@), false) && s2 == s1 && m2 == m,
                        Ok(msg) => match s.phase {
                            Phase::Active { peer_code } => active_outcome(s1, m, peer_code, msg, r) && s2 == s1
                                && m2 == m,
                            _ => match msg {
                                ClientMessage::Register { peer_code, device_name, device_type } =>
                                    register_outcome(s1, m, peer_code, device_name, device_type, s2, m2, r),
                                _ => is_lone_error(r, s.conn, "must send 'register' as first message"@, false)
                                    && s2 == s1 && m2 == m,
                            },
                        },
                    }
                }
            },
        }
    }
}

/// A reaction that is one `Error` to `conn`.
fn lone_error(conn: ConnId, text: String, close: bool) -> (r: Reaction)
    ensures
        is_lone_error(r, conn, text@, close),
{
    let mut deliveries: Vec<Delivery> = Vec::new();
    deliveries.push(Delivery { conn, message: ServerMessage::error(text) });
    Reaction { deliveries, relay: None, close }
}

/// A reaction with nothing to send.
fn quiet(close: bool) -> (r: Reaction)
    ensures
        is_quiet(r, close),
{
    Reaction { deliveries: Vec::new(), relay: None, close }
}

impl Connection {
    /// A connection from `origin` with id `conn`, waiting to register; its first rate
    /// window begins at `now`.
    pub fn new(origin: String, conn: ConnId, now: u64) -> (r: Connection)
        ensures
            r.origin == origin,
            r.conn == conn,
            r.limiter == fresh_window(now),
            r.phase is Registering,
    {
        Connection { origin, conn, limiter: RateLimit::new(now), phase: Phase::Registering }
    }

    /// Closes the connection; a registered peer leaves its room.
    fn teardown(&mut self, rooms: &mut RoomManager) -> (r: Reaction)
        requires
            old(rooms).wf(),
        ensures
            final(rooms).wf(),
            torn_down(*old(self), old(rooms)@, final(rooms)@, r),
            *final(self) == (Connection { phase: Phase::Closed, ..*old(self) }),
    {
        let registered = match &self.phase {
            Phase::Active { peer_code } => Some(peer_code.clone()),
            _ => None,
        };
        self.phase = Phase::Closed;
        match registered {
            Some(peer_code) => {
                let deliveries = rooms.remove_peer(self.origin.as_str(), peer_code.as_str());
                Reaction { deliveries, relay: None, close: true }
            },
            None => quiet(true),
        }
    }

    /// Handles a decoded `Register` while registering.
    fn register(
        &mut self,
        rooms: &mut RoomManager,
        peer_code: String,
        device_name: String,
        device_type: DeviceType,
    ) -> (r: Reaction)
        requires
            old(rooms).wf(),
            old(self).phase is Registering,
        ensures
            final(rooms).wf(),
            register_outcome(*old(self), old(rooms)@, peer_code, device_name, device_type, *final(self), final(rooms)@, r),
    {
        if let Err(e) = validate_device_name(device_name.as_str()) {
            return lone_error(self.conn, e, false);
        }
        if let Err(e) = validate_peer_code(peer_code.as_str()) {
            self.phase = Phase::Closed;
            return lone_error(self.conn, e, true);
        }
        let ghost before = rooms@;
        let ghost entry = entry_of(peer_code, device_name, device_type, self.conn);
        let code = peer_code.clone();
        let info = PeerInfo { peer_code, device_name, device_type, conn: self.conn };
        match rooms.add_peer(self.origin.as_str(), info) {
            Err(e) => {
                self.phase = Phase::Closed;
                lone_error(self.conn, e, true)
            },
            Ok(admission) => {
                let mut deliveries = admission.notices;
                let ghost notices = deliveries@;
                deliveries.push(Delivery { conn: self.conn, message: ServerMessage::Peers { peers: admission.peers } });
                assert(deliveries@.subrange(0, notices.len() as int) =~= notices);
                self.phase = Phase::Active { peer_code: code };
                Reaction { deliveries, relay: None, close: false }
            },
        }
    }

    /// Handles a decoded message while registered as `me`.
    fn on_active(&self, rooms: &RoomManager, me: String, msg: ClientMessage) -> (r: Reaction)
        ensures
            active_outcome(*self, rooms@, me, msg, r),
    {
        match msg {
            ClientMessage::Signal { to, payload } => {
                if let Err(e) = validate_signal_target(to.as_str()) {
                    return lone_error(self.conn, e, false);
                }
                match rooms.find_peer(to.as_str()) {
                    None => lone_error(self.conn, joined3("peer '", to.as_str(), "' not found"), false),
                    Some(target) => {
                        let message = ServerMessage::Signal { from: me, payload };
                        Reaction {
                            deliveries: Vec::new(),
                            relay: Some(Relay { conn: target, target: to, message }),
                            close: false,
                        }
                    },
                }
            },
            ClientMessage::Ping => quiet(false),
            ClientMessage::Register { .. } => lone_error(self.conn, "already registered".to_owned(), false),
        }
    }

    /// What to do when `relay` could not be put on its target's queue because that
    /// connection is gone: one `Error` back to this connection, which stays open.
    pub fn on_relay_failed(&self, relay: &Relay) -> (r: Reaction)
        ensures
            is_lone_error(r, self.conn, unreachable_text(relay.target@), false),
    {
        lone_error(self.conn, joined3("peer '", relay.target.as_str(), "' is no longer connected"), false)
    }

    /// Handles one inbound frame at time `now` (milliseconds) and says what to send.
    pub fn on_frame(&mut self, rooms: &mut RoomManager, frame: Frame, now: u64) -> (r: Reaction)
        requires
            old(rooms).wf(),
        ensures
            final(rooms).wf(),
            frame_outcome(*old(self), old(rooms)@, frame, now, *final(self), final(rooms)@, r),
    {
        if let Phase::Closed = self.phase {
            return quiet(true);
        }
        match frame {
            Frame::Control => quiet(false),
            Frame::Binary => lone_error(self.conn, "binary frames not accepted".to_owned(), false),
            Frame::End => self.teardown(rooms),
            Frame::Text { len, message } => {
                match self.limiter.check(now) {
                    Err(true) => return self.teardown(rooms),
                    Err(false) => return lone_error(self.conn, "rate limited".to_owned(), false),
                    Ok(()) => {},
                }
                if let Err(e) = validate_message_size(len) {
                    return lone_error(self.conn, e, false);
                }
                let msg = match message {
                    Err(e) => {
                        return lone_error(self.conn, concat("malformed message: ", e.as_str()), false);
                    },
                    Ok(msg) => msg,
                };
                let me = match &self.phase {
                    Phase::Active { peer_code } => Some(peer_code.clone()),
                    _ => None,
                };
                match me {
                    Some(me) => self.on_active(rooms, me, msg),
                    None => match msg {
                        ClientMessage::Register { peer_code, device_name, device_type } => {
                            self.register(rooms, peer_code, device_name, device_type)
                        },
                        _ => lone_error(
                            self.conn,
                            "must send 'register' as first message".to_owned(),
                            false,
                        ),
                    },
                }
            },
        }
    }
}

/// A `Register` whose code is not 1 to 16 letters and digits never reaches the
/// registry: the rooms stay as they were and the connection closes.
pub proof fn lemma_invalid_code_rejected(
    s: Connection,
    m: Rooms,
    code: String,
    name: String,
    ty: DeviceType,
    s2: Connection,
    m2: Rooms,
    r: Reaction,
)
    requires
        register_outcome(s, m, code, name, ty, s2, m2, r),
        !is_valid_code(code@),
    ensures
        m2 == m,
        byte_len(name@) <= MAX_DEVICE_NAME_BYTES ==> r.close && s2.phase is Closed,
{
}

/// An oversized text frame that the rate window allows gets exactly one `Error` back;
/// the connection stays open, in the phase it was in, and the rooms do not change.
pub proof fn lemma_oversized_keeps_connection(
    s: Connection,
    m: Rooms,
    len: usize,
    message: Result<ClientMessage, String>,
    now: u64,
    s2: Connection,
    m2: Rooms,
    r: Reaction,
)
    requires
        frame_outcome(s, m, Frame::Text { len, message }, now, s2, m2, r),
        !(s.phase is Closed),
        checked(s.limiter, now).1 is Ok,
        len > MAX_MESSAGE_BYTES,
    ensures
        is_lone_error(r, s.conn, message_too_large_text(len as nat), false),
        s2.phase == s.phase,
        m2 == m,
{
}

/// A relayed signal carries the sender's code and the payload exactly as it came.
pub proof fn lemma_relay_keeps_payload(
    s: Connection,
    m: Rooms,
    me: String,
    to: String,
    payload: serde_json::Value,
    r: Reaction,
)
    requires
        active_outcome(s, m, me, ClientMessage::Signal { to, payload }, r),
        is_valid_code(to@),
        reachable(m, to@),
    ensures
        r.relay is Some,
        r.relay->Some_0.message == (ServerMessage::Signal { from: me, payload }),
        r.deliveries@.len() == 0,
{
}

} // verus!
