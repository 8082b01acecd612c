use localbolt_signal::connection::{Connection, Frame, Phase, Reaction};
use localbolt_signal::limits::MAX_MESSAGE_BYTES;
use localbolt_signal::protocol::{ClientMessage, DeviceType, ServerMessage};
use localbolt_signal::room::RoomManager;

fn register(code: &str, name: &str) -> Frame {
    Frame::Text {
        len: 90,
        message: Ok(ClientMessage::Register {
            peer_code: code.to_string(),
            device_name: name.to_string(),
            device_type: DeviceType::Laptop,
        }),
    }
}

fn signal(to: &str, payload: serde_json::Value) -> Frame {
    Frame::Text { len: 60, message: Ok(ClientMessage::Signal { to: to.to_string(), payload }) }
}

fn sample_payload() -> serde_json::Value {
    serde_json::from_str(r#"{"sdp":"offer-data","candidates":[1,2,3]}"#).unwrap()
}

fn lone_error(r: &Reaction, conn: u64) -> String {
    assert_eq!(r.deliveries.len(), 1);
    assert!(r.relay.is_none());
    assert_eq!(r.deliveries[0].conn, conn);
    match &r.deliveries[0].message {
        ServerMessage::Error { message } => message.clone(),
        other => panic!("expected Error, got {:?}", other),
    }
}

fn is_active(c: &Connection, code: &str) -> bool {
    matches!(&c.phase, Phase::Active { peer_code } if peer_code == code)
}

/// ALPHA then BETA register in room X; returns the two connections.
fn two_peers(rooms: &mut RoomManager) -> (Connection, Connection) {
    let mut alpha = Connection::new("X".to_string(), 1, 0);
    let mut beta = Connection::new("X".to_string(), 2, 0);
    alpha.on_frame(rooms, register("ALPHA", "Alpha"), 0);
    beta.on_frame(rooms, register("BETA", "Beta"), 0);
    (alpha, beta)
}

#[test]
fn scenario_first_and_second_registration() {
    let mut rooms = RoomManager::new();
    let mut alpha = Connection::new("X".to_string(), 1, 0);
    let r = alpha.on_frame(&mut rooms, register("ALPHA", "Alpha"), 0);
    assert!(!r.close);
    assert_eq!(r.deliveries.len(), 1);
    assert_eq!(r.deliveries[0].conn, 1);
    match &r.deliveries[0].message {
        ServerMessage::Peers { peers } => assert!(peers.is_empty()),
        other => panic!("expected Peers, got {:?}", other),
    }
    assert!(is_active(&alpha, "ALPHA"));

    let mut beta = Connection::new("X".to_string(), 2, 0);
    let r = beta.on_frame(&mut rooms, register("BETA", "Beta"), 0);
    assert!(!r.close);
    assert_eq!(r.deliveries.len(), 2);
    assert_eq!(r.deliveries[0].conn, 1);
    match &r.deliveries[0].message {
        ServerMessage::PeerJoined { peer } => {
            assert_eq!(peer.peer_code, "BETA");
            assert_eq!(peer.device_name, "Beta");
            assert_eq!(peer.device_type, DeviceType::Laptop);
        }
        other => panic!("expected PeerJoined, got {:?}", other),
    }
    assert_eq!(r.deliveries[1].conn, 2);
    match &r.deliveries[1].message {
        ServerMessage::Peers { peers } => {
            assert_eq!(peers.len(), 1);
            assert_eq!(peers[0].peer_code, "ALPHA");
        }
        other => panic!("expected Peers, got {:?}", other),
    }
    assert_eq!(rooms.peer_count(), 2);
}

#[test]
fn scenario_signal_relayed_unchanged() {
    let mut rooms = RoomManager::new();
    let (_alpha, mut beta) = two_peers(&mut rooms);
    let r = beta.on_frame(&mut rooms, signal("ALPHA", sample_payload()), 1);
    assert!(!r.close);
    assert!(r.deliveries.is_empty());
    let relay = r.relay.expect("a relay");
    assert_eq!(relay.conn, 1);
    assert_eq!(relay.target, "ALPHA");
    match relay.message {
        ServerMessage::Signal { from, payload } => {
            assert_eq!(from, "BETA");
            assert_eq!(payload, sample_payload());
        }
        other => panic!("expected Signal, got {:?}", other),
    }
}

#[test]
fn scenario_disconnects_empty_the_room() {
    let mut rooms = RoomManager::new();
    let (mut alpha, mut beta) = two_peers(&mut rooms);
    let r = alpha.on_frame(&mut rooms, Frame::End, 1);
    assert!(r.close);
    assert_eq!(r.deliveries.len(), 1);
    assert_eq!(r.deliveries[0].conn, 2);
    match &r.deliveries[0].message {
        ServerMessage::PeerLeft { peer_code } => assert_eq!(peer_code, "ALPHA"),
        other => panic!("expected PeerLeft, got {:?}", other),
    }
    assert!(matches!(alpha.phase, Phase::Closed));
    assert_eq!(rooms.peer_count(), 1);
    assert_eq!(rooms.get_room_peers("X").len(), 1);
    assert_eq!(rooms.room_count(), 1);

    let r = beta.on_frame(&mut rooms, Frame::End, 2);
    assert!(r.close);
    assert!(r.deliveries.is_empty());
    assert_eq!(rooms.room_count(), 0);
    assert_eq!(rooms.peer_count(), 0);
}

#[test]
fn scenario_oversized_message_then_normal_use() {
    let mut rooms = RoomManager::new();
    let mut c = Connection::new("X".to_string(), 5, 0);
    let r = c.on_frame(&mut rooms, Frame::Text { len: MAX_MESSAGE_BYTES + 1, message: Ok(ClientMessage::Ping) }, 0);
    assert!(!r.close);
    assert_eq!(lone_error(&r, 5), "message too large (1048577 bytes, max 1048576)");
    assert!(matches!(c.phase, Phase::Registering));
    let r = c.on_frame(&mut rooms, register("GAMMA", "g"), 0);
    assert!(!r.close);
    assert!(is_active(&c, "GAMMA"));
    let r = c.on_frame(&mut rooms, Frame::Text { len: MAX_MESSAGE_BYTES + 1, message: Ok(ClientMessage::Ping) }, 0);
    assert!(!r.close);
    assert_eq!(r.deliveries.len(), 1);
    let r = c.on_frame(&mut rooms, signal("GAMMA", sample_payload()), 0);
    assert_eq!(r.relay.expect("a relay").conn, 5);
}

#[test]
fn signal_relay_crosses_rooms() {
    let mut rooms = RoomManager::new();
    let mut a = Connection::new("203.0.113.1".to_string(), 1, 0);
    let mut b = Connection::new("198.51.100.2".to_string(), 2, 0);
    let ra = a.on_frame(&mut rooms, register("AAA", "a"), 0);
    let rb = b.on_frame(&mut rooms, register("BBB", "b"), 0);
    // Neither learns of the other.
    assert_eq!(ra.deliveries.len(), 1);
    assert_eq!(rb.deliveries.len(), 1);
    assert_eq!(rooms.room_count(), 2);
    // A signal reaches a known code in another room.
    let r = b.on_frame(&mut rooms, signal("AAA", sample_payload()), 0);
    assert_eq!(r.relay.expect("a relay").conn, 1);
}

#[test]
fn signal_to_absent_peer_is_refused() {
    let mut rooms = RoomManager::new();
    let (_alpha, mut beta) = two_peers(&mut rooms);
    let r = beta.on_frame(&mut rooms, signal("NOBODY", sample_payload()), 0);
    assert!(!r.close);
    assert_eq!(lone_error(&r, 2), "peer 'NOBODY' not found");
}

#[test]
fn signal_to_malformed_target_is_refused() {
    let mut rooms = RoomManager::new();
    let (_alpha, mut beta) = two_peers(&mut rooms);
    let r = beta.on_frame(&mut rooms, signal("AL-PHA", sample_payload()), 0);
    assert_eq!(lone_error(&r, 2), "target peer code must be alphanumeric");
    let r = beta.on_frame(&mut rooms, signal("", sample_payload()), 0);
    assert_eq!(lone_error(&r, 2), "target peer code cannot be empty");
}

#[test]
fn failed_relay_reports_unreachable_peer() {
    let mut rooms = RoomManager::new();
    let (_alpha, mut beta) = two_peers(&mut rooms);
    let r = beta.on_frame(&mut rooms, signal("ALPHA", sample_payload()), 1);
    let relay = r.relay.expect("a relay");
    let r = beta.on_relay_failed(&relay);
    assert!(!r.close);
    assert_eq!(lone_error(&r, 2), "peer 'ALPHA' is no longer connected");
    assert!(is_active(&beta, "BETA"));
    assert_eq!(rooms.peer_count(), 2);
}

#[test]
fn messages_before_registration_are_refused() {
    let mut rooms = RoomManager::new();
    let mut c = Connection::new("X".to_string(), 3, 0);
    let r = c.on_frame(&mut rooms, signal("ALPHA", sample_payload()), 0);
    assert_eq!(lone_error(&r, 3), "must send 'register' as first message");
    let r = c.on_frame(&mut rooms, Frame::Text { len: 5, message: Ok(ClientMessage::Ping) }, 0);
    assert_eq!(lone_error(&r, 3), "must send 'register' as first message");
    assert!(!r.close);
    assert!(matches!(c.phase, Phase::Registering));
    assert_eq!(rooms.peer_count(), 0);
}

#[test]
fn malformed_message_is_reported_and_connection_stays() {
    let mut rooms = RoomManager::new();
    let mut c = Connection::new("X".to_string(), 3, 0);
    let r = c.on_frame(&mut rooms, Frame::Text { len: 3, message: Err("expected value".to_string()) }, 0);
    assert_eq!(lone_error(&r, 3), "malformed message: expected value");
    assert!(!r.close);
    assert!(matches!(c.phase, Phase::Registering));
}

#[test]
fn binary_and_control_frames() {
    let mut rooms = RoomManager::new();
    let mut c = Connection::new("X".to_string(), 3, 0);
    let r = c.on_frame(&mut rooms, Frame::Binary, 0);
    assert_eq!(lone_error(&r, 3), "binary frames not accepted");
    assert!(!r.close);
    let r = c.on_frame(&mut rooms, Frame::Control, 0);
    assert!(r.deliveries.is_empty());
    assert!(r.relay.is_none());
    assert!(!r.close);
}

#[test]
fn invalid_code_closes_without_registering() {
    let mut rooms = RoomManager::new();
    let mut c = Connection::new("X".to_string(), 3, 0);
    let r = c.on_frame(&mut rooms, register("BAD CODE", "n"), 0);
    assert!(r.close);
    assert_eq!(lone_error(&r, 3), "Peer code must be alphanumeric");
    assert!(matches!(c.phase, Phase::Closed));
    assert_eq!(rooms.room_count(), 0);
    // A closed connection ignores what follows.
    let r = c.on_frame(&mut rooms, register("GOOD", "n"), 0);
    assert!(r.close);
    assert!(r.deliveries.is_empty());
    assert_eq!(rooms.room_count(), 0);
}

#[test]
fn long_device_name_is_refused_and_registration_goes_on() {
    let mut rooms = RoomManager::new();
    let mut c = Connection::new("X".to_string(), 3, 0);
    let r = c.on_frame(&mut rooms, register("ABC", &"n".repeat(300)), 0);
    assert!(!r.close);
    assert_eq!(lone_error(&r, 3), "device_name too long (300 bytes, max 256)");
    assert!(matches!(c.phase, Phase::Registering));
    c.on_frame(&mut rooms, register("ABC", "n"), 0);
    assert!(is_active(&c, "ABC"));
}

#[test]
fn duplicate_code_closes_and_leaves_room_alone() {
    let mut rooms = RoomManager::new();
    let (_alpha, _beta) = two_peers(&mut rooms);
    let mut c = Connection::new("X".to_string(), 9, 0);
    let r = c.on_frame(&mut rooms, register("ALPHA", "again"), 0);
    assert!(r.close);
    assert_eq!(lone_error(&r, 9), "Peer code 'ALPHA' already in use");
    assert_eq!(rooms.peer_count(), 2);
    // Closing the refused connection does not remove the original ALPHA.
    let r = c.on_frame(&mut rooms, Frame::End, 0);
    assert!(r.deliveries.is_empty());
    assert_eq!(rooms.peer_count(), 2);
}

#[test]
fn second_register_and_ping_while_active() {
    let mut rooms = RoomManager::new();
    let (mut alpha, _beta) = two_peers(&mut rooms);
    let r = alpha.on_frame(&mut rooms, register("OTHER", "x"), 0);
    assert_eq!(lone_error(&r, 1), "already registered");
    assert!(is_active(&alpha, "ALPHA"));
    let r = alpha.on_frame(&mut rooms, Frame::Text { len: 15, message: Ok(ClientMessage::Ping) }, 0);
    assert!(r.deliveries.is_empty());
    assert!(!r.close);
}

#[test]
fn rate_violations_refuse_then_close_and_clean_up() {
    let mut rooms = RoomManager::new();
    let (mut alpha, _beta) = two_peers(&mut rooms);
    // The Register used one unit of the window that began at 0.
    for _ in 0..49 {
        let r = alpha.on_frame(&mut rooms, Frame::Text { len: 15, message: Ok(ClientMessage::Ping) }, 10);
        assert!(r.deliveries.is_empty());
    }
    for _ in 0..2 {
        let r = alpha.on_frame(&mut rooms, Frame::Text { len: 15, message: Ok(ClientMessage::Ping) }, 10);
        assert_eq!(lone_error(&r, 1), "rate limited");
        assert!(!r.close);
    }
    let r = alpha.on_frame(&mut rooms, Frame::Text { len: 15, message: Ok(ClientMessage::Ping) }, 10);
    assert!(r.close);
    assert_eq!(r.deliveries.len(), 1);
    assert_eq!(r.deliveries[0].conn, 2);
    assert_eq!(rooms.peer_count(), 1);
    assert!(rooms.find_peer("ALPHA").is_none());
}

#[test]
fn end_before_registration_touches_nothing() {
    let mut rooms = RoomManager::new();
    let (_alpha, _beta) = two_peers(&mut rooms);
    let mut c = Connection::new("X".to_string(), 4, 0);
    let r = c.on_frame(&mut rooms, Frame::End, 0);
    assert!(r.close);
    assert!(r.deliveries.is_empty());
    assert_eq!(rooms.peer_count(), 2);
}
