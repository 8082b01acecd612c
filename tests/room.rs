use localbolt_signal::protocol::{DeviceType, ServerMessage};
use localbolt_signal::room::{PeerInfo, RoomManager};

fn make_peer(code: &str, name: &str, conn: u64) -> PeerInfo {
    PeerInfo {
        peer_code: code.to_string(),
        device_name: name.to_string(),
        device_type: DeviceType::Desktop,
        conn,
    }
}

#[test]
fn add_peer_inserts_into_correct_room() {
    let mut rm = RoomManager::new();
    let peer = make_peer("ALPHA", "Desktop A", 1);

    let result = rm.add_peer("192.168.1.10", peer);
    assert!(result.is_ok());
    assert!(result.unwrap().peers.is_empty());

    assert_eq!(rm.room_count(), 1);
    assert_eq!(rm.peer_count(), 1);

    let peers = rm.get_room_peers("192.168.1.10");
    assert_eq!(peers.len(), 1);
    assert_eq!(peers[0].peer_code, "ALPHA");
}

#[test]
fn add_peer_returns_existing_peers_before_insert() {
    let mut rm = RoomManager::new();
    rm.add_peer("10.0.0.1", make_peer("AAA", "First", 1)).unwrap();
    let existing = rm.add_peer("10.0.0.1", make_peer("BBB", "Second", 2)).unwrap().peers;

    assert_eq!(existing.len(), 1);
    assert_eq!(existing[0].peer_code, "AAA");
}

#[test]
fn add_peer_rejects_duplicate_peer_code() {
    let mut rm = RoomManager::new();
    assert!(rm.add_peer("10.0.0.1", make_peer("DUP", "First", 1)).is_ok());
    let err = rm.add_peer("10.0.0.1", make_peer("DUP", "Second", 2));
    assert!(err.is_err());
    assert!(err.unwrap_err().contains("already in use"));

    assert_eq!(rm.peer_count(), 1);
}

#[test]
fn duplicate_error_text_is_exact() {
    let mut rm = RoomManager::new();
    rm.add_peer("10.0.0.1", make_peer("DUP", "First", 1)).unwrap();
    let err = rm.add_peer("10.0.0.1", make_peer("DUP", "Second", 2)).unwrap_err();
    assert_eq!(err, "Peer code 'DUP' already in use");
    let peers = rm.get_room_peers("10.0.0.1");
    assert_eq!(peers.len(), 1);
    assert_eq!(peers[0].device_name, "First");
}

#[test]
fn add_peer_same_code_different_rooms_allowed() {
    let mut rm = RoomManager::new();
    assert!(rm.add_peer("10.0.0.1", make_peer("SAME", "Room A", 1)).is_ok());
    assert!(rm.add_peer("10.0.0.2", make_peer("SAME", "Room B", 2)).is_ok());

    assert_eq!(rm.room_count(), 2);
    assert_eq!(rm.peer_count(), 2);
}

#[test]
fn add_peer_broadcasts_peer_joined_to_existing() {
    let mut rm = RoomManager::new();
    rm.add_peer("10.0.0.1", make_peer("FIRST", "Device 1", 1)).unwrap();
    let admission = rm.add_peer("10.0.0.1", make_peer("SECOND", "Device 2", 2)).unwrap();

    assert_eq!(admission.notices.len(), 1);
    let notice = &admission.notices[0];
    assert_eq!(notice.conn, 1);
    match &notice.message {
        ServerMessage::PeerJoined { peer } => {
            assert_eq!(peer.peer_code, "SECOND");
        }
        other => panic!("expected PeerJoined, got: {:?}", other),
    }
}

#[test]
fn remove_peer_removes_from_room() {
    let mut rm = RoomManager::new();
    rm.add_peer("10.0.0.1", make_peer("RM1", "Device 1", 1)).unwrap();
    rm.add_peer("10.0.0.1", make_peer("RM2", "Device 2", 2)).unwrap();
    assert_eq!(rm.peer_count(), 2);

    rm.remove_peer("10.0.0.1", "RM1");

    assert_eq!(rm.peer_count(), 1);
    let peers = rm.get_room_peers("10.0.0.1");
    assert_eq!(peers.len(), 1);
    assert_eq!(peers[0].peer_code, "RM2");
}

#[test]
fn remove_peer_cleans_up_empty_room() {
    let mut rm = RoomManager::new();
    rm.add_peer("10.0.0.1", make_peer("SOLO", "Only One", 1)).unwrap();
    assert_eq!(rm.room_count(), 1);

    rm.remove_peer("10.0.0.1", "SOLO");

    assert_eq!(rm.room_count(), 0);
    assert_eq!(rm.peer_count(), 0);
}

#[test]
fn remove_peer_broadcasts_peer_left() {
    let mut rm = RoomManager::new();
    rm.add_peer("10.0.0.1", make_peer("STAY", "Stayer", 1)).unwrap();
    rm.add_peer("10.0.0.1", make_peer("LEAVE", "Leaver", 2)).unwrap();

    let notices = rm.remove_peer("10.0.0.1", "LEAVE");

    assert_eq!(notices.len(), 1);
    assert_eq!(notices[0].conn, 1);
    match &notices[0].message {
        ServerMessage::PeerLeft { peer_code } => {
            assert_eq!(peer_code, "LEAVE");
        }
        other => panic!("expected PeerLeft, got: {:?}", other),
    }
}

#[test]
fn remove_peer_nonexistent_does_not_panic() {
    let mut rm = RoomManager::new();
    rm.add_peer("10.0.0.1", make_peer("EXISTS", "Real", 1)).unwrap();

    rm.remove_peer("10.0.0.1", "GHOST");
    assert_eq!(rm.peer_count(), 1);

    let notices = rm.remove_peer("10.0.0.99", "GHOST");
    assert!(notices.is_empty());
    assert_eq!(rm.peer_count(), 1);
}

#[test]
fn find_peer_returns_sender_for_existing_peer() {
    let mut rm = RoomManager::new();
    rm.add_peer("10.0.0.1", make_peer("FINDME", "Device", 7)).unwrap();

    let conn = rm.find_peer("FINDME");
    assert!(conn.is_some());
    assert_eq!(conn, Some(7));
}

#[test]
fn find_peer_returns_none_for_absent_peer() {
    let rm = RoomManager::new();
    assert!(rm.find_peer("NOBODY").is_none());
}

#[test]
fn find_peer_works_across_rooms() {
    let mut rm = RoomManager::new();
    rm.add_peer("10.0.0.1", make_peer("ROOM1PEER", "Room 1", 1)).unwrap();
    rm.add_peer("10.0.0.2", make_peer("ROOM2PEER", "Room 2", 2)).unwrap();

    assert!(rm.find_peer("ROOM1PEER").is_some());
    assert!(rm.find_peer("ROOM2PEER").is_some());
    assert!(rm.find_peer("MISSING").is_none());
    assert_eq!(rm.find_peer("ROOM2PEER"), Some(2));
}

#[test]
fn peer_a_disconnect_does_not_affect_peer_b() {
    let mut rm = RoomManager::new();
    rm.add_peer("10.0.0.1", make_peer("PEERA", "Device A", 1)).unwrap();
    rm.add_peer("10.0.0.1", make_peer("PEERB", "Device B", 2)).unwrap();
    assert_eq!(rm.peer_count(), 2);

    rm.remove_peer("10.0.0.1", "PEERA");

    assert_eq!(rm.peer_count(), 1);
    assert!(rm.find_peer("PEERB").is_some());
    assert!(rm.find_peer("PEERA").is_none());

    let peers = rm.get_room_peers("10.0.0.1");
    assert_eq!(peers.len(), 1);
    assert_eq!(peers[0].peer_code, "PEERB");

    assert_eq!(rm.room_count(), 1);
}

#[test]
fn multi_room_isolation() {
    let mut rm = RoomManager::new();
    rm.add_peer("10.0.0.1", make_peer("R1A", "Room1 A", 1)).unwrap();
    rm.add_peer("10.0.0.1", make_peer("R1B", "Room1 B", 2)).unwrap();
    let other = rm.add_peer("10.0.0.2", make_peer("R2A", "Room2 A", 3)).unwrap();
    // A join in another room tells nobody here and lists nobody from there.
    assert!(other.peers.is_empty());
    assert!(other.notices.is_empty());

    assert_eq!(rm.room_count(), 2);
    assert_eq!(rm.peer_count(), 3);

    rm.remove_peer("10.0.0.1", "R1A");
    rm.remove_peer("10.0.0.1", "R1B");

    assert_eq!(rm.room_count(), 1);
    assert_eq!(rm.peer_count(), 1);
    assert!(rm.find_peer("R2A").is_some());
    assert!(rm.get_room_peers("10.0.0.1").is_empty());
}

#[test]
fn get_room_peers_nonexistent_returns_empty() {
    let rm = RoomManager::new();
    let peers = rm.get_room_peers("172.16.0.99");
    assert!(peers.is_empty());
}

#[test]
fn empty_manager_counts_are_zero() {
    let rm = RoomManager::new();
    assert_eq!(rm.room_count(), 0);
    assert_eq!(rm.peer_count(), 0);
    let rm2 = RoomManager::default();
    assert_eq!(rm2.room_count(), 0);
}

#[test]
fn get_room_peers_returns_public_data() {
    let mut rm = RoomManager::new();
    rm.add_peer("10.0.0.1", make_peer("PUB1", "Device 1", 1)).unwrap();
    rm.add_peer("10.0.0.1", make_peer("PUB2", "Device 2", 2)).unwrap();

    let peers = rm.get_room_peers("10.0.0.1");
    assert_eq!(peers.len(), 2);

    let codes: Vec<&str> = peers.iter().map(|p| p.peer_code.as_str()).collect();
    assert!(codes.contains(&"PUB1"));
    assert!(codes.contains(&"PUB2"));
}

#[test]
fn join_then_find_for_valid_codes() {
    let mut rm = RoomManager::new();
    for (i, code) in ["A", "z9", "ABCDEFGHIJKLMNOP", "0000"].iter().enumerate() {
        rm.add_peer("local", make_peer(code, "d", i as u64)).unwrap();
        assert_eq!(rm.find_peer(code), Some(i as u64));
    }
    assert_eq!(rm.peer_count(), 4);
}

#[test]
fn to_peer_data_drops_the_connection() {
    let p = make_peer("CODE1", "Laptop", 9);
    let d = p.to_peer_data();
    assert_eq!(d.peer_code, "CODE1");
    assert_eq!(d.device_name, "Laptop");
    assert_eq!(d.device_type, DeviceType::Desktop);
}
