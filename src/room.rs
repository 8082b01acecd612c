//! Rooms: peers grouped by origin key, with join and leave notices for room members.
//!
//! A peer is reached through its connection id; the embedding program owns the
//! connection's outbound queue and delivers each `Delivery` to it.

use vstd::prelude::*;
use dashmap::DashMap;
use crate::protocol::{DeviceType, PeerData, ServerMessage};
use crate::text::joined3;

verus! {

/// Relies on `dashmap::DashMap`: a sharded concurrent hash map.
#[verifier::external_type_specification]
#[verifier::external_body]
#[verifier::reject_recursive_types(K)]
#[verifier::reject_recursive_types(V)]
#[verifier::reject_recursive_types(S)]
pub struct ExDashMap<K, V, S>(DashMap<K, V, S>);

/// Identifies one live connection and its outbound queue.
pub type ConnId = u64;

/// A registered peer as a room holds it.
#[derive(Clone, Debug)]
pub struct PeerInfo {
    /// The code the client chose; unique within its room.
    pub peer_code: String,
    /// Human-readable device name.
    pub device_name: String,
    /// Device category.
    pub device_type: DeviceType,
    /// The connection whose queue receives this peer's messages.
    pub conn: ConnId,
}

/// The public part of a room entry.
pub open spec fn data_of(p: PeerInfo) -> PeerData {
    PeerData { peer_code: p.peer_code, device_name: p.device_name, device_type: p.device_type }
}

impl PeerInfo {
    /// The public [`PeerData`] of this peer, without its connection.
    pub fn to_peer_data(&self) -> (r: PeerData)
        ensures
            r == data_of(*self),
    {
        PeerData {
            peer_code: self.peer_code.clone(),
            device_name: self.device_name.clone(),
            device_type: self.device_type,
        }
    }

    /// A field-for-field copy.
    pub fn duplicate(&self) -> (r: PeerInfo)
        ensures
            r == *self,
    {
        PeerInfo {
            peer_code: self.peer_code.clone(),
            device_name: self.device_name.clone(),
            device_type: self.device_type,
            conn: self.conn,
        }
    }
}

/// A message to put on a connection's outbound queue.
#[derive(Debug)]
pub struct Delivery {
    pub conn: ConnId,
    pub message: ServerMessage,
}

/// What a successful registration hands back.
#[derive(Debug)]
pub struct Admission {
    /// The room's members before the new peer, in joining order.
    pub peers: Vec<PeerData>,
    /// `PeerJoined` for each of those members.
    pub notices: Vec<Delivery>,
}

/// The concurrent map that holds the rooms.
pub type RoomTable = DashMap<String, Vec<PeerInfo>>;

/// Rooms as values: origin key to members in joining order.
pub type Rooms = Map<Seq<char>, Seq<PeerInfo>>;

/// No rooms at all.
pub open spec fn no_rooms() -> Rooms {
    Map::empty()
}

/// What the room map holds.
pub uninterp spec fn room_map(m: RoomTable) -> Map<Seq<char>, Seq<PeerInfo>>;

/// Relies on `DashMap::new`: a map with no entries.
#[verifier::external_body]
fn rooms_new() -> (r: RoomTable)
    ensures
        room_map(r) == no_rooms(),
{
    DashMap::new()
}

/// Relies on `DashMap::remove`: takes the entry for `k` out and hands back its value.
#[verifier::external_body]
fn rooms_take(m: &mut RoomTable, k: &str) -> (r: Option<Vec<PeerInfo>>)
    ensures
        room_map(*final(m)) == room_map(*old(m)).remove(k@),
        room_map(*old(m)).contains_key(k@) ==> r is Some && r->Some_0@ == room_map(*old(m))[k@],
        !room_map(*old(m)).contains_key(k@) ==> r is None,
{
    m.remove(k).map(|e| e.1)
}

/// Relies on `DashMap::insert`: sets the value for `k`.
#[verifier::external_body]
fn rooms_put(m: &mut RoomTable, k: String, v: Vec<PeerInfo>)
    ensures
        room_map(*final(m)) == room_map(*old(m)).insert(k@, v@),
{
    m.insert(k, v);
}

/// Relies on `DashMap::len`: the number of entries.
#[verifier::external_body]
fn rooms_len(m: &RoomTable) -> (r: usize)
    ensures
        r == room_map(*m).len(),
{
    m.len()
}

/// Relies on `DashMap::iter`: every entry once, in an order the hasher decides.
#[verifier::external_body]
fn rooms_entries(m: &RoomTable) -> (r: Vec<(String, Vec<PeerInfo>)>)
    ensures
        forall|i: int| 0 <= i < r@.len() ==> room_map(*m).contains_key(#[trigger] r@[i].0@)
            && room_map(*m)[r@[i].0@] == r@[i].1@,
        forall|i: int, j: int| 0 <= i < j < r@.len() ==> r@[i].0@ != r@[j].0@,
        forall|k: Seq<char>| #[trigger] room_map(*m).contains_key(k)
            ==> exists|i: int| 0 <= i < r@.len() && r@[i].0@ == k,
{
    m.iter().map(|e| room_entry(e.key(), e.value())).collect()
}

/// A copy of one room entry.
fn room_entry(k: &String, v: &Vec<PeerInfo>) -> (r: (String, Vec<PeerInfo>))
    ensures
        r.0@ == k@,
        r.1@ == v@,
{
    let mut out: Vec<PeerInfo> = Vec::new();
    let mut i: usize = 0;
    while i < v.len()
        invariant
            0 <= i <= v@.len(),
            out@ == v@.subrange(0, i as int),
        decreases v@.len() - i,
    {
        out.push(v[i].duplicate());
        i = i + 1;
        assert(out@ =~= v@.subrange(0, i as int));
    }
    assert(v@.subrange(0, v@.len() as int) =~= v@);
    (k.clone(), out)
}

/// No two members of `r` share a code.
pub open spec fn codes_unique(r: Seq<PeerInfo>) -> bool {
    forall|i: int, j: int|
        0 <= i < r.len() && 0 <= j < r.len() && i != j ==> r[i].peer_code@ != r[j].peer_code@
}

/// Some member of `r` has the code `code`.
pub open spec fn has_code(r: Seq<PeerInfo>, code: Seq<char>) -> bool {
    exists|i: int| 0 <= i < r.len() && r[i].peer_code@ == code
}

/// Finitely many rooms, none empty, codes unique within each.
pub open spec fn rooms_wf(m: Rooms) -> bool {
    &&& m.dom().finite()
    &&& forall|k: Seq<char>| #[trigger] m.contains_key(k) ==> m[k].len() > 0 && codes_unique(m[k])
}

/// The members of the room at `origin`; none if there is no such room.
pub open spec fn room_of(m: Rooms, origin: Seq<char>) -> Seq<PeerInfo> {
    if m.contains_key(origin) { m[origin] } else { Seq::empty() }
}

/// The rooms after `p` joins the room at `origin`.
pub open spec fn joined(m: Rooms, origin: Seq<char>, p: PeerInfo) -> Rooms {
    m.insert(origin, room_of(m, origin).push(p))
}

/// The members of `r` whose code is not `code`, in order.
pub open spec fn without_code(r: Seq<PeerInfo>, code: Seq<char>) -> Seq<PeerInfo> {
    r.filter(|p: PeerInfo| p.peer_code@ != code)
}

/// The rooms after the peer `code` leaves the room at `origin`; a room left empty is gone.
pub open spec fn left(m: Rooms, origin: Seq<char>, code: Seq<char>) -> Rooms {
    if !m.contains_key(origin) {
        m
    } else if without_code(m[origin], code).len() == 0 {
        m.remove(origin)
    } else {
        m.insert(origin, without_code(m[origin], code))
    }
}

/// Some room holds a peer with the code `code`.
pub open spec fn reachable(m: Rooms, code: Seq<char>) -> bool {
    exists|o: Seq<char>, i: int|
        m.contains_key(o) && 0 <= i < m[o].len() && (#[trigger] m[o][i]).peer_code@ == code
}

/// Some room holds a peer with the code `code` on the connection `conn`.
pub open spec fn registered_at(m: Rooms, code: Seq<char>, conn: ConnId) -> bool {
    exists|o: Seq<char>, i: int|
        m.contains_key(o) && 0 <= i < m[o].len() && (#[trigger] m[o][i]).peer_code@ == code
            && m[o][i].conn == conn
}

/// The public data of each member, in order.
pub open spec fn public_data(r: Seq<PeerInfo>) -> Seq<PeerData> {
    r.map_values(|p: PeerInfo| data_of(p))
}

/// `PeerJoined { peer: d }` for each member of `r`.
pub open spec fn join_notices(r: Seq<PeerInfo>, d: PeerData) -> Seq<Delivery> {
    r.map_values(|p: PeerInfo| Delivery { conn: p.conn, message: ServerMessage::PeerJoined { peer: d } })
}

/// A `PeerLeft` message for the code `code`.
pub open spec fn is_peer_left(m: ServerMessage, code: Seq<char>) -> bool {
    match m {
        ServerMessage::PeerLeft { peer_code } => peer_code@ == code,
        _ => false,
    }
}

/// `ds` is `PeerLeft { peer_code: code }` for each member of `r`, in order.
pub open spec fn leave_notices(ds: Seq<Delivery>, r: Seq<PeerInfo>, code: Seq<char>) -> bool {
    &&& ds.len() == r.len()
    &&& forall|i: int| 0 <= i < r.len() ==> (#[trigger] ds[i]).conn == r[i].conn
        && is_peer_left(ds[i].message, code)
}

/// The error text for a code already taken in the room.
pub open spec fn duplicate_code_text(code: Seq<char>) -> Seq<char> {
    "Peer code '"@ + code + "' already in use"@
}

/// All peers of all rooms, counted room by room.
pub open spec fn total_peers(m: Rooms) -> nat
    decreases m.dom().len(),
{
    if m.dom().finite() && m.dom().len() > 0 {
        let k = m.dom().choose();
        m[k].len() + total_peers(m.remove(k))
    } else {
        0
    }
}

/// Peer count of a map, found by taking out any one room.
pub proof fn lemma_total_remove(m: Rooms, k: Seq<char>)
    requires
        m.dom().finite(),
        m.contains_key(k),
    ensures
        total_peers(m) == m[k].len() + total_peers(m.remove(k)),
    decreases m.dom().len(),
{
    assert(m.dom().len() > 0) by {
        if m.dom().len() == 0 {
            assert(m.dom() =~= Set::<Seq<char>>::empty());
        }
    }
    let j = m.dom().choose();
    assert(m.dom().contains(j));
    if j != k {
        lemma_total_remove(m.remove(j), k);
        lemma_total_remove(m.remove(k), j);
        assert(m.remove(j).remove(k) =~= m.remove(k).remove(j));
    }
}

/// The summed lengths of a list of room entries.
pub open spec fn entries_total(s: Seq<(String, Vec<PeerInfo>)>) -> nat
    decreases s.len(),
{
    if s.len() == 0 {
        0
    } else {
        entries_total(s.drop_last()) + s.last().1@.len()
    }
}

/// A list naming each room of `m` exactly once sums to the peer count of `m`.
proof fn lemma_entries_total(s: Seq<(String, Vec<PeerInfo>)>, m: Rooms)
    requires
        m.dom().finite(),
        forall|i: int| 0 <= i < s.len() ==> m.contains_key(#[trigger] s[i].0@) && m[s[i].0@] == s[i].1@,
        forall|i: int, j: int| 0 <= i < j < s.len() ==> s[i].0@ != s[j].0@,
        forall|k: Seq<char>| #[trigger] m.contains_key(k) ==> exists|i: int| 0 <= i < s.len() && s[i].0@ == k,
    ensures
        entries_total(s) == total_peers(m),
    decreases s.len(),
{
    if s.len() == 0 {
        assert(m.dom() =~= Set::<Seq<char>>::empty()) by {
            assert forall|k: Seq<char>| !m.dom().contains(k) by {
                if m.contains_key(k) {
                    let i = choose|i: int| 0 <= i < s.len() && s[i].0@ == k;
                }
            }
        }
    } else {
        let n = s.len() - 1;
        let k = s[n].0@;
        let m2 = m.remove(k);
        let s2 = s.drop_last();
        assert forall|i: int| 0 <= i < s2.len() implies m2.contains_key(#[trigger] s2[i].0@)
            && m2[s2[i].0@] == s2[i].1@ by {
            assert(s[i].0@ != s[n].0@);
        }
        assert forall|i: int, j: int| 0 <= i < j < s2.len() implies s2[i].0@ != s2[j].0@ by {
            assert(s[i].0@ != s[j].0@);
        }
        assert forall|k2: Seq<char>| #[trigger] m2.contains_key(k2)
            implies exists|i: int| 0 <= i < s2.len() && s2[i].0@ == k2 by {
            assert(m.contains_key(k2));
            let i = choose|i: int| 0 <= i < s.len() && s[i].0@ == k2;
            assert(i != n);
            assert(s2[i].0@ == k2);
        }
        lemma_entries_total(s2, m2);
        lemma_total_remove(m, k);
    }
}

/// The registry of rooms, keyed by origin.
pub struct RoomManager {
    rooms: RoomTable,
}

impl View for RoomManager {
    type V = Rooms;

    closed spec fn view(&self) -> Rooms {
        room_map(self.rooms)
    }
}

impl RoomManager {
    /// The registry's invariant.
    pub open spec fn wf(&self) -> bool {
        rooms_wf(self@)
    }

    /// A registry with no rooms.
    pub fn new() -> (r: RoomManager)
        ensures
            r.wf(),
            r@ == no_rooms(),
    {
        RoomManager { rooms: rooms_new() }
    }

    /// Adds `peer` to the room at `ip`, unless its code is already taken there.
    ///
    /// On success, hands back the members that were there before (the new peer's
    /// `Peers` list) and a `PeerJoined` notice for each of them; the peer joins last.
    /// On a taken code nothing changes.
    pub fn add_peer(&mut self, ip: &str, peer: PeerInfo) -> (r: Result<Admission, String>)
        requires
            old(self).wf(),
        ensures
            final(self).wf(),
            r is Ok <==> !has_code(room_of(old(self)@, ip@), peer.peer_code@),
            r is Err ==> final(self)@ == old(self)@
                && r->Err_0@ == duplicate_code_text(peer.peer_code@),
            r is Ok ==> final(self)@ == joined(old(self)@, ip@, peer)
                && r->Ok_0.peers@ == public_data(room_of(old(self)@, ip@))
                && r->Ok_0.notices@ == join_notices(room_of(old(self)@, ip@), data_of(peer)),
    {
        let ghost before = self@;
        let taken = rooms_take(&mut self.rooms, ip);
        let mut room = match taken {
            Some(v) => v,
            None => Vec::new(),
        };
        assert(room@ == room_of(before, ip@));
        let mut i: usize = 0;
        while i < room.len()
            invariant
                0 <= i <= room@.len(),
                before == old(self)@,
                rooms_wf(before),
                room@ == room_of(before, ip@),
                self@ == before.remove(ip@),
                forall|j: int| 0 <= j < i ==> (#[trigger] room@[j]).peer_code@ != peer.peer_code@,
            decreases room@.len() - i,
        {
            if room[i].peer_code == peer.peer_code {
                assert(before.contains_key(ip@));
                assert(room@[i as int].peer_code@ == peer.peer_code@);
                assert(has_code(room_of(before, ip@), peer.peer_code@));
                let message = joined3("Peer code '", peer.peer_code.as_str(), "' already in use");
                rooms_put(&mut self.rooms, ip.to_owned(), room);
                assert(self@ =~= before);
                return Err(message);
            }
            i = i + 1;
        }
        let data = peer.to_peer_data();
        let mut peers: Vec<PeerData> = Vec::new();
        let mut notices: Vec<Delivery> = Vec::new();
        let mut j: usize = 0;
        while j < room.len()
            invariant
                0 <= j <= room@.len(),
                rooms_wf(before),
                room@ == room_of(before, ip@),
                self@ == before.remove(ip@),
                forall|a: int| 0 <= a < room@.len() ==> (#[trigger] room@[a]).peer_code@ != peer.peer_code@,
                data == data_of(peer),
                peers@ == public_data(room@.subrange(0, j as int)),
                notices@ == join_notices(room@.subrange(0, j as int), data),
            decreases room@.len() - j,
        {
            peers.push(room[j].to_peer_data());
            notices.push(Delivery { conn: room[j].conn, message: ServerMessage::PeerJoined { peer: data.duplicate() } });
            j = j + 1;
            assert(peers@ =~= public_data(room@.subrange(0, j as int)));
            assert(notices@ =~= join_notices(room@.subrange(0, j as int), data));
        }
        assert(room@.subrange(0, room@.len() as int) =~= room@);
        let ghost old_room = room@;
        room.push(peer);
        proof {
            assert forall|a: int, b: int|
                0 <= a < room@.len() && 0 <= b < room@.len() && a != b implies
                room@[a].peer_code@ != room@[b].peer_code@ by {
                if a < old_room.len() && b < old_room.len() {
                    assert(codes_unique(before[ip@]));
                }
            }
        }
        rooms_put(&mut self.rooms, ip.to_owned(), room);
        assert(self@ =~= joined(before, ip@, peer));
        Ok(Admission { peers, notices })
    }

    /// Takes the peer `peer_code` out of the room at `ip` and hands back a `PeerLeft`
    /// notice for each remaining member. A room left empty is removed. Nothing
    /// happens, and nobody is told, when there is no room at `ip`.
    pub fn remove_peer(&mut self, ip: &str, peer_code: &str) -> (r: Vec<Delivery>)
        requires
            old(self).wf(),
        ensures
            final(self).wf(),
            final(self)@ == left(old(self)@, ip@, peer_code@),
            old(self)@.contains_key(ip@) ==> leave_notices(r@, without_code(old(self)@[ip@], peer_code@), peer_code@),
            !old(self)@.contains_key(ip@) ==> r@.len() == 0,
    {
        let ghost before = self@;
        let taken = rooms_take(&mut self.rooms, ip);
        let room = match taken {
            Some(v) => v,
            None => {
                assert(self@ =~= before);
                return Vec::new();
            },
        };
        let code = peer_code.to_owned();
        let ghost pred = |p: PeerInfo| p.peer_code@ != peer_code@;
        let mut kept: Vec<PeerInfo> = Vec::new();
        let mut i: usize = 0;
        while i < room.len()
            invariant
                0 <= i <= room@.len(),
                rooms_wf(before),
                before.contains_key(ip@),
                self@ == before.remove(ip@),
                room@ == before[ip@],
                codes_unique(room@),
                code@ == peer_code@,
                pred == (|p: PeerInfo| p.peer_code@ != peer_code@),
                kept@ == room@.subrange(0, i as int).filter(pred),
                codes_unique(kept@),
                forall|a: int| 0 <= a < kept@.len() ==> exists|b: int| 0 <= b < i && #[trigger] kept@[a] == room@[b],
            decreases room@.len() - i,
        {
            let ghost prev = kept@;
            let ghost sub = room@.subrange(0, i + 1);
            assert(sub.drop_last() =~= room@.subrange(0, i as int));
            assert(sub.last() == room@[i as int]);
            assert(pred(room@[i as int]) == (room@[i as int].peer_code@ != peer_code@));
            proof {
                reveal(Seq::filter);
            }
            assert(sub.filter(pred) == if pred(sub.last()) {
                sub.drop_last().filter(pred).push(sub.last())
            } else {
                sub.drop_last().filter(pred)
            });
            if room[i].peer_code != code {
                kept.push(room[i].duplicate());
                proof {
                    assert forall|a: int, b: int|
                        0 <= a < kept@.len() && 0 <= b < kept@.len() && a != b implies
                        kept@[a].peer_code@ != kept@[b].peer_code@ by {
                        if a < prev.len() && b < prev.len() {
                        } else if a < prev.len() {
                            let x = choose|x: int| 0 <= x < i && prev[a] == room@[x];
                            assert(room@[x].peer_code@ != room@[i as int].peer_code@);
                        } else if b < prev.len() {
                            let x = choose|x: int| 0 <= x < i && prev[b] == room@[x];
                            assert(room@[x].peer_code@ != room@[i as int].peer_code@);
                        }
                    }
                    assert forall|a: int| 0 <= a < kept@.len() implies exists|b: int| 0 <= b < i + 1 && #[trigger] kept@[a] == room@[b] by {
                        if a < prev.len() {
                            let x = choose|x: int| 0 <= x < i && prev[a] == room@[x];
                            assert(kept@[a] == room@[x]);
                        } else {
                            assert(kept@[a] == room@[i as int]);
                        }
                    }
                }
            }
            assert(sub.filter(pred) == kept@);
            i = i + 1;
        }
        assert(room@.subrange(0, room@.len() as int) =~= room@);
        let mut notices: Vec<Delivery> = Vec::new();
        let mut j: usize = 0;
        while j < kept.len()
            invariant
                0 <= j <= kept@.len(),
                code@ == peer_code@,
                rooms_wf(before),
                before.contains_key(ip@),
                self@ == before.remove(ip@),
                kept@ == without_code(before[ip@], peer_code@),
                codes_unique(kept@),
                notices@.len() == j,
                forall|a: int| 0 <= a < j ==> (#[trigger] notices@[a]).conn == kept@[a].conn
                    && is_peer_left(notices@[a].message, peer_code@),
            decreases kept@.len() - j,
        {
            let left_code = code.clone();
            notices.push(Delivery { conn: kept[j].conn, message: ServerMessage::PeerLeft { peer_code: left_code } });
            j = j + 1;
        }
        if kept.len() > 0 {
            rooms_put(&mut self.rooms, ip.to_owned(), kept);
            assert(self@ =~= left(before, ip@, peer_code@));
        } else {
            assert(self@ =~= left(before, ip@, peer_code@));
        }
        notices
    }
}

impl RoomManager {
    /// The connection of some peer registered under `peer_code`, in any room.
    pub fn find_peer(&self, peer_code: &str) -> (r: Option<ConnId>)
        ensures
            r is Some <==> reachable(self@, peer_code@),
            r is Some ==> registered_at(self@, peer_code@, r->Some_0),
    {
        let entries = rooms_entries(&self.rooms);
        let code = peer_code.to_owned();
        let mut a: usize = 0;
        while a < entries.len()
            invariant
                0 <= a <= entries@.len(),
                code@ == peer_code@,
                forall|x: int| 0 <= x < entries@.len() ==> self@.contains_key(#[trigger] entries@[x].0@)
                    && self@[entries@[x].0@] == entries@[x].1@,
                forall|k: Seq<char>| #[trigger] self@.contains_key(k)
                    ==> exists|x: int| 0 <= x < entries@.len() && entries@[x].0@ == k,
                forall|x: int, y: int| 0 <= x < a && 0 <= y < entries@[x].1@.len()
                    ==> (#[trigger] entries@[x].1@[y]).peer_code@ != peer_code@,
            decreases entries@.len() - a,
        {
            let room = &entries[a].1;
            let mut b: usize = 0;
            while b < room.len()
                invariant
                    0 <= a < entries@.len(),
                    0 <= b <= room@.len(),
                    room@ == entries@[a as int].1@,
                    code@ == peer_code@,
                    forall|x: int| 0 <= x < entries@.len() ==> self@.contains_key(#[trigger] entries@[x].0@)
                        && self@[entries@[x].0@] == entries@[x].1@,
                    forall|k: Seq<char>| #[trigger] self@.contains_key(k)
                        ==> exists|x: int| 0 <= x < entries@.len() && entries@[x].0@ == k,
                    forall|x: int, y: int| 0 <= x < a && 0 <= y < entries@[x].1@.len()
                        ==> (#[trigger] entries@[x].1@[y]).peer_code@ != peer_code@,
                    forall|y: int| 0 <= y < b ==> (#[trigger] room@[y]).peer_code@ != peer_code@,
                decreases room@.len() - b,
            {
                if room[b].peer_code == code {
                    let ghost o = entries@[a as int].0@;
                    assert(self@.contains_key(o) && self@[o] == room@);
                    assert(self@[o][b as int].peer_code@ == peer_code@);
                    return Some(room[b].conn);
                }
                b = b + 1;
            }
            assert forall|x: int, y: int| 0 <= x < a + 1 && 0 <= y < entries@[x].1@.len()
                implies (#[trigger] entries@[x].1@[y]).peer_code@ != peer_code@ by {
                if x == a {
                    assert(entries@[x].1@[y] == room@[y]);
                }
            }
            a = a + 1;
        }
        proof {
            if reachable(self@, peer_code@) {
                let (o, i) = choose|o: Seq<char>, i: int|
                    self@.contains_key(o) && 0 <= i < self@[o].len() && (#[trigger] self@[o][i]).peer_code@
                        == peer_code@;
                let x = choose|x: int| 0 <= x < entries@.len() && entries@[x].0@ == o;
                assert(entries@[x].1@[i].peer_code@ != peer_code@);
            }
        }
        None
    }

    /// The public data of the members of the room at `ip`, in joining order; empty if
    /// there is no such room.
    pub fn get_room_peers(&self, ip: &str) -> (r: Vec<PeerData>)
        ensures
            r@ == public_data(room_of(self@, ip@)),
    {
        let entries = rooms_entries(&self.rooms);
        let key = ip.to_owned();
        let mut a: usize = 0;
        while a < entries.len()
            invariant
                0 <= a <= entries@.len(),
                key@ == ip@,
                forall|x: int| 0 <= x < entries@.len() ==> self@.contains_key(#[trigger] entries@[x].0@)
                    && self@[entries@[x].0@] == entries@[x].1@,
                forall|k: Seq<char>| #[trigger] self@.contains_key(k)
                    ==> exists|x: int| 0 <= x < entries@.len() && entries@[x].0@ == k,
                forall|x: int| 0 <= x < a ==> (#[trigger] entries@[x]).0@ != ip@,
            decreases entries@.len() - a,
        {
            if entries[a].0 == key {
                let room = &entries[a].1;
                let mut out: Vec<PeerData> = Vec::new();
                let mut b: usize = 0;
                while b < room.len()
                    invariant
                        0 <= b <= room@.len(),
                        out@ == public_data(room@.subrange(0, b as int)),
                    decreases room@.len() - b,
                {
                    out.push(room[b].to_peer_data());
                    b = b + 1;
                    assert(out@ =~= public_data(room@.subrange(0, b as int)));
                }
                assert(room@.subrange(0, room@.len() as int) =~= room@);
                return out;
            }
            a = a + 1;
        }
        proof {
            if self@.contains_key(ip@) {
                let x = choose|x: int| 0 <= x < entries@.len() && entries@[x].0@ == ip@;
                assert(entries@[x].0@ != ip@);
            }
        }
        assert(public_data(Seq::<PeerInfo>::empty()) =~= Seq::<PeerData>::empty());
        Vec::new()
    }

    /// The number of rooms, that is of origins with at least one peer.
    pub fn room_count(&self) -> (r: usize)
        ensures
            r == self@.len(),
    {
        rooms_len(&self.rooms)
    }

    /// The number of peers in all rooms (`usize::MAX` if there were ever more).
    pub fn peer_count(&self) -> (r: usize)
        requires
            self.wf(),
        ensures
            total_peers(self@) <= usize::MAX ==> r == total_peers(self@),
            total_peers(self@) > usize::MAX ==> r == usize::MAX,
    {
        let entries = rooms_entries(&self.rooms);
        let mut sum: usize = 0;
        let mut a: usize = 0;
        while a < entries.len()
            invariant
                0 <= a <= entries@.len(),
                sum == if entries_total(entries@.subrange(0, a as int)) <= usize::MAX {
                    entries_total(entries@.subrange(0, a as int))
                } else {
                    usize::MAX as nat
                },
            decreases entries@.len() - a,
        {
            assert(entries@.subrange(0, a + 1).drop_last() =~= entries@.subrange(0, a as int));
            sum = sum.saturating_add(entries[a].1.len());
            a = a + 1;
        }
        assert(entries@.subrange(0, entries@.len() as int) =~= entries@);
        proof {
            lemma_entries_total(entries@, self@);
        }
        sum
    }
}

impl Default for RoomManager {
    fn default() -> (r: RoomManager)
        ensures
            r.wf(),
            r@ == no_rooms(),
    {
        RoomManager::new()
    }
}

/// Once a peer has joined, its code is reachable, through the connection it joined with
/// unless another room uses the same code.
pub proof fn lemma_joined_is_reachable(m: Rooms, origin: Seq<char>, p: PeerInfo)
    ensures
        reachable(joined(m, origin, p), p.peer_code@),
        registered_at(joined(m, origin, p), p.peer_code@, p.conn),
{
    let j = joined(m, origin, p);
    let n = room_of(m, origin).len() as int;
    assert(j.contains_key(origin) && j[origin][n] == p);
}

/// Registering a second peer with the same code in the same room is refused: after the
/// first joins, its code is taken there, and the room has grown by exactly one.
pub proof fn lemma_duplicate_rejected(m: Rooms, origin: Seq<char>, p: PeerInfo, q: PeerInfo)
    requires
        !has_code(room_of(m, origin), p.peer_code@),
        q.peer_code@ == p.peer_code@,
    ensures
        has_code(room_of(joined(m, origin, p), origin), q.peer_code@),
        room_of(joined(m, origin, p), origin).len() == room_of(m, origin).len() + 1,
{
    let n = room_of(m, origin).len() as int;
    assert(room_of(joined(m, origin, p), origin)[n] == p);
}

/// Joining or leaving one origin's room leaves every other room as it was, and the
/// notices of a join or a leave go to members of that room only.
pub proof fn lemma_origins_isolated(m: Rooms, a: Seq<char>, b: Seq<char>, p: PeerInfo, code: Seq<char>)
    requires
        a != b,
    ensures
        room_of(joined(m, a, p), b) == room_of(m, b),
        room_of(left(m, a, code), b) == room_of(m, b),
        forall|i: int| 0 <= i < room_of(m, a).len()
            ==> (#[trigger] join_notices(room_of(m, a), data_of(p))[i]).conn == room_of(m, a)[i].conn,
{
}

} // verus!
