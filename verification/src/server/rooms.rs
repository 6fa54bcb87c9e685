//! The rooms of the signaling server, in which two clients meet.

use crate::server::codes::{
    free_code, fresh_code, is_room_code, law_fresh_code, make_room_code, ROOM_CODES,
};
use crate::text::same_text;
use vstd::prelude::*;
use vstd::string::*;

verus! {

/// A client in a room.
#[derive(Debug)]
pub struct Peer {
    pub client_id: String,
    /// The number of the client's connection.
    pub sender: u64,
    /// The client's UDP address, as text, once it is registered.
    pub udp_addr: Option<String>,
}

/// The view of a `Peer`.
#[verifier::ext_equal]
pub struct PeerView {
    pub client_id: Seq<char>,
    pub sender: u64,
    pub udp_addr: Option<Seq<char>>,
}

impl View for Peer {
    type V = PeerView;

    open spec fn view(&self) -> PeerView {
        PeerView {
            client_id: self.client_id@,
            sender: self.sender,
            udp_addr: match self.udp_addr {
                Some(addr) => Some(addr@),
                None => None,
            },
        }
    }
}

/// A room and the clients in it, in the order in which they joined.
#[derive(Debug)]
pub struct Room {
    pub code: String,
    pub peers: Vec<Peer>,
}

/// What stands in a room: its clients, in the order in which they joined.
pub type RoomView = Seq<PeerView>;

/// The rooms, by their codes.
pub type RoomsView = Map<Seq<char>, RoomView>;

/// Two clients can be in one room.
pub const ROOM_CAPACITY: usize = 2;

/// The view of a list of clients.
pub open spec fn peers_view(peers: Seq<Peer>) -> RoomView {
    peers.map_values(|peer: Peer| peer@)
}

/// The client `client_id` is in `room`.
pub open spec fn has_member(room: RoomView, client_id: Seq<char>) -> bool {
    exists|i: int| 0 <= i < room.len() && (#[trigger] room[i]).client_id == client_id
}

/// No client is in `room` twice.
pub open spec fn no_member_twice(room: RoomView) -> bool {
    forall|i: int, j: int|
        0 <= i < j < room.len() ==> (#[trigger] room[i]).client_id != (#[trigger] room[j]).client_id
}

/// A room has one or two clients, none of them twice.
pub open spec fn room_wf(room: RoomView) -> bool {
    0 < room.len() <= ROOM_CAPACITY && no_member_twice(room)
}

/// All rooms are well formed.
pub open spec fn rooms_wf(rooms: RoomsView) -> bool {
    forall|code: Seq<char>| #[trigger] rooms.contains_key(code) ==> room_wf(rooms[code])
}

/// `room` without the client `client_id`.
pub open spec fn without(room: RoomView, client_id: Seq<char>) -> RoomView {
    room.filter(|peer: PeerView| peer.client_id != client_id)
}

/// What stands in the room `code`; nothing, if there is no such room.
pub open spec fn room_of(rooms: RoomsView, code: Seq<char>) -> RoomView {
    if rooms.contains_key(code) {
        rooms[code]
    } else {
        Seq::empty()
    }
}

/// The rooms once `room` stands in the room `code`: an empty room is no room.
pub open spec fn with_room(rooms: RoomsView, code: Seq<char>, room: RoomView) -> RoomsView {
    if room.len() == 0 {
        rooms.remove(code)
    } else {
        rooms.insert(code, room)
    }
}

/// A text for a client.
#[derive(Debug)]
pub struct Outgoing {
    /// The number of the client's connection.
    pub to: u64,
    pub text: String,
}

/// The view of an `Outgoing`.
#[verifier::ext_equal]
pub struct OutgoingView {
    pub to: u64,
    pub text: Seq<char>,
}

impl View for Outgoing {
    type V = OutgoingView;

    open spec fn view(&self) -> OutgoingView {
        OutgoingView { to: self.to, text: self.text@ }
    }
}

/// The view of a list of texts for clients.
pub open spec fn outgoing_view(list: Seq<Outgoing>) -> Seq<OutgoingView> {
    list.map_values(|out: Outgoing| out@)
}

/// Why a client could not join a room.
#[derive(Clone, Copy, Debug, PartialEq, Eq, Structural)]
pub enum JoinError {
    /// There is no such room.
    RoomNotFound,
    /// The client is in the room.
    AlreadyJoined,
    /// Two other clients are in the room.
    RoomFull,
}

impl JoinError {
    /// What the client is told.
    pub open spec fn text(self) -> Seq<char> {
        match self {
            JoinError::RoomNotFound => "ROOM_NOT_FOUND"@,
            JoinError::AlreadyJoined => "ALREADY_JOINED"@,
            JoinError::RoomFull => "ROOM_FULL"@,
        }
    }

    /// What the client is told.
    pub fn message(&self) -> (r: &'static str)
        ensures
            r@ == self.text(),
    {
        match self {
            JoinError::RoomNotFound => "ROOM_NOT_FOUND",
            JoinError::AlreadyJoined => "ALREADY_JOINED",
            JoinError::RoomFull => "ROOM_FULL",
        }
    }
}

/// Why the client `client_id` cannot join the room `code`, or `None` if it can.
pub open spec fn join_refusal(
    rooms: RoomsView,
    code: Seq<char>,
    client_id: Seq<char>,
) -> Option<JoinError> {
    if !rooms.contains_key(code) {
        Some(JoinError::RoomNotFound)
    } else if has_member(rooms[code], client_id) {
        Some(JoinError::AlreadyJoined)
    } else if rooms[code].len() >= ROOM_CAPACITY {
        Some(JoinError::RoomFull)
    } else {
        None
    }
}

/// The rooms after the client `client_id`, on the connection `sender`, has opened the
/// room `code`, if there is none with that code yet.
pub open spec fn after_create(
    rooms: RoomsView,
    code: Seq<char>,
    client_id: Seq<char>,
    sender: u64,
) -> RoomsView {
    if rooms.contains_key(code) {
        rooms
    } else {
        rooms.insert(code, seq![PeerView { client_id, sender, udp_addr: None }])
    }
}

/// What a client is told that has opened the room `code`.
pub open spec fn created_line(code: Seq<char>) -> Seq<char> {
    "CREATED "@ + code + "\n"@
}

/// The rooms after the client `client_id`, on the connection `sender`, has joined
/// the room `code`, if it can.
pub open spec fn after_join(
    rooms: RoomsView,
    code: Seq<char>,
    client_id: Seq<char>,
    sender: u64,
) -> RoomsView {
    if join_refusal(rooms, code, client_id) is Some {
        rooms
    } else {
        rooms.insert(code, rooms[code].push(PeerView { client_id, sender, udp_addr: None }))
    }
}

/// What a client is told that has joined the room `code`.
pub open spec fn joined_line(code: Seq<char>) -> Seq<char> {
    "JOINED "@ + code + "\n"@
}

/// The rooms after the client `client_id` has left the room `code`.
pub open spec fn after_leave(
    rooms: RoomsView,
    code: Seq<char>,
    client_id: Seq<char>,
) -> RoomsView {
    with_room(rooms, code, without(room_of(rooms, code), client_id))
}

/// What the others in a room are told when the client `client_id` leaves it.
pub open spec fn peer_left_line(client_id: Seq<char>) -> Seq<char> {
    "PEER_LEFT "@ + client_id + "\n"@
}

/// What is sent when the client `client_id` leaves the room `code`.
pub open spec fn leave_notices(
    rooms: RoomsView,
    code: Seq<char>,
    client_id: Seq<char>,
) -> Seq<OutgoingView> {
    without(room_of(rooms, code), client_id).map_values(
        |peer: PeerView| OutgoingView { to: peer.sender, text: peer_left_line(client_id) },
    )
}

/// `room` once the UDP address of the client `client_id` in it is `udp_addr`.
pub open spec fn registered(
    room: RoomView,
    client_id: Seq<char>,
    udp_addr: Seq<char>,
) -> RoomView {
    room.map_values(
        |peer: PeerView|
            if peer.client_id == client_id {
                PeerView { udp_addr: Some(udp_addr), ..peer }
            } else {
                peer
            },
    )
}

/// The rooms after the client `client_id` has registered the UDP address `udp_addr`
/// in the room `code`, if it is there.
pub open spec fn after_register(
    rooms: RoomsView,
    code: Seq<char>,
    client_id: Seq<char>,
    udp_addr: Seq<char>,
) -> RoomsView {
    if has_member(room_of(rooms, code), client_id) {
        rooms.insert(code, registered(rooms[code], client_id, udp_addr))
    } else {
        rooms
    }
}

/// What a client is told of the address of its peer.
pub open spec fn peer_line(udp_addr: Seq<char>) -> Seq<char> {
    "PEER "@ + udp_addr + "\n"@
}

/// What the clients in `room` are told of each other: once two are there and the
/// addresses of both are known, each is told the address of the other.
pub open spec fn introductions(room: RoomView) -> Seq<OutgoingView> {
    if room.len() == 2 && room[0].udp_addr is Some && room[1].udp_addr is Some {
        seq![
            OutgoingView { to: room[0].sender, text: peer_line(room[1].udp_addr->0) },
            OutgoingView { to: room[1].sender, text: peer_line(room[0].udp_addr->0) },
        ]
    } else {
        Seq::empty()
    }
}

/// What is sent when the client `client_id` has registered the UDP address
/// `udp_addr` in the room `code`.
pub open spec fn register_notices(
    rooms: RoomsView,
    code: Seq<char>,
    client_id: Seq<char>,
    udp_addr: Seq<char>,
) -> Seq<OutgoingView> {
    if has_member(room_of(rooms, code), client_id) {
        introductions(registered(rooms[code], client_id, udp_addr))
    } else {
        Seq::empty()
    }
}

/// The client `client_id` is in some room.
pub open spec fn is_anywhere(rooms: RoomsView, client_id: Seq<char>) -> bool {
    exists|code: Seq<char>| #[trigger]
        rooms.contains_key(code) && has_member(rooms[code], client_id)
}

/// What can come of it when the client `client_id` registers the UDP address
/// `udp_addr`: nothing, if it is in no room, and else that it is registered in one of
/// its rooms.
pub open spec fn register_result(
    rooms: RoomsView,
    client_id: Seq<char>,
    udp_addr: Seq<char>,
    after: RoomsView,
    notices: Seq<OutgoingView>,
) -> bool {
    if is_anywhere(rooms, client_id) {
        exists|code: Seq<char>| #[trigger]
            rooms.contains_key(code) && has_member(rooms[code], client_id) && after
                == after_register(rooms, code, client_id, udp_addr) && notices == register_notices(
                rooms,
                code,
                client_id,
                udp_addr,
            )
    } else {
        after == rooms && notices == Seq::<OutgoingView>::empty()
    }
}

/// The rooms of the server.
#[derive(Debug)]
pub struct Rooms {
    rooms: Vec<Room>,
}

/// The room at place `i` of `rooms` has the code `code`.
spec fn stands_at(rooms: Seq<Room>, i: int, code: Seq<char>) -> bool {
    0 <= i < rooms.len() && rooms[i].code@ == code
}

/// The view of a list of rooms.
spec fn listed(rooms: Seq<Room>) -> RoomsView
    decreases rooms.len(),
{
    if rooms.len() == 0 {
        Map::empty()
    } else {
        listed(rooms.drop_last()).insert(rooms.last().code@, peers_view(rooms.last().peers@))
    }
}

/// No two rooms of the list have the same code.
spec fn no_code_twice(rooms: Seq<Room>) -> bool {
    forall|i: int, j: int|
        0 <= i < j < rooms.len() ==> (#[trigger] rooms[i]).code@ != (#[trigger] rooms[j]).code@
}

/// A list has finitely many rooms.
proof fn lemma_listed_finite(rooms: Seq<Room>)
    ensures
        listed(rooms).dom().finite(),
    decreases rooms.len(),
{
    if rooms.len() > 0 {
        lemma_listed_finite(rooms.drop_last());
    }
}

/// In a list without double codes, each room is found by its code, and no other.
proof fn lemma_listed(rooms: Seq<Room>)
    requires
        no_code_twice(rooms),
    ensures
        forall|i: int|
            0 <= i < rooms.len() ==> listed(rooms).contains_key((#[trigger] rooms[i]).code@)
                && listed(rooms)[rooms[i].code@] == peers_view(rooms[i].peers@),
        forall|code: Seq<char>| #[trigger]
            listed(rooms).contains_key(code) ==> exists|i: int| stands_at(rooms, i, code),
    decreases rooms.len(),
{
    if rooms.len() > 0 {
        let rest = rooms.drop_last();
        lemma_listed(rest);
        assert forall|i: int| 0 <= i < rooms.len() implies listed(rooms).contains_key(
            (#[trigger] rooms[i]).code@,
        ) && listed(rooms)[rooms[i].code@] == peers_view(rooms[i].peers@) by {
            if i < rest.len() {
                assert(rest[i] == rooms[i]);
                assert(rooms[i].code@ != rooms[rooms.len() - 1].code@);
            }
        }
        assert forall|code: Seq<char>| #[trigger] listed(rooms).contains_key(code) implies exists|
            i: int,
        | stands_at(rooms, i, code) by {
            if code == rooms.last().code@ {
                assert(stands_at(rooms, rooms.len() - 1, code));
            } else {
                assert(listed(rest).contains_key(code));
                let i = choose|i: int| stands_at(rest, i, code);
                assert(stands_at(rooms, i, code));
            }
        }
    }
}

/// Two lists without double codes that hold the same rooms have the same view.
proof fn lemma_listed_as(rooms: Seq<Room>, view: RoomsView)
    requires
        no_code_twice(rooms),
        forall|i: int|
            0 <= i < rooms.len() ==> view.contains_key((#[trigger] rooms[i]).code@)
                && view[rooms[i].code@] == peers_view(rooms[i].peers@),
        forall|code: Seq<char>| #[trigger]
            view.contains_key(code) ==> exists|i: int| stands_at(rooms, i, code),
    ensures
        listed(rooms) == view,
{
    lemma_listed(rooms);
    assert forall|code: Seq<char>| listed(rooms).contains_key(code) == view.contains_key(code) by {
        if listed(rooms).contains_key(code) {
            let i = choose|i: int| stands_at(rooms, i, code);
            assert(view.contains_key(rooms[i].code@));
        }
        if view.contains_key(code) {
            let i = choose|i: int| stands_at(rooms, i, code);
            assert(listed(rooms).contains_key(rooms[i].code@));
        }
    }
    assert forall|code: Seq<char>| listed(rooms).contains_key(code) implies listed(rooms)[code]
        == view[code] by {
        let i = choose|i: int| stands_at(rooms, i, code);
        assert(listed(rooms)[rooms[i].code@] == view[rooms[i].code@]);
    }
    assert(listed(rooms) =~= view);
}

/// What a list of rooms says when one of them has other clients.
proof fn lemma_room_replaced(before: Seq<Room>, after: Seq<Room>, i: int)
    requires
        no_code_twice(before),
        0 <= i < before.len(),
        after.len() == before.len(),
        after[i].code == before[i].code,
        forall|j: int| 0 <= j < before.len() && j != i ==> #[trigger] after[j] == before[j],
    ensures
        no_code_twice(after),
        listed(after) == listed(before).insert(before[i].code@, peers_view(after[i].peers@)),
{
    let code = before[i].code@;
    let view = listed(before).insert(code, peers_view(after[i].peers@));
    lemma_listed(before);
    assert forall|j: int, k: int| 0 <= j < k < after.len() implies (#[trigger] after[j]).code@
        != (#[trigger] after[k]).code@ by {
        assert(before[j].code@ != before[k].code@);
        assert(after[j].code == before[j].code);
        assert(after[k].code == before[k].code);
    }
    assert forall|j: int| 0 <= j < after.len() implies view.contains_key(
        (#[trigger] after[j]).code@,
    ) && view[after[j].code@] == peers_view(after[j].peers@) by {
        if j != i {
            assert(after[j] == before[j]);
            assert(after[j].code@ != after[i].code@);
            assert(listed(before).contains_key(before[j].code@));
        }
    }
    assert forall|c: Seq<char>| #[trigger] view.contains_key(c) implies exists|j: int|
        stands_at(after, j, c) by {
        if c == code {
            assert(stands_at(after, i, c));
        } else {
            assert(listed(before).contains_key(c));
            let j = choose|j: int| stands_at(before, j, c);
            assert(after[j].code == before[j].code);
            assert(stands_at(after, j, c));
        }
    }
    lemma_listed_as(after, view);
}

/// What a list of rooms says when one is added.
proof fn lemma_room_added(before: Seq<Room>, room: Room)
    requires
        no_code_twice(before),
        !listed(before).contains_key(room.code@),
    ensures
        no_code_twice(before.push(room)),
        listed(before.push(room)) == listed(before).insert(room.code@, peers_view(room.peers@)),
{
    let after = before.push(room);
    lemma_listed(before);
    assert forall|j: int, k: int| 0 <= j < k < after.len() implies (#[trigger] after[j]).code@
        != (#[trigger] after[k]).code@ by {
        assert(after[j] == before[j]);
        assert(listed(before).contains_key(before[j].code@));
        if k < before.len() {
            assert(before[j].code@ != before[k].code@);
        }
    }
    assert(after.drop_last() =~= before);
}

/// What a list of rooms says when one is taken out.
proof fn lemma_room_removed(before: Seq<Room>, i: int)
    requires
        no_code_twice(before),
        0 <= i < before.len(),
    ensures
        no_code_twice(before.remove(i)),
        listed(before.remove(i)) == listed(before).remove(before[i].code@),
{
    let after = before.remove(i);
    let code = before[i].code@;
    let view = listed(before).remove(code);
    lemma_listed(before);
    assert forall|j: int| 0 <= j < after.len() implies (#[trigger] after[j]) == before[if j < i {
        j
    } else {
        j + 1
    }] by {}
    assert forall|j: int, k: int| 0 <= j < k < after.len() implies (#[trigger] after[j]).code@
        != (#[trigger] after[k]).code@ by {
        let a = if j < i { j } else { j + 1 };
        let b = if k < i { k } else { k + 1 };
        assert(before[a].code@ != before[b].code@);
    }
    assert forall|j: int| 0 <= j < after.len() implies view.contains_key(
        (#[trigger] after[j]).code@,
    ) && view[after[j].code@] == peers_view(after[j].peers@) by {
        let a = if j < i { j } else { j + 1 };
        assert(before[a].code@ != before[i].code@);
        assert(listed(before).contains_key(before[a].code@));
    }
    assert forall|c: Seq<char>| #[trigger] view.contains_key(c) implies exists|j: int|
        stands_at(after, j, c) by {
        assert(listed(before).contains_key(c));
        let a = choose|a: int| stands_at(before, a, c);
        let j = if a < i { a } else { a - 1 };
        assert(stands_at(after, j, c));
    }
    lemma_listed_as(after, view);
}

/// Rooms stay well formed when a well-formed room takes a place among them.
pub(crate) proof fn lemma_insert_wf(rooms: RoomsView, code: Seq<char>, room: RoomView)
    requires
        rooms_wf(rooms),
        room_wf(room),
    ensures
        rooms_wf(rooms.insert(code, room)),
{
    let after = rooms.insert(code, room);
    assert forall|c: Seq<char>| #[trigger] after.contains_key(c) implies room_wf(after[c]) by {
        if c != code {
            assert(rooms.contains_key(c));
        }
    }
}

/// A filter that every element passes keeps all of them.
proof fn lemma_filter_keeps_all<A>(s: Seq<A>, pred: spec_fn(A) -> bool)
    requires
        forall|i: int| 0 <= i < s.len() ==> pred(#[trigger] s[i]),
    ensures
        s.filter(pred) == s,
    decreases s.len(),
{
    reveal(Seq::filter);
    if s.len() > 0 {
        let rest = s.drop_last();
        assert forall|i: int| 0 <= i < rest.len() implies pred(#[trigger] rest[i]) by {
            assert(pred(s[i]));
        }
        lemma_filter_keeps_all(rest, pred);
        assert(pred(s[s.len() - 1]));
        assert(rest.push(s.last()) =~= s);
    }
}

/// A room without a client that is not in it is the room itself.
pub(crate) proof fn lemma_without_stranger(room: RoomView, client_id: Seq<char>)
    requires
        !has_member(room, client_id),
    ensures
        without(room, client_id) == room,
{
    lemma_filter_keeps_all(room, |peer: PeerView| peer.client_id != client_id);
}

/// A room without one of its clients is the room with that place taken out.
pub(crate) proof fn lemma_without_member(room: RoomView, i: int)
    requires
        no_member_twice(room),
        0 <= i < room.len(),
    ensures
        without(room, room[i].client_id) == room.remove(i),
{
    let id = room[i].client_id;
    let keep = |peer: PeerView| peer.client_id != id;
    let head = room.subrange(0, i);
    let tail = room.subrange(i + 1, room.len() as int);
    assert forall|j: int| 0 <= j < head.len() implies keep(#[trigger] head[j]) by {
        assert(room[j].client_id != room[i].client_id);
    }
    assert forall|j: int| 0 <= j < tail.len() implies keep(#[trigger] tail[j]) by {
        assert(room[i].client_id != room[j + i + 1].client_id);
    }
    lemma_filter_keeps_all(head, keep);
    lemma_filter_keeps_all(tail, keep);
    let one = seq![room[i]];
    assert(one.filter(keep) =~= Seq::empty()) by {
        reveal(Seq::filter);
        assert(one.drop_last() =~= Seq::empty());
        assert(one.last() == room[i] && !keep(one.last()));
        assert(one.drop_last().filter(keep) =~= Seq::empty());
    }
    Seq::filter_distributes_over_add(head, one, keep);
    Seq::filter_distributes_over_add(head + one, tail, keep);
    assert(head + one + tail =~= room);
    assert(head + Seq::empty() + tail =~= room.remove(i));
}

/// Rooms stay well formed when one is closed.
pub(crate) proof fn lemma_remove_wf(rooms: RoomsView, code: Seq<char>)
    requires
        rooms_wf(rooms),
    ensures
        rooms_wf(rooms.remove(code)),
{
    let after = rooms.remove(code);
    assert forall|c: Seq<char>| #[trigger] after.contains_key(c) implies room_wf(after[c]) by {
        assert(rooms.contains_key(c));
    }
}

/// A room stays well formed when a client leaves it, unless nobody is left.
pub(crate) proof fn lemma_without_wf(room: RoomView, client_id: Seq<char>)
    requires
        room_wf(room),
    ensures
        no_member_twice(without(room, client_id)),
        without(room, client_id).len() <= room.len(),
        !has_member(without(room, client_id), client_id),
{
    if has_member(room, client_id) {
        let i = choose|i: int| 0 <= i < room.len() && (#[trigger] room[i]).client_id == client_id;
        lemma_without_member(room, i);
        let left = room.remove(i);
        assert forall|a: int, b: int| 0 <= a < b < left.len() implies (#[trigger] left[a]).client_id
            != (#[trigger] left[b]).client_id by {
            let x = if a < i { a } else { a + 1 };
            let y = if b < i { b } else { b + 1 };
            assert(room[x].client_id != room[y].client_id);
        }
        assert forall|a: int| 0 <= a < left.len() implies (#[trigger] left[a]).client_id
            != client_id by {
            let x = if a < i { a } else { a + 1 };
            if x < i {
                assert(room[x].client_id != room[i].client_id);
            } else {
                assert(room[i].client_id != room[x].client_id);
            }
        }
    } else {
        lemma_without_stranger(room, client_id);
    }
}

/// A room stays well formed when an address is registered in it.
pub(crate) proof fn lemma_registered_wf(room: RoomView, client_id: Seq<char>, udp_addr: Seq<char>)
    requires
        room_wf(room),
    ensures
        room_wf(registered(room, client_id, udp_addr)),
{
    let now = registered(room, client_id, udp_addr);
    assert forall|a: int, b: int| 0 <= a < b < now.len() implies (#[trigger] now[a]).client_id != (
    #[trigger] now[b]).client_id by {
        assert(room[a].client_id != room[b].client_id);
    }
}

/// Finds the client `client_id` in a list of clients.
fn find_peer(peers: &Vec<Peer>, client_id: &str) -> (r: Option<usize>)
    ensures
        match r {
            Some(i) => i < peers@.len() && peers@[i as int].client_id@ == client_id@,
            None => !has_member(peers_view(peers@), client_id@),
        },
{
    let mut i: usize = 0;
    while i < peers.len()
        invariant
            i <= peers@.len(),
            forall|j: int| 0 <= j < i ==> (#[trigger] peers@[j]).client_id@ != client_id@,
        decreases peers@.len() - i,
    {
        if same_text(peers[i].client_id.as_str(), client_id) {
            return Some(i);
        }
        i = i + 1;
    }
    proof {
        assert forall|j: int| 0 <= j < peers_view(peers@).len() implies (#[trigger] peers_view(
            peers@,
        )[j]).client_id != client_id@ by {
            assert(peers@[j].client_id@ != client_id@);
        }
    }
    None
}

impl View for Rooms {
    type V = RoomsView;

    closed spec fn view(&self) -> RoomsView {
        listed(self.rooms@)
    }
}

impl Rooms {
    /// No room stands twice, and each is well formed.
    pub closed spec fn wf(&self) -> bool {
        no_code_twice(self.rooms@) && rooms_wf(self@)
    }

    /// What well-formed rooms hold is well formed, and there are finitely many.
    pub proof fn law_wf(&self)
        requires
            self.wf(),
        ensures
            rooms_wf(self@),
            self@.dom().finite(),
    {
        lemma_listed_finite(self.rooms@);
    }

    /// A server without rooms.
    pub fn new() -> (r: Rooms)
        ensures
            r.wf(),
            r@ == RoomsView::empty(),
    {
        Rooms { rooms: Vec::new() }
    }

    /// Finds the room `room_code`.
    fn find(&self, room_code: &str) -> (r: Option<usize>)
        requires
            no_code_twice(self.rooms@),
        ensures
            match r {
                Some(i) => stands_at(self.rooms@, i as int, room_code@) && self@.contains_key(
                    room_code@,
                ) && self@[room_code@] == peers_view(self.rooms@[i as int].peers@),
                None => !self@.contains_key(room_code@),
            },
    {
        proof {
            lemma_listed(self.rooms@);
        }
        let mut i: usize = 0;
        while i < self.rooms.len()
            invariant
                i <= self.rooms@.len(),
                forall|j: int| 0 <= j < i ==> (#[trigger] self.rooms@[j]).code@ != room_code@,
                forall|j: int|
                    0 <= j < self.rooms@.len() ==> self@.contains_key(
                        (#[trigger] self.rooms@[j]).code@,
                    ) && self@[self.rooms@[j].code@] == peers_view(self.rooms@[j].peers@),
            decreases self.rooms@.len() - i,
        {
            if same_text(self.rooms[i].code.as_str(), room_code) {
                return Some(i);
            }
            i = i + 1;
        }
        proof {
            if self@.contains_key(room_code@) {
                let j = choose|j: int| stands_at(self.rooms@, j, room_code@);
                assert(self.rooms@[j].code@ != room_code@);
            }
        }
        None
    }

    /// Finds a code for the next room, for which the number `draw` was drawn. There is
    /// one unless every room code is taken.
    pub fn fresh_code(&self, draw: u64) -> (r: Option<String>)
        requires
            self.wf(),
        ensures
            match r {
                Some(code) => fresh_code(self@, draw) == Some(code@) && is_room_code(code@)
                    && !self@.contains_key(code@),
                None => fresh_code(self@, draw) is None,
            },
            self@.len() < ROOM_CODES ==> r is Some,
    {
        proof {
            self.law_wf();
            law_fresh_code(self@, draw);
        }
        let ghost codes = ROOM_CODES as int;
        let ghost first = draw as int % codes;
        let mut number: u64 = draw % ROOM_CODES;
        let mut tried: u64 = 0;
        while tried < ROOM_CODES
            invariant
                self.wf(),
                codes == ROOM_CODES,
                0 <= first < codes,
                tried <= ROOM_CODES,
                number == (first + tried) % codes,
                fresh_code(self@, draw) == free_code(self@, first + tried, codes - tried),
                match fresh_code(self@, draw) {
                    Some(code) => is_room_code(code) && !self@.contains_key(code),
                    None => true,
                },
                self@.len() < ROOM_CODES ==> fresh_code(self@, draw) is Some,
            decreases ROOM_CODES - tried,
        {
            let code = make_room_code(number);
            if self.find(code.as_str()).is_none() {
                return Some(code);
            }
            number = if number + 1 < ROOM_CODES {
                number + 1
            } else {
                0
            };
            tried = tried + 1;
        }
        None
    }

    /// Opens the room `room_code` for the client `client_id`, on the connection
    /// `sender`. The result is what the client is told, or `None` if there is such a
    /// room already, which then stays as it is.
    pub fn create_room(&mut self, room_code: &str, client_id: &str, sender: u64) -> (r: Option<
        Outgoing,
    >)
        requires
            old(self).wf(),
        ensures
            final(self).wf(),
            final(self)@ == after_create(old(self)@, room_code@, client_id@, sender),
            match r {
                Some(out) => !old(self)@.contains_key(room_code@) && out@ == (OutgoingView {
                    to: sender,
                    text: created_line(room_code@),
                }),
                None => old(self)@.contains_key(room_code@),
            },
    {
        if self.find(room_code).is_some() {
            return None;
        }
        let ghost before = self.rooms@;
        let ghost was = self@;
        let peer = Peer { client_id: client_id.to_string(), sender, udp_addr: None };
        let ghost newcomer = peer@;
        let mut peers: Vec<Peer> = Vec::new();
        peers.push(peer);
        let room = Room { code: room_code.to_string(), peers };
        self.rooms.push(room);
        proof {
            lemma_room_added(before, room);
            assert(peers_view(room.peers@) =~= seq![newcomer]);
            lemma_insert_wf(was, room_code@, seq![newcomer]);
        }
        let text = "CREATED ".to_string().concat(room_code).concat("\n");
        Some(Outgoing { to: sender, text })
    }

    /// Lets the client `client_id`, on the connection `sender`, join the room
    /// `room_code`. The result is what the client is told, or why it could not join.
    pub fn join_room(&mut self, room_code: &str, client_id: &str, sender: u64) -> (r: Result<
        Outgoing,
        JoinError,
    >)
        requires
            old(self).wf(),
        ensures
            final(self).wf(),
            final(self)@ == after_join(old(self)@, room_code@, client_id@, sender),
            match r {
                Ok(out) => join_refusal(old(self)@, room_code@, client_id@) is None && out@ == (
                OutgoingView { to: sender, text: joined_line(room_code@) }),
                Err(error) => join_refusal(old(self)@, room_code@, client_id@) == Some(error),
            },
    {
        let ghost before = self.rooms@;
        let ghost was = self@;
        let peer = Peer { client_id: client_id.to_string(), sender, udp_addr: None };
        let ghost newcomer = peer@;
        match self.find(room_code) {
            Some(i) => {
                let ghost room = peers_view(before[i as int].peers@);
                if let Some(j) = find_peer(&self.rooms[i].peers, client_id) {
                    proof {
                        assert(room[j as int].client_id == client_id@);
                    }
                    return Err(JoinError::AlreadyJoined);
                }
                if self.rooms[i].peers.len() >= ROOM_CAPACITY {
                    return Err(JoinError::RoomFull);
                }
                self.rooms[i].peers.push(peer);
                proof {
                    lemma_room_replaced(before, self.rooms@, i as int);
                    assert(peers_view(self.rooms@[i as int].peers@) =~= room.push(newcomer));
                    assert forall|a: int, b: int| 0 <= a < b < room.push(newcomer).len() implies (
                    #[trigger] room.push(newcomer)[a]).client_id != (#[trigger] room.push(
                        newcomer,
                    )[b]).client_id by {
                        assert(room[a].client_id != client_id@);
                    }
                    lemma_insert_wf(was, room_code@, room.push(newcomer));
                }
            },
            None => {
                return Err(JoinError::RoomNotFound);
            },
        }
        let text = "JOINED ".to_string().concat(room_code).concat("\n");
        Ok(Outgoing { to: sender, text })
    }

    /// Takes the client `client_id` out of the room `room_code`; the room is closed
    /// when nobody is left in it. The result is what the others in the room are
    /// told.
    pub fn leave_room(&mut self, room_code: &str, client_id: &str) -> (r: Vec<Outgoing>)
        requires
            old(self).wf(),
        ensures
            final(self).wf(),
            final(self)@ == after_leave(old(self)@, room_code@, client_id@),
            outgoing_view(r@) == leave_notices(old(self)@, room_code@, client_id@),
            old(self)@.contains_key(room_code@) && old(self)@[room_code@].len() == 2 ==> {
                let room = old(self)@[room_code@];
                &&& room[0].client_id == client_id@ ==> final(self)@.contains_key(room_code@)
                    && final(self)@[room_code@] == seq![room[1]]
                &&& room[1].client_id == client_id@ ==> final(self)@.contains_key(room_code@)
                    && final(self)@[room_code@] == seq![room[0]]
            },
    {
        let ghost before = self.rooms@;
        let ghost was = self@;
        let mut notices: Vec<Outgoing> = Vec::new();
        match self.find(room_code) {
            Some(i) => {
                let ghost room = peers_view(before[i as int].peers@);
                let ghost left = without(room, client_id@);
                match find_peer(&self.rooms[i].peers, client_id) {
                    Some(j) => {
                        proof {
                            assert(room[j as int].client_id == client_id@);
                            lemma_without_member(room, j as int);
                        }
                        self.rooms[i].peers.remove(j);
                        proof {
                            assert(peers_view(self.rooms@[i as int].peers@) =~= room.remove(
                                j as int,
                            ));
                            if room.len() == 2 {
                                assert(room[0].client_id != room[1].client_id);
                                assert(room.remove(j as int) =~= seq![room[1 - j]]);
                            }
                        }
                    },
                    None => {
                        proof {
                            lemma_without_stranger(room, client_id@);
                        }
                    },
                }
                proof {
                    lemma_room_replaced(before, self.rooms@, i as int);
                }
                let ghost now = self.rooms@;
                let text = "PEER_LEFT ".to_string().concat(client_id).concat("\n");
                let mut k: usize = 0;
                while k < self.rooms[i].peers.len()
                    invariant
                        i < now.len(),
                        self.rooms@ == now,
                        left == peers_view(now[i as int].peers@),
                        k <= left.len(),
                        text@ == peer_left_line(client_id@),
                        notices@.len() == k,
                        forall|a: int|
                            0 <= a < k ==> (#[trigger] notices@[a])@ == (OutgoingView {
                                to: left[a].sender,
                                text: peer_left_line(client_id@),
                            }),
                    decreases left.len() - k,
                {
                    notices.push(
                        Outgoing { to: self.rooms[i].peers[k].sender, text: text.clone() },
                    );
                    k = k + 1;
                }
                proof {
                    assert(outgoing_view(notices@) =~= leave_notices(was, room_code@, client_id@));
                    assert(room_wf(room));
                }
                if self.rooms[i].peers.len() == 0 {
                    self.rooms.remove(i);
                    proof {
                        lemma_room_removed(now, i as int);
                        assert(self@ =~= was.remove(room_code@));
                        lemma_remove_wf(was, room_code@);
                    }
                } else {
                    proof {
                        lemma_without_wf(room, client_id@);
                        lemma_insert_wf(was, room_code@, left);
                    }
                }
            },
            None => {
                proof {
                    lemma_without_stranger(Seq::empty(), client_id@);
                    assert(was.remove(room_code@) =~= was);
                    assert(outgoing_view(notices@) =~= leave_notices(was, room_code@, client_id@));
                }
            },
        }
        notices
    }

    /// Finds a room in which the client `client_id` is. Where there are several,
    /// which of them is found is left open.
    pub fn find_room(&self, client_id: &str) -> (r: Option<String>)
        requires
            self.wf(),
        ensures
            match r {
                Some(code) => self@.contains_key(code@) && has_member(self@[code@], client_id@),
                None => !is_anywhere(self@, client_id@),
            },
    {
        proof {
            lemma_listed(self.rooms@);
        }
        let mut i: usize = 0;
        while i < self.rooms.len()
            invariant
                i <= self.rooms@.len(),
                forall|j: int|
                    0 <= j < i ==> !has_member(
                        peers_view((#[trigger] self.rooms@[j]).peers@),
                        client_id@,
                    ),
                forall|j: int|
                    0 <= j < self.rooms@.len() ==> self@.contains_key(
                        (#[trigger] self.rooms@[j]).code@,
                    ) && self@[self.rooms@[j].code@] == peers_view(self.rooms@[j].peers@),
            decreases self.rooms@.len() - i,
        {
            if let Some(j) = find_peer(&self.rooms[i].peers, client_id) {
                proof {
                    let room = peers_view(self.rooms@[i as int].peers@);
                    assert(room[j as int].client_id == client_id@);
                }
                return Some(self.rooms[i].code.clone());
            }
            i = i + 1;
        }
        proof {
            assert forall|code: Seq<char>| #[trigger] self@.contains_key(code) implies !has_member(
                self@[code],
                client_id@,
            ) by {
                let j = choose|j: int| stands_at(self.rooms@, j, code);
                assert(!has_member(peers_view(self.rooms@[j].peers@), client_id@));
            }
        }
        None
    }

    /// Notes that the UDP address of the client `client_id` in the room `room_code` is
    /// `udp_addr`. The result is what the clients in the room are told of each other.
    pub fn register_in_room(&mut self, room_code: &str, client_id: &str, udp_addr: &str) -> (r: Vec<
        Outgoing,
    >)
        requires
            old(self).wf(),
        ensures
            final(self).wf(),
            final(self)@ == after_register(old(self)@, room_code@, client_id@, udp_addr@),
            outgoing_view(r@) == register_notices(old(self)@, room_code@, client_id@, udp_addr@),
    {
        let ghost before = self.rooms@;
        let ghost was = self@;
        let mut notices: Vec<Outgoing> = Vec::new();
        let i: usize = match self.find(room_code) {
            Some(i) => i,
            None => {
                proof {
                    assert(outgoing_view(notices@) =~= Seq::empty());
                }
                return notices;
            },
        };
        let ghost room = peers_view(before[i as int].peers@);
        let j: usize = match find_peer(&self.rooms[i].peers, client_id) {
            Some(j) => j,
            None => {
                proof {
                    assert(outgoing_view(notices@) =~= Seq::empty());
                }
                return notices;
            },
        };
        self.rooms[i].peers[j].udp_addr = Some(udp_addr.to_string());
        let ghost now = registered(room, client_id@, udp_addr@);
        proof {
            assert(room[j as int].client_id == client_id@);
            assert(room_wf(room));
            assert forall|k: int| 0 <= k < room.len() implies peers_view(
                self.rooms@[i as int].peers@,
            )[k] == #[trigger] now[k] by {
                if k != j {
                    if k < j {
                        assert(room[k].client_id != room[j as int].client_id);
                    } else {
                        assert(room[j as int].client_id != room[k].client_id);
                    }
                }
            }
            assert(peers_view(self.rooms@[i as int].peers@) =~= now);
            lemma_room_replaced(before, self.rooms@, i as int);
            lemma_registered_wf(room, client_id@, udp_addr@);
            lemma_insert_wf(was, room_code@, now);
        }
        let peers = &self.rooms[i].peers;
        if peers.len() == 2 {
            proof {
                assert(now[0] == peers@[0]@);
                assert(now[1] == peers@[1]@);
            }
            if let Some(addr_a) = &peers[0].udp_addr {
                if let Some(addr_b) = &peers[1].udp_addr {
                    let to_a = "PEER ".to_string().concat(addr_b.as_str()).concat("\n");
                    notices.push(Outgoing { to: peers[0].sender, text: to_a });
                    let to_b = "PEER ".to_string().concat(addr_a.as_str()).concat("\n");
                    notices.push(Outgoing { to: peers[1].sender, text: to_b });
                }
            }
        }
        proof {
            assert(outgoing_view(notices@) =~= introductions(now));
        }
        notices
    }

    /// Notes that the UDP address of the client `client_id` is `udp_addr`, in a room in
    /// which the client is. The result is what the clients in the room are told of
    /// each other.
    pub fn register_udp_addr(&mut self, client_id: &str, udp_addr: &str) -> (r: Vec<Outgoing>)
        requires
            old(self).wf(),
        ensures
            final(self).wf(),
            register_result(old(self)@, client_id@, udp_addr@, final(self)@, outgoing_view(r@)),
    {
        match self.find_room(client_id) {
            Some(room_code) => {
                self.register_in_room(room_code.as_str(), client_id, udp_addr)
            },
            None => {
                let notices: Vec<Outgoing> = Vec::new();
                proof {
                    assert(outgoing_view(notices@) =~= Seq::empty());
                }
                notices
            },
        }
    }
}

} // verus!
