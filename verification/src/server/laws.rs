//! What holds of the signaling server as a whole.

use crate::server::codes::{fresh_code, is_room_code, law_fresh_code, ROOM_CODES};
use crate::server::registration::{packet_result, registering};
use crate::server::rooms::{
    after_create, after_join, after_leave, after_register, created_line, has_member, introductions,
    is_anywhere, join_refusal, joined_line, leave_notices, lemma_insert_wf, lemma_registered_wf,
    lemma_remove_wf, lemma_without_member, lemma_without_stranger, lemma_without_wf, outgoing_view,
    peer_left_line, peer_line, peers_view, register_notices, register_result, registered, room_of,
    room_wf, rooms_wf, without, JoinError, Outgoing, OutgoingView, Peer, PeerView, RoomView,
    RoomsView,
};
use crate::server::session::{
    client_id_line, request, ClientSession, Request, RequestView, SessionView,
};
use crate::text::{is_white_space, law_line_words, law_word_is_its_own_words, words};
use vstd::prelude::*;
use vstd::string::*;

verus! {

/// Whoever opens or joins a room, leaves or registers, no room is ever empty, holds more than two
/// clients, or holds a client twice.
pub proof fn law_rooms_stay_well_formed(
    rooms: RoomsView,
    code: Seq<char>,
    client_id: Seq<char>,
    sender: u64,
    udp_addr: Seq<char>,
)
    requires
        rooms_wf(rooms),
    ensures
        rooms_wf(after_create(rooms, code, client_id, sender)),
        rooms_wf(after_join(rooms, code, client_id, sender)),
        rooms_wf(after_leave(rooms, code, client_id)),
        rooms_wf(after_register(rooms, code, client_id, udp_addr)),
{
    let room = room_of(rooms, code);
    if !rooms.contains_key(code) {
        lemma_insert_wf(rooms, code, seq![PeerView { client_id, sender, udp_addr: None }]);
    }
    if join_refusal(rooms, code, client_id) is None {
        let newcomer = PeerView { client_id, sender, udp_addr: None };
        let joined = room.push(newcomer);
        assert forall|a: int, b: int| 0 <= a < b < joined.len() implies (
        #[trigger] joined[a]).client_id != (#[trigger] joined[b]).client_id by {
            assert(room[a].client_id != client_id);
        }
        lemma_insert_wf(rooms, code, joined);
    }
    if rooms.contains_key(code) {
        lemma_without_wf(room, client_id);
        if without(room, client_id).len() == 0 {
            lemma_remove_wf(rooms, code);
        } else {
            lemma_insert_wf(rooms, code, without(room, client_id));
        }
        lemma_registered_wf(room, client_id, udp_addr);
        lemma_insert_wf(rooms, code, registered(room, client_id, udp_addr));
    } else {
        lemma_without_stranger(room, client_id);
        lemma_remove_wf(rooms, code);
    }
}

/// A client joins exactly if the room is there, the client is not in it and fewer than
/// two clients are, and is in the room afterwards; a refused client changes nothing.
pub proof fn law_join(rooms: RoomsView, code: Seq<char>, client_id: Seq<char>, sender: u64)
    requires
        rooms_wf(rooms),
    ensures
        join_refusal(rooms, code, client_id) is None <==> rooms.contains_key(code) && !has_member(
            rooms[code],
            client_id,
        ) && rooms[code].len() < 2,
        !rooms.contains_key(code) <==> join_refusal(rooms, code, client_id) == Some(
            JoinError::RoomNotFound,
        ),
        join_refusal(rooms, code, client_id) is Some ==> after_join(rooms, code, client_id, sender)
            == rooms,
        has_member(room_of(rooms, code), client_id) <==> join_refusal(rooms, code, client_id)
            == Some(JoinError::AlreadyJoined),
        join_refusal(rooms, code, client_id) is None ==> has_member(
            room_of(after_join(rooms, code, client_id, sender), code),
            client_id,
        ),
{
    if join_refusal(rooms, code, client_id) is None {
        let room = room_of(rooms, code);
        let joined = room.push(PeerView { client_id, sender, udp_addr: None });
        assert(joined[room.len() as int].client_id == client_id);
    }
}

/// Leaving a room undoes joining it, and those who were there before are told.
pub proof fn law_leave_undoes_join(
    rooms: RoomsView,
    code: Seq<char>,
    client_id: Seq<char>,
    sender: u64,
)
    requires
        rooms_wf(rooms),
        join_refusal(rooms, code, client_id) is None,
    ensures
        after_leave(after_join(rooms, code, client_id, sender), code, client_id) == rooms,
        leave_notices(after_join(rooms, code, client_id, sender), code, client_id) == room_of(
            rooms,
            code,
        ).map_values(
            |peer: PeerView| OutgoingView { to: peer.sender, text: peer_left_line(client_id) },
        ),
{
    let room = room_of(rooms, code);
    let joined = room.push(PeerView { client_id, sender, udp_addr: None });
    let inside = after_join(rooms, code, client_id, sender);
    lemma_without_newcomer(rooms, code, client_id, sender);
    assert(room_of(inside, code) == joined);
    assert(room.len() > 0);
    assert(inside.insert(code, room) =~= rooms);
}

/// Leaving a room undoes opening it, and nobody is told.
pub proof fn law_leave_undoes_create(
    rooms: RoomsView,
    code: Seq<char>,
    client_id: Seq<char>,
    sender: u64,
)
    requires
        rooms_wf(rooms),
        !rooms.contains_key(code),
    ensures
        after_leave(after_create(rooms, code, client_id, sender), code, client_id) == rooms,
        leave_notices(after_create(rooms, code, client_id, sender), code, client_id) == Seq::<
            OutgoingView,
        >::empty(),
{
    let inside = after_create(rooms, code, client_id, sender);
    lemma_without_newcomer(rooms, code, client_id, sender);
    assert(room_of(inside, code) =~= room_of(rooms, code).push(
        PeerView { client_id, sender, udp_addr: None },
    ));
    assert(inside.remove(code) =~= rooms);
    assert(leave_notices(inside, code, client_id) =~= Seq::empty());
}

/// A room without the client that came last is the room that it came into.
proof fn lemma_without_newcomer(
    rooms: RoomsView,
    code: Seq<char>,
    client_id: Seq<char>,
    sender: u64,
)
    requires
        rooms_wf(rooms),
        !has_member(room_of(rooms, code), client_id),
    ensures
        without(
            room_of(rooms, code).push(PeerView { client_id, sender, udp_addr: None }),
            client_id,
        ) == room_of(rooms, code),
{
    let room = room_of(rooms, code);
    let joined = room.push(PeerView { client_id, sender, udp_addr: None });
    let last = room.len() as int;
    assert forall|a: int, b: int| 0 <= a < b < joined.len() implies (#[trigger] joined[a]).client_id
        != (#[trigger] joined[b]).client_id by {
        assert(joined[a] == room[a]);
        assert(room[a].client_id != client_id);
        if b < last {
            assert(room[a].client_id != room[b].client_id);
        }
    }
    lemma_without_member(joined, last);
    assert(joined[last].client_id == client_id);
    assert(joined.remove(last) =~= room);
}

/// Who leaves a room is not in it any more, everyone else in it stays, and the room
/// is closed exactly if nobody else was there.
pub proof fn law_leave(rooms: RoomsView, code: Seq<char>, client_id: Seq<char>)
    requires
        rooms_wf(rooms),
    ensures
        !has_member(room_of(after_leave(rooms, code, client_id), code), client_id),
        forall|other: Seq<char>|
            other != client_id ==> (#[trigger] has_member(
                room_of(after_leave(rooms, code, client_id), code),
                other,
            ) <==> has_member(room_of(rooms, code), other)),
        after_leave(rooms, code, client_id).contains_key(code) <==> exists|other: Seq<char>|
            other != client_id && #[trigger] has_member(room_of(rooms, code), other),
{
    let room = room_of(rooms, code);
    let left = without(room, client_id);
    let after = after_leave(rooms, code, client_id);
    if rooms.contains_key(code) {
        lemma_without_wf(room, client_id);
    } else {
        lemma_without_stranger(room, client_id);
    }
    assert(room_of(after, code) =~= left);
    assert forall|other: Seq<char>| other != client_id implies (#[trigger] has_member(left, other)
        <==> has_member(room, other)) by {
        lemma_without_keeps_others(room, client_id, other);
    }
    if after.contains_key(code) {
        let other = left[0].client_id;
        assert(has_member(left, other));
        assert(other != client_id);
        assert(has_member(room, other));
    }
    if exists|other: Seq<char>| other != client_id && #[trigger] has_member(room, other) {
        let other = choose|other: Seq<char>|
            other != client_id && #[trigger] has_member(room, other);
        assert(has_member(left, other));
        assert(left.len() > 0);
    }
}

/// Taking a client out of a room neither adds nor removes another.
proof fn lemma_without_keeps_others(room: RoomView, client_id: Seq<char>, other: Seq<char>)
    requires
        other != client_id,
    ensures
        has_member(without(room, client_id), other) <==> has_member(room, other),
    decreases room.len(),
{
    reveal(Seq::filter);
    let keep = |peer: PeerView| peer.client_id != client_id;
    let left = without(room, client_id);
    if room.len() == 0 {
    } else {
        let rest = room.drop_last();
        lemma_without_keeps_others(rest, client_id, other);
        let kept = without(rest, client_id);
        if has_member(room, other) {
            let i = choose|i: int| 0 <= i < room.len() && (#[trigger] room[i]).client_id == other;
            if i < rest.len() {
                assert(rest[i].client_id == other);
                let j = choose|j: int| 0 <= j < kept.len() && (#[trigger] kept[j]).client_id == other;
                assert(left[j].client_id == other);
            } else {
                assert(keep(room.last()));
                assert(left[left.len() - 1].client_id == other);
            }
        }
        if has_member(left, other) {
            let j = choose|j: int| 0 <= j < left.len() && (#[trigger] left[j]).client_id == other;
            if j < kept.len() {
                assert(kept[j].client_id == other);
                let i = choose|i: int| 0 <= i < rest.len() && (#[trigger] rest[i]).client_id == other;
                assert(room[i].client_id == other);
            } else {
                assert(room[room.len() - 1].client_id == other);
            }
        }
    }
}

/// What is done in one room changes no other room.
pub proof fn law_other_rooms_stay(
    rooms: RoomsView,
    code: Seq<char>,
    other: Seq<char>,
    client_id: Seq<char>,
    sender: u64,
    udp_addr: Seq<char>,
)
    requires
        code != other,
    ensures
        room_of(after_create(rooms, code, client_id, sender), other) == room_of(rooms, other),
        room_of(after_join(rooms, code, client_id, sender), other) == room_of(rooms, other),
        room_of(after_leave(rooms, code, client_id), other) == room_of(rooms, other),
        room_of(after_register(rooms, code, client_id, udp_addr), other) == room_of(rooms, other),
{
}

/// When one of two clients in a room registers its address, each is told the address
/// of the other if the other has registered, and nobody is told anything if not.
pub proof fn law_registering_introduces(
    rooms: RoomsView,
    code: Seq<char>,
    i: int,
    udp_addr: Seq<char>,
)
    requires
        rooms_wf(rooms),
        rooms.contains_key(code),
        rooms[code].len() == 2,
        i == 0 || i == 1,
    ensures
        register_notices(rooms, code, rooms[code][i].client_id, udp_addr) == match rooms[code][1
            - i].udp_addr {
            Some(other_addr) => {
                let to_it = OutgoingView { to: rooms[code][i].sender, text: peer_line(other_addr) };
                let to_other = OutgoingView {
                    to: rooms[code][1 - i].sender,
                    text: peer_line(udp_addr),
                };
                if i == 0 {
                    seq![to_it, to_other]
                } else {
                    seq![to_other, to_it]
                }
            },
            None => Seq::empty(),
        },
{
    let room = rooms[code];
    let id = room[i].client_id;
    assert(room_wf(room));
    assert(room[0].client_id != room[1].client_id);
    assert(has_member(room, id));
    let now = registered(room, id, udp_addr);
    assert(now[1 - i] == room[1 - i]);
    assert(now[i].udp_addr == Some(udp_addr));
}

/// Two clients meet: one opens a room and registers its address, the other joins and
/// registers too, and then, and no sooner, each is told the address of the other.
pub proof fn law_two_clients_meet(
    rooms: RoomsView,
    code: Seq<char>,
    a: PeerView,
    b: PeerView,
    addr_a: Seq<char>,
    addr_b: Seq<char>,
)
    requires
        rooms_wf(rooms),
        !rooms.contains_key(code),
        a.client_id != b.client_id,
    ensures
        ({
            let a_in = after_create(rooms, code, a.client_id, a.sender);
            let a_known = after_register(a_in, code, a.client_id, addr_a);
            let b_in = after_join(a_known, code, b.client_id, b.sender);
            &&& register_notices(a_in, code, a.client_id, addr_a) == Seq::<OutgoingView>::empty()
            &&& join_refusal(a_known, code, b.client_id) is None
            &&& register_notices(b_in, code, b.client_id, addr_b) == seq![
                OutgoingView { to: a.sender, text: peer_line(addr_b) },
                OutgoingView { to: b.sender, text: peer_line(addr_a) },
            ]
        }),
{
    let a_in = after_create(rooms, code, a.client_id, a.sender);
    let room_a = a_in[code];
    assert(room_a.len() == 1);
    assert(room_a[0] == (PeerView { client_id: a.client_id, sender: a.sender, udp_addr: None }));
    let a_known = after_register(a_in, code, a.client_id, addr_a);
    let known = a_known[code];
    assert(has_member(room_of(a_in, code), a.client_id));
    assert(known.len() == 1 && known[0].client_id == a.client_id);
    assert(!has_member(known, b.client_id));
    let b_in = after_join(a_known, code, b.client_id, b.sender);
    law_rooms_stay_well_formed(rooms, code, a.client_id, a.sender, addr_a);
    law_rooms_stay_well_formed(a_in, code, a.client_id, a.sender, addr_a);
    law_rooms_stay_well_formed(a_known, code, b.client_id, b.sender, addr_b);
    assert(b_in[code].len() == 2 && b_in[code][1].client_id == b.client_id);
    assert(b_in[code][0] == known[0]);
    law_registering_introduces(b_in, code, 1, addr_b);
}

/// A client is told an address only where two are in the room and both have
/// registered, and the address is the one that the other has registered.
pub proof fn law_introductions(room: RoomView, i: int)
    requires
        0 <= i < introductions(room).len(),
    ensures
        room.len() == 2,
        room[i].udp_addr is Some,
        room[1 - i].udp_addr is Some,
        introductions(room)[i] == (OutgoingView {
            to: room[i].sender,
            text: peer_line(room[1 - i].udp_addr->0),
        }),
{
}

/// A client that is in one room only registers its address there.
pub proof fn law_registers_in_its_room(
    rooms: RoomsView,
    code: Seq<char>,
    client_id: Seq<char>,
    udp_addr: Seq<char>,
    after: RoomsView,
    notices: Seq<OutgoingView>,
)
    requires
        rooms.contains_key(code),
        has_member(rooms[code], client_id),
        forall|other: Seq<char>| #[trigger]
            rooms.contains_key(other) && has_member(rooms[other], client_id) ==> other == code,
        register_result(rooms, client_id, udp_addr, after, notices),
    ensures
        after == after_register(rooms, code, client_id, udp_addr),
        notices == register_notices(rooms, code, client_id, udp_addr),
{
}

/// The room that a connection takes for its own has the client in it.
pub open spec fn is_in_its_room(session: SessionView, rooms: RoomsView) -> bool {
    session.current_room matches Some(code) ==> has_member(room_of(rooms, code), session.client_id)
}

/// The client is in no room but the one that the connection takes for its own.
pub open spec fn is_in_no_other_room(session: SessionView, rooms: RoomsView) -> bool {
    forall|code: Seq<char>| #[trigger]
        has_member(room_of(rooms, code), session.client_id) ==> session.current_room == Some(code)
}

/// A client that is new is in the room that its connection takes for its own, and in
/// no other: it is in none.
pub proof fn law_new_client_is_in_no_room(session: SessionView, rooms: RoomsView)
    requires
        session.current_room is None,
        !is_anywhere(rooms, session.client_id),
    ensures
        is_in_its_room(session, rooms),
        is_in_no_other_room(session, rooms),
{
    assert forall|code: Seq<char>| #[trigger]
        has_member(room_of(rooms, code), session.client_id) implies false by {
        assert(rooms.contains_key(code) && has_member(rooms[code], session.client_id));
    }
}

/// Whatever a client asks for, the room that its connection takes for its own has it
/// in it. The same goes for every other client, whatever this one asks for, when it is
/// gone, and when it registers an address.
pub proof fn law_clients_stay_in_their_rooms(
    session: SessionView,
    other: SessionView,
    rooms: RoomsView,
    request: RequestView,
    draw: u64,
    code: Seq<char>,
    udp_addr: Seq<char>,
)
    requires
        rooms_wf(rooms),
        is_in_its_room(session, rooms),
        is_in_its_room(other, rooms),
        session.client_id != other.client_id,
    ensures
        is_in_its_room(
            session.served(rooms, request, draw).session,
            session.served(rooms, request, draw).rooms,
        ),
        is_in_its_room(other, session.served(rooms, request, draw).rooms),
        is_in_its_room(other, session.gone(rooms).rooms),
        is_in_its_room(session, after_register(rooms, code, session.client_id, udp_addr)),
        is_in_its_room(other, after_register(rooms, code, session.client_id, udp_addr)),
{
    match request {
        RequestView::Create => {
            law_fresh_code(rooms, draw);
            if session.current_room is None {
                if let Some(opened) = fresh_code(rooms, draw) {
                    let after = after_create(rooms, opened, session.client_id, session.sender);
                    assert(after[opened][0].client_id == session.client_id);
                    assert(has_member(room_of(after, opened), session.client_id));
                    if let Some(its) = other.current_room {
                        assert(its != opened);
                    }
                }
            }
        },
        RequestView::Join(asked) => {
            law_join(rooms, asked, session.client_id, session.sender);
            lemma_join_keeps_members(
                rooms,
                asked,
                session.client_id,
                session.sender,
                other.current_room.unwrap_or(asked),
                other.client_id,
            );
        },
        _ => {},
    }
    if let Some(left) = session.current_room {
        law_leave(rooms, left, session.client_id);
        if let Some(its) = other.current_room {
            if its == left {
                assert(has_member(
                    room_of(after_leave(rooms, left, session.client_id), left),
                    other.client_id,
                ));
            }
        }
    }
    lemma_register_keeps_members(
        rooms,
        code,
        session.client_id,
        udp_addr,
        session.current_room.unwrap_or(code),
        session.client_id,
    );
    lemma_register_keeps_members(
        rooms,
        code,
        session.client_id,
        udp_addr,
        other.current_room.unwrap_or(code),
        other.client_id,
    );
}

/// Who is in a room stays there when someone joins one.
proof fn lemma_join_keeps_members(
    rooms: RoomsView,
    code: Seq<char>,
    client_id: Seq<char>,
    sender: u64,
    place: Seq<char>,
    member: Seq<char>,
)
    requires
        has_member(room_of(rooms, place), member) || place == code,
    ensures
        has_member(room_of(rooms, place), member) ==> has_member(
            room_of(after_join(rooms, code, client_id, sender), place),
            member,
        ),
{
    let before = room_of(rooms, place);
    if has_member(before, member) {
        let i = choose|i: int| 0 <= i < before.len() && (#[trigger] before[i]).client_id == member;
        let after = room_of(after_join(rooms, code, client_id, sender), place);
        assert(after[i].client_id == member);
    }
}

/// Who is in a room stays there when someone registers an address, and nobody else
/// comes in.
proof fn lemma_register_keeps_members(
    rooms: RoomsView,
    code: Seq<char>,
    client_id: Seq<char>,
    udp_addr: Seq<char>,
    place: Seq<char>,
    member: Seq<char>,
)
    ensures
        has_member(room_of(rooms, place), member) <==> has_member(
            room_of(after_register(rooms, code, client_id, udp_addr), place),
            member,
        ),
{
    let before = room_of(rooms, place);
    let after = room_of(after_register(rooms, code, client_id, udp_addr), place);
    assert(after.len() == before.len());
    assert forall|i: int| 0 <= i < before.len() implies (#[trigger] after[i]).client_id
        == before[i].client_id by {}
    if has_member(before, member) {
        let i = choose|i: int| 0 <= i < before.len() && (#[trigger] before[i]).client_id == member;
        assert(after[i].client_id == member);
    }
    if has_member(after, member) {
        let i = choose|i: int| 0 <= i < after.len() && (#[trigger] after[i]).client_id == member;
        assert(before[i].client_id == member);
    }
}

/// When a client joins a room, nobody else comes into any room.
proof fn lemma_join_brings_nobody_else(
    rooms: RoomsView,
    code: Seq<char>,
    client_id: Seq<char>,
    sender: u64,
    place: Seq<char>,
    other: Seq<char>,
)
    requires
        other != client_id,
        has_member(room_of(after_join(rooms, code, client_id, sender), place), other),
    ensures
        has_member(room_of(rooms, place), other),
{
    let before = room_of(rooms, place);
    let after = room_of(after_join(rooms, code, client_id, sender), place);
    let i = choose|i: int| 0 <= i < after.len() && (#[trigger] after[i]).client_id == other;
    assert(before[i].client_id == other);
}

/// When a client opens a room, nobody else comes into any room.
proof fn lemma_create_brings_nobody_else(
    rooms: RoomsView,
    code: Seq<char>,
    client_id: Seq<char>,
    sender: u64,
    place: Seq<char>,
    other: Seq<char>,
)
    requires
        other != client_id,
        has_member(room_of(after_create(rooms, code, client_id, sender), place), other),
    ensures
        has_member(room_of(rooms, place), other),
{
    let before = room_of(rooms, place);
    let after = room_of(after_create(rooms, code, client_id, sender), place);
    let i = choose|i: int| 0 <= i < after.len() && (#[trigger] after[i]).client_id == other;
    if place != code || rooms.contains_key(code) {
        assert(before[i].client_id == other);
    }
}

/// Whatever a client asks for, it is in no room but the one that its connection takes
/// for its own. The same goes for every other client, whatever this one asks for, when
/// it is gone, and when it registers an address.
pub proof fn law_one_room_at_a_time(
    session: SessionView,
    other: SessionView,
    rooms: RoomsView,
    request: RequestView,
    draw: u64,
    place: Seq<char>,
    udp_addr: Seq<char>,
)
    requires
        rooms_wf(rooms),
        is_in_no_other_room(session, rooms),
        is_in_no_other_room(other, rooms),
        session.client_id != other.client_id,
    ensures
        is_in_no_other_room(
            session.served(rooms, request, draw).session,
            session.served(rooms, request, draw).rooms,
        ),
        is_in_no_other_room(other, session.served(rooms, request, draw).rooms),
        is_in_no_other_room(other, session.gone(rooms).rooms),
        is_in_no_other_room(session, after_register(rooms, place, session.client_id, udp_addr)),
        is_in_no_other_room(other, after_register(rooms, place, session.client_id, udp_addr)),
{
    let id = session.client_id;
    let after = session.served(rooms, request, draw);
    assert forall|code: Seq<char>| #[trigger]
        has_member(room_of(after.rooms, code), id) implies after.session.current_room == Some(
        code,
    ) by {
        lemma_own_room_after(session, rooms, request, draw, code);
    }
    assert forall|code: Seq<char>| #[trigger]
        has_member(room_of(session.gone(rooms).rooms, code), other.client_id) implies has_member(
        room_of(rooms, code),
        other.client_id,
    ) by {
        if let Some(left) = session.current_room {
            law_leave(rooms, left, id);
            if code == left {
                assert(has_member(room_of(after_leave(rooms, left, id), left), other.client_id));
            }
        }
    }
    assert forall|code: Seq<char>| #[trigger]
        has_member(room_of(after.rooms, code), other.client_id) implies has_member(
        room_of(rooms, code),
        other.client_id,
    ) by {
        match request {
            RequestView::Create => {
                if let Some(opened) = fresh_code(rooms, draw) {
                    if session.current_room is None {
                        lemma_create_brings_nobody_else(
                            rooms,
                            opened,
                            id,
                            session.sender,
                            code,
                            other.client_id,
                        );
                    }
                }
            },
            RequestView::Join(asked) => {
                if !session.is_elsewhere(asked) {
                    lemma_join_brings_nobody_else(
                        rooms,
                        asked,
                        id,
                        session.sender,
                        code,
                        other.client_id,
                    );
                }
            },
            RequestView::Leave => {
                assert(after.rooms == session.gone(rooms).rooms);
            },
            _ => {},
        }
    }
    assert forall|code: Seq<char>, who: Seq<char>| #[trigger]
        has_member(room_of(after_register(rooms, place, id, udp_addr), code), who) implies has_member(
        room_of(rooms, code),
        who,
    ) by {
        lemma_register_keeps_members(rooms, place, id, udp_addr, code, who);
    }
}

/// Where a client is after its request, if it was in no room but the one that its
/// connection takes for its own.
proof fn lemma_own_room_after(
    session: SessionView,
    rooms: RoomsView,
    request: RequestView,
    draw: u64,
    code: Seq<char>,
)
    requires
        rooms_wf(rooms),
        is_in_no_other_room(session, rooms),
        has_member(
            room_of(session.served(rooms, request, draw).rooms, code),
            session.client_id,
        ),
    ensures
        session.served(rooms, request, draw).session.current_room == Some(code),
{
    let id = session.client_id;
    match request {
        RequestView::Create => {
            if session.current_room is Some || fresh_code(rooms, draw) is None {
                assert(has_member(room_of(rooms, code), id));
            } else if fresh_code(rooms, draw) != Some(code) {
                assert(has_member(room_of(rooms, code), id));
            }
        },
        RequestView::Join(asked) => {
            if session.is_elsewhere(asked) || join_refusal(rooms, asked, id) is Some {
                assert(has_member(room_of(rooms, code), id));
            } else if code != asked {
                law_other_rooms_stay(rooms, asked, code, id, session.sender, Seq::empty());
                assert(has_member(room_of(rooms, code), id));
            }
        },
        RequestView::Leave | RequestView::P2pFailed => {
            if let Some(left) = session.current_room {
                law_leave(rooms, left, id);
                if code != left {
                    assert(has_member(room_of(rooms, code), id));
                }
            } else {
                assert(has_member(room_of(rooms, code), id));
            }
        },
        _ => {
            assert(has_member(room_of(rooms, code), id));
        },
    }
}

/// A client that is in no room and asks for one is told the code of a new room, in
/// which it is alone, as long as there are fewer rooms than codes. The code has six
/// characters that are not easily taken for others, and the other rooms stay as they
/// are.
pub proof fn law_create(session: SessionView, rooms: RoomsView, draw: u64)
    requires
        session.current_room is None,
        rooms.dom().finite(),
        rooms.len() < ROOM_CODES,
    ensures
        ({
            let after = session.served(rooms, RequestView::Create, draw);
            &&& after.session.current_room matches Some(code)
            &&& is_room_code(code)
            &&& !rooms.contains_key(code)
            &&& after.sent == seq![session.told(created_line(code))]
            &&& after.rooms == rooms.insert(
                code,
                seq![
                    PeerView {
                        client_id: session.client_id,
                        sender: session.sender,
                        udp_addr: None,
                    },
                ],
            )
        }),
{
    law_fresh_code(rooms, draw);
}

/// A client that could not reach its peer is in no room any more and is told nothing
/// of it; the others in the room are told that it left. So it can go to another room.
pub proof fn law_failed_client_is_free(session: SessionView, rooms: RoomsView, draw: u64)
    requires
        rooms_wf(rooms),
        is_in_no_other_room(session, rooms),
    ensures
        ({
            let after = session.served(rooms, RequestView::P2pFailed, draw);
            &&& after.session == (SessionView { current_room: None, ..session })
            &&& !is_anywhere(after.rooms, session.client_id)
            &&& after.sent == match session.current_room {
                Some(code) => leave_notices(rooms, code, session.client_id),
                None => Seq::empty(),
            }
        }),
{
    law_gone_client_is_nowhere(session, rooms);
}

/// A client whose connection is gone is in no room.
pub proof fn law_gone_client_is_nowhere(session: SessionView, rooms: RoomsView)
    requires
        rooms_wf(rooms),
        is_in_no_other_room(session, rooms),
    ensures
        !is_anywhere(session.gone(rooms).rooms, session.client_id),
{
    let after = session.gone(rooms).rooms;
    if is_anywhere(after, session.client_id) {
        let code = choose|code: Seq<char>| #[trigger]
            after.contains_key(code) && has_member(after[code], session.client_id);
        assert(room_of(after, code) == after[code]);
        if let Some(left) = session.current_room {
            law_leave(rooms, left, session.client_id);
            if code != left {
                assert(has_member(room_of(rooms, code), session.client_id));
            }
        } else {
            assert(has_member(room_of(rooms, code), session.client_id));
        }
    }
}

/// A request that is refused changes nothing, and the client, and nobody else, is
/// told why: that it is in a room already, that every room code is taken, why it cannot
/// join, that it named no room, that it is in none, or that the request is unknown.
pub proof fn law_refused_requests(
    session: SessionView,
    rooms: RoomsView,
    request: RequestView,
    draw: u64,
)
    requires
        match request {
            RequestView::Create => session.current_room is Some || fresh_code(rooms, draw) is None,
            RequestView::Join(code) => session.is_elsewhere(code) || join_refusal(
                rooms,
                code,
                session.client_id,
            ) is Some,
            RequestView::JoinWithoutCode => true,
            RequestView::Leave => session.current_room is None,
            RequestView::P2pFailed => false,
            RequestView::Unknown => true,
        },
    ensures
        session.served(rooms, request, draw).session == session,
        session.served(rooms, request, draw).rooms == rooms,
        session.served(rooms, request, draw).sent == seq![
            OutgoingView {
                to: session.sender,
                text: match request {
                    RequestView::Create => if session.current_room is Some {
                        "ALREADY_IN_ROOM\n"@
                    } else {
                        "ERROR NO_ROOM_CODE\n"@
                    },
                    RequestView::Join(code) => if session.is_elsewhere(code) {
                        "ALREADY_IN_ROOM\n"@
                    } else {
                        join_refusal(rooms, code, session.client_id)->0.text() + "\n"@
                    },
                    RequestView::JoinWithoutCode => "ERROR INVALID_JOIN\n"@,
                    RequestView::Leave => "NOT_IN_ROOM\n"@,
                    _ => "ERROR UNKNOWN_COMMAND\n"@,
                },
            },
        ],
{
}

/// A client is in a room exactly if one of those in the room has its ID, and it is
/// somewhere exactly if it is in some room.
pub proof fn law_who_is_where(rooms: RoomsView, code: Seq<char>, client_id: Seq<char>)
    ensures
        has_member(room_of(rooms, code), client_id) <==> rooms.contains_key(code) && exists|i: int|
            0 <= i < rooms[code].len() && (#[trigger] rooms[code][i]).client_id == client_id,
        is_anywhere(rooms, client_id) <==> exists|c: Seq<char>, i: int|
            rooms.contains_key(c) && 0 <= i < rooms[c].len() && (
            #[trigger] rooms[c][i]).client_id == client_id,
        !rooms.contains_key(code) ==> room_of(rooms, code).len() == 0,
        rooms.contains_key(code) ==> room_of(rooms, code) == rooms[code],
{
    if is_anywhere(rooms, client_id) {
        let c = choose|c: Seq<char>| #[trigger]
            rooms.contains_key(c) && has_member(rooms[c], client_id);
        let i = choose|i: int|
            0 <= i < rooms[c].len() && (#[trigger] rooms[c][i]).client_id == client_id;
        assert(rooms[c][i].client_id == client_id);
    }
    if exists|c: Seq<char>, i: int|
        rooms.contains_key(c) && 0 <= i < rooms[c].len() && (#[trigger] rooms[c][i]).client_id
            == client_id {
        let (c, i) = choose|c: Seq<char>, i: int|
            rooms.contains_key(c) && 0 <= i < rooms[c].len() && (#[trigger] rooms[c][i]).client_id
                == client_id;
        assert(has_member(rooms[c], client_id));
    }
}

/// Rooms are well formed exactly if each has one or two clients, and not one client
/// twice.
pub proof fn law_well_formed_rooms(rooms: RoomsView)
    ensures
        rooms_wf(rooms) <==> forall|code: Seq<char>| #[trigger]
            rooms.contains_key(code) ==> (rooms[code].len() == 1 || rooms[code].len() == 2 && rooms[
                code
            ][0].client_id != rooms[code][1].client_id),
{
    assert forall|code: Seq<char>| rooms.contains_key(code) implies room_wf(rooms[code]) == (
    rooms[code].len() == 1 || rooms[code].len() == 2 && rooms[code][0].client_id
        != rooms[code][1].client_id) by {
        let room = rooms[code];
        if room_wf(room) && room.len() == 2 {
            assert(room[0].client_id != room[1].client_id);
        }
    }
}

/// A room that is opened holds the client that opened it, alone, without a UDP address.
/// Where there is such a room nothing is changed, and never is another room.
pub proof fn law_opened_rooms(
    rooms: RoomsView,
    code: Seq<char>,
    client_id: Seq<char>,
    sender: u64,
    other: Seq<char>,
)
    ensures
        ({
            let after = after_create(rooms, code, client_id, sender);
            &&& rooms.contains_key(code) ==> after == rooms
            &&& after.contains_key(code)
            &&& !rooms.contains_key(code) ==> {
                &&& after[code].len() == 1
                &&& after[code][0].client_id == client_id
                &&& after[code][0].sender == sender
                &&& after[code][0].udp_addr is None
            }
            &&& other != code ==> (after.contains_key(other) <==> rooms.contains_key(other))
            &&& other != code && rooms.contains_key(other) ==> after[other] == rooms[other]
        }),
{
}

/// A client can join every room that is there, holds one client, and not itself. It then
/// stands last in the room, without a UDP address, and those who were there, with what
/// is known of them, and all other rooms stay as they are. Else it is told what is in
/// the way, and nothing is changed.
pub proof fn law_joined_rooms(
    rooms: RoomsView,
    code: Seq<char>,
    client_id: Seq<char>,
    sender: u64,
    other: Seq<char>,
)
    ensures
        ({
            let after = after_join(rooms, code, client_id, sender);
            let refusal = join_refusal(rooms, code, client_id);
            let room = rooms[code];
            let inside = exists|i: int|
                0 <= i < room.len() && (#[trigger] room[i]).client_id == client_id;
            &&& !rooms.contains_key(code) ==> refusal == Some(JoinError::RoomNotFound)
            &&& rooms.contains_key(code) && inside ==> refusal == Some(JoinError::AlreadyJoined)
            &&& rooms.contains_key(code) && !inside && room.len() >= 2 ==> refusal == Some(
                JoinError::RoomFull,
            )
            &&& rooms.contains_key(code) && !inside && room.len() < 2 ==> {
                &&& refusal is None
                &&& after.contains_key(code)
                &&& after[code].len() == room.len() + 1
                &&& after[code].last().client_id == client_id
                &&& after[code].last().sender == sender
                &&& after[code].last().udp_addr is None
                &&& forall|i: int| 0 <= i < room.len() ==> #[trigger] after[code][i] == room[i]
                &&& other != code ==> (after.contains_key(other) <==> rooms.contains_key(other))
                &&& other != code && rooms.contains_key(other) ==> after[other] == rooms[other]
            }
            &&& refusal is Some ==> after == rooms
        }),
        JoinError::RoomNotFound.text() == "ROOM_NOT_FOUND"@,
        JoinError::AlreadyJoined.text() == "ALREADY_JOINED"@,
        JoinError::RoomFull.text() == "ROOM_FULL"@,
{
}

/// When a client leaves a room, those who stay are those who were there but for the one
/// that leaves, in the same order, each with the same ID, connection and UDP address; the
/// room is closed if nobody stays. Each of those who stay is told who left, and nobody
/// else is told anything. Other rooms stay as they are.
pub proof fn law_left_rooms(
    rooms: RoomsView,
    code: Seq<char>,
    i: int,
    client_id: Seq<char>,
    other: Seq<char>,
)
    requires
        rooms.contains_key(code),
        0 <= i < rooms[code].len(),
        forall|j: int|
            0 <= j < rooms[code].len() ==> ((#[trigger] rooms[code][j]).client_id == client_id
                <==> j == i),
    ensures
        ({
            let room = rooms[code];
            let after = after_leave(rooms, code, client_id);
            let notices = leave_notices(rooms, code, client_id);
            &&& after.contains_key(code) <==> room.len() > 1
            &&& room.len() > 1 ==> {
                &&& after[code].len() == room.len() - 1
                &&& forall|j: int| 0 <= j < i ==> #[trigger] after[code][j] == room[j]
                &&& forall|j: int|
                    i <= j < room.len() - 1 ==> #[trigger] after[code][j] == room[j + 1]
            }
            &&& notices.len() == room.len() - 1
            &&& forall|j: int|
                0 <= j < i ==> #[trigger] notices[j] == (OutgoingView {
                    to: room[j].sender,
                    text: "PEER_LEFT "@ + client_id + "\n"@,
                })
            &&& forall|j: int|
                i <= j < room.len() - 1 ==> #[trigger] notices[j] == (OutgoingView {
                    to: room[j + 1].sender,
                    text: "PEER_LEFT "@ + client_id + "\n"@,
                })
            &&& other != code ==> (after.contains_key(other) <==> rooms.contains_key(other))
            &&& other != code && rooms.contains_key(other) ==> after[other] == rooms[other]
        }),
{
    let room = rooms[code];
    lemma_without_one(room, i);
    assert(room[i].client_id == client_id);
}

/// A room in which one client has the ID of the one that leaves loses that place.
proof fn lemma_without_one(room: RoomView, i: int)
    requires
        0 <= i < room.len(),
        forall|j: int|
            0 <= j < room.len() ==> ((#[trigger] room[j]).client_id == room[i].client_id <==> j
                == i),
    ensures
        without(room, room[i].client_id) == room.remove(i),
    decreases room.len(),
{
    reveal(Seq::filter);
    let id = room[i].client_id;
    let rest = room.drop_last();
    if i == room.len() - 1 {
        assert forall|j: int| 0 <= j < rest.len() implies (#[trigger] rest[j]).client_id != id by {
            assert(rest[j] == room[j]);
        }
        lemma_without_stranger(rest, id);
        assert(room.remove(i) =~= rest);
    } else {
        assert forall|j: int| 0 <= j < rest.len() implies ((#[trigger] rest[j]).client_id
            == rest[i].client_id <==> j == i) by {
            assert(rest[j] == room[j]);
        }
        lemma_without_one(rest, i);
        assert(room.last().client_id != id);
        assert(room.remove(i) =~= rest.remove(i).push(room.last()));
    }
}

/// When a client that is not in a room leaves it, nobody leaves: nothing is changed, and
/// those in the room are told all the same.
pub proof fn law_strangers_leave_nothing(rooms: RoomsView, code: Seq<char>, client_id: Seq<char>)
    requires
        rooms.contains_key(code) ==> rooms[code].len() > 0 && forall|j: int|
            0 <= j < rooms[code].len() ==> (#[trigger] rooms[code][j]).client_id != client_id,
    ensures
        after_leave(rooms, code, client_id) == rooms,
        !rooms.contains_key(code) ==> leave_notices(rooms, code, client_id).len() == 0,
        rooms.contains_key(code) ==> {
            let notices = leave_notices(rooms, code, client_id);
            &&& notices.len() == rooms[code].len()
            &&& forall|j: int|
                0 <= j < notices.len() ==> #[trigger] notices[j] == (OutgoingView {
                    to: rooms[code][j].sender,
                    text: "PEER_LEFT "@ + client_id + "\n"@,
                })
        },
{
    lemma_without_stranger(room_of(rooms, code), client_id);
    if rooms.contains_key(code) {
        assert(rooms.insert(code, rooms[code]) =~= rooms);
    } else {
        assert(rooms.remove(code) =~= rooms);
    }
}

/// Whoever leaves a room of two, the other stays with its ID, its connection and the UDP
/// address that it registered, so that the next client that joins and registers is told
/// that address and the other the address of the newcomer.
pub proof fn law_who_stays_meets_the_next(
    rooms: RoomsView,
    code: Seq<char>,
    i: int,
    newcomer: PeerView,
    addr: Seq<char>,
)
    requires
        rooms.contains_key(code),
        rooms[code].len() == 2,
        i == 0 || i == 1,
        rooms[code][0].client_id != rooms[code][1].client_id,
        rooms[code][1 - i].udp_addr is Some,
        newcomer.client_id != rooms[code][1 - i].client_id,
    ensures
        ({
            let stays = rooms[code][1 - i];
            let left = after_leave(rooms, code, rooms[code][i].client_id);
            let joined = after_join(left, code, newcomer.client_id, newcomer.sender);
            &&& left[code].len() == 1
            &&& left[code][0].client_id == stays.client_id
            &&& left[code][0].sender == stays.sender
            &&& left[code][0].udp_addr == stays.udp_addr
            &&& register_notices(joined, code, newcomer.client_id, addr) == seq![
                OutgoingView { to: stays.sender, text: "PEER "@ + addr + "\n"@ },
                OutgoingView {
                    to: newcomer.sender,
                    text: "PEER "@ + stays.udp_addr->0 + "\n"@,
                },
            ]
        }),
{
    let stays = rooms[code][1 - i];
    let left = after_leave(rooms, code, rooms[code][i].client_id);
    law_left_rooms(rooms, code, i, rooms[code][i].client_id, code);
    assert(left[code][0] == stays);
    let joined = after_join(left, code, newcomer.client_id, newcomer.sender);
    law_joined_rooms(left, code, newcomer.client_id, newcomer.sender, code);
    assert(joined[code].len() == 2);
    assert(joined[code][0] == stays);
    let room = joined[code];
    assert(has_member(room, newcomer.client_id)) by {
        assert(room[1].client_id == newcomer.client_id);
    }
    let now = registered(room, newcomer.client_id, addr);
    assert(now[0] == stays);
    assert(now[1].udp_addr == Some(addr));
}

/// A client that registers in a room in which it is has the address that it registered
/// from then on. Its ID and connection, whatever is known of the others, and all other
/// rooms stay as they are. One that is not in the room changes nothing, and nobody is
/// told anything.
pub proof fn law_registered_addresses(
    rooms: RoomsView,
    code: Seq<char>,
    client_id: Seq<char>,
    udp_addr: Seq<char>,
    i: int,
    other: Seq<char>,
)
    ensures
        ({
            let after = after_register(rooms, code, client_id, udp_addr);
            let room = rooms[code];
            let inside = rooms.contains_key(code) && exists|j: int|
                0 <= j < room.len() && (#[trigger] room[j]).client_id == client_id;
            &&& !inside ==> after == rooms
            &&& !inside ==> register_notices(rooms, code, client_id, udp_addr).len() == 0
            &&& inside ==> after.contains_key(code) && after[code].len() == room.len()
            &&& inside && 0 <= i < room.len() ==> {
                &&& after[code][i].client_id == room[i].client_id
                &&& after[code][i].sender == room[i].sender
                &&& after[code][i].udp_addr == if room[i].client_id == client_id {
                    Some(udp_addr)
                } else {
                    room[i].udp_addr
                }
            }
            &&& inside ==> register_notices(rooms, code, client_id, udp_addr) == introductions(
                after[code],
            )
            &&& other != code ==> (after.contains_key(other) <==> rooms.contains_key(other))
            &&& other != code && rooms.contains_key(other) ==> after[other] == rooms[other]
        }),
{
}

/// Those in a room are told of each other exactly if they are two and both addresses are
/// known: the first is told the address of the second, and the second that of the first.
pub proof fn law_who_is_introduced(room: RoomView)
    ensures
        ({
            let ready = room.len() == 2 && room[0].udp_addr is Some && room[1].udp_addr is Some;
            &&& introductions(room).len() == if ready {
                2nat
            } else {
                0nat
            }
            &&& ready ==> introductions(room)[0] == (OutgoingView {
                to: room[0].sender,
                text: "PEER "@ + room[1].udp_addr->0 + "\n"@,
            })
            &&& ready ==> introductions(room)[1] == (OutgoingView {
                to: room[1].sender,
                text: "PEER "@ + room[0].udp_addr->0 + "\n"@,
            })
        }),
{
}

/// Every packet whose words are `REGISTER` and the ID of a client, however long it is and
/// whatever follows, registers the address that it came from: in the room of the client,
/// if it is in one room, where those in it are told of each other once both addresses are
/// known. The ID may be any word.
pub proof fn law_register_packets(
    rooms: RoomsView,
    text: Seq<char>,
    client_id: Seq<char>,
    code: Seq<char>,
    source: Seq<char>,
    after: RoomsView,
    notices: Seq<OutgoingView>,
)
    requires
        text == "REGISTER "@ + client_id || (words(text).len() >= 2 && words(text)[0]
            == "REGISTER"@ && words(text)[1] == client_id),
        client_id.len() > 0,
        forall|i: int| 0 <= i < client_id.len() ==> !is_white_space(#[trigger] client_id[i]),
        rooms.contains_key(code),
        exists|i: int|
            0 <= i < rooms[code].len() && (#[trigger] rooms[code][i]).client_id == client_id,
        forall|c: Seq<char>, i: int|
            rooms.contains_key(c) && 0 <= i < rooms[c].len() && (#[trigger] rooms[c][i]).client_id
                == client_id ==> c == code,
        packet_result(rooms, text, source, after, notices),
    ensures
        after == after_register(rooms, code, client_id, source),
        notices == register_notices(rooms, code, client_id, source),
{
    if text == "REGISTER "@ + client_id {
        lemma_registration_words(client_id);
    }
    assert(registering(words(text)) == Some(client_id));
    assert(has_member(rooms[code], client_id));
    assert(is_anywhere(rooms, client_id));
    assert forall|other: Seq<char>| #[trigger]
        rooms.contains_key(other) && has_member(rooms[other], client_id) implies other == code by {
        let i = choose|i: int|
            0 <= i < rooms[other].len() && (#[trigger] rooms[other][i]).client_id == client_id;
        assert(rooms[other][i].client_id == client_id);
    }
    law_registers_in_its_room(rooms, code, client_id, source, after, notices);
}

/// The words of the packet that registers a client.
pub(crate) proof fn lemma_registration_words(client_id: Seq<char>)
    requires
        client_id.len() > 0,
        forall|i: int| 0 <= i < client_id.len() ==> !is_white_space(#[trigger] client_id[i]),
    ensures
        words("REGISTER "@ + client_id) == seq!["REGISTER"@, client_id],
{
    reveal_strlit("REGISTER ");
    reveal_strlit("REGISTER");
    law_line_words("REGISTER"@, client_id);
    law_word_is_its_own_words(client_id);
    assert("REGISTER"@.push(' ') + client_id =~= "REGISTER "@ + client_id);
    assert(seq!["REGISTER"@] + seq![client_id] =~= seq!["REGISTER"@, client_id]);
}

/// Two clients in a room whose packets come in one after the other are introduced: the
/// first packet only stores its address, and with the second each is told the address
/// that the packet of the other came from.
pub proof fn law_two_packets_introduce(
    rooms: RoomsView,
    code: Seq<char>,
    i: int,
    source_a: Seq<char>,
    source_b: Seq<char>,
)
    requires
        rooms_wf(rooms),
        rooms.contains_key(code),
        rooms[code].len() == 2,
        i == 0 || i == 1,
        rooms[code][0].udp_addr is None,
        rooms[code][1].udp_addr is None,
    ensures
        ({
            let a = rooms[code][i];
            let b = rooms[code][1 - i];
            let between = after_register(rooms, code, a.client_id, source_a);
            let notices = register_notices(between, code, b.client_id, source_b);
            &&& register_notices(rooms, code, a.client_id, source_a).len() == 0
            &&& notices.len() == 2
            &&& notices[i] == (OutgoingView { to: a.sender, text: "PEER "@ + source_b + "\n"@ })
            &&& notices[1 - i] == (OutgoingView {
                to: b.sender,
                text: "PEER "@ + source_a + "\n"@,
            })
        }),
{
    let room = rooms[code];
    let a = room[i];
    let b = room[1 - i];
    assert(room_wf(room));
    assert(room[0].client_id != room[1].client_id);
    law_registering_introduces(rooms, code, i, source_a);
    let between = after_register(rooms, code, a.client_id, source_a);
    law_registered_addresses(rooms, code, a.client_id, source_a, 0, code);
    law_registered_addresses(rooms, code, a.client_id, source_a, 1, code);
    assert(room[i].client_id == a.client_id);
    law_rooms_stay_well_formed(rooms, code, a.client_id, a.sender, source_a);
    law_registering_introduces(between, code, 1 - i, source_b);
}

/// A packet that does not start with the words `REGISTER` and an ID, and one of a client
/// that is in no room, changes nothing, and nobody is told anything.
pub proof fn law_other_packets(
    rooms: RoomsView,
    text: Seq<char>,
    source: Seq<char>,
    after: RoomsView,
    notices: Seq<OutgoingView>,
)
    requires
        packet_result(rooms, text, source, after, notices),
        words(text).len() >= 2 && words(text)[0] == "REGISTER"@ ==> forall|c: Seq<char>, i: int|
            rooms.contains_key(c) && 0 <= i < rooms[c].len() ==> (
            #[trigger] rooms[c][i]).client_id != words(text)[1],
    ensures
        after == rooms,
        notices.len() == 0,
{
    if words(text).len() >= 2 && words(text)[0] == "REGISTER"@ {
        law_who_is_where(rooms, Seq::empty(), words(text)[1]);
    }
}

/// A packet of a client that is in several rooms registers it in one of them, and changes
/// no other.
pub proof fn law_packets_register_in_one_room(
    rooms: RoomsView,
    client_id: Seq<char>,
    code: Seq<char>,
    source: Seq<char>,
    after: RoomsView,
    notices: Seq<OutgoingView>,
)
    requires
        register_result(rooms, client_id, source, after, notices),
        rooms.contains_key(code),
        exists|i: int|
            0 <= i < rooms[code].len() && (#[trigger] rooms[code][i]).client_id == client_id,
    ensures
        exists|c: Seq<char>| #[trigger]
            rooms.contains_key(c) && has_member(rooms[c], client_id) && after == after_register(
                rooms,
                c,
                client_id,
                source,
            ) && notices == register_notices(rooms, c, client_id, source),
{
    assert(has_member(rooms[code], client_id));
    assert(is_anywhere(rooms, client_id));
}

/// A line of a client is told by its first word; to join, the second word is the code of
/// the room, and may be any word.
pub proof fn law_requests_are_told_apart(parts: Seq<Seq<char>>, code: Seq<char>)
    ensures
        request(parts) is Create <==> parts.len() > 0 && parts[0] == "CREATE"@,
        request(parts) == RequestView::Join(code) <==> parts.len() > 1 && parts[0] == "JOIN"@
            && parts[1] == code,
        request(parts) is JoinWithoutCode <==> parts.len() == 1 && parts[0] == "JOIN"@,
        request(parts) is Leave <==> parts.len() > 0 && parts[0] == "LEAVE"@,
        request(parts) is P2pFailed <==> parts.len() > 0 && parts[0] == "P2P_FAILED"@,
        registering(parts) == Some(code) <==> parts.len() > 1 && parts[0] == "REGISTER"@ && parts[1]
            == code,
{
    reveal_strlit("CREATE");
    reveal_strlit("JOIN");
    reveal_strlit("LEAVE");
    reveal_strlit("P2P_FAILED");
    assert("CREATE"@.len() == 6 && "JOIN"@.len() == 4 && "LEAVE"@.len() == 5
        && "P2P_FAILED"@.len() == 10);
}

/// A client that is in no room, or asks for its own, is let into every room that it can
/// join: the room is the one that its connection takes for its own, the rooms are those
/// after joining, and the client, and nobody else, is told.
pub proof fn law_served_joins(session: SessionView, rooms: RoomsView, code: Seq<char>, draw: u64)
    requires
        session.current_room is None || session.current_room == Some(code),
        join_refusal(rooms, code, session.client_id) is None,
    ensures
        ({
            let after = session.served(rooms, RequestView::Join(code), draw);
            &&& after.session.current_room == Some(code)
            &&& after.session.client_id == session.client_id
            &&& after.session.sender == session.sender
            &&& after.rooms == after_join(rooms, code, session.client_id, session.sender)
            &&& after.sent == seq![
                OutgoingView { to: session.sender, text: "JOINED "@ + code + "\n"@ },
            ]
        }),
{
}

/// A client that asks for a room that it cannot join is told why, and one that is in
/// another room is told that it is in one; nothing is changed by either.
pub proof fn law_refused_joins(session: SessionView, rooms: RoomsView, code: Seq<char>, draw: u64)
    ensures
        ({
            let after = session.served(rooms, RequestView::Join(code), draw);
            let refusal = join_refusal(rooms, code, session.client_id);
            let elsewhere = session.current_room is Some && session.current_room->0 != code;
            &&& elsewhere || refusal is Some ==> after.session == session && after.rooms == rooms
            &&& elsewhere ==> after.sent == seq![
                OutgoingView { to: session.sender, text: "ALREADY_IN_ROOM\n"@ },
            ]
            &&& !elsewhere && refusal is Some ==> after.sent == seq![
                OutgoingView { to: session.sender, text: refusal->0.text() + "\n"@ },
            ]
            &&& session.is_elsewhere(code) <==> elsewhere
        }),
{
}

/// A client that leaves its room, gives up its peer or is gone is out of the room that
/// its connection takes for its own, and of no other; those who stay are told. Only who
/// asks to leave is told that it has left, after the others. One that is in no room is
/// told so if it asks to leave, and nothing happens else.
pub proof fn law_served_leaves(session: SessionView, rooms: RoomsView, draw: u64)
    ensures
        ({
            let left = session.served(rooms, RequestView::Leave, draw);
            let failed = session.served(rooms, RequestView::P2pFailed, draw);
            let gone = session.gone(rooms);
            &&& failed == gone
            &&& session.current_room matches Some(code) ==> {
                let notices = leave_notices(rooms, code, session.client_id);
                &&& gone.session.current_room is None
                &&& gone.session.client_id == session.client_id
                &&& gone.session.sender == session.sender
                &&& gone.rooms == after_leave(rooms, code, session.client_id)
                &&& gone.sent == notices
                &&& left.session == gone.session
                &&& left.rooms == gone.rooms
                &&& left.sent == notices.push(
                    OutgoingView { to: session.sender, text: "LEFT\n"@ },
                )
            }
            &&& session.current_room is None ==> {
                &&& gone.session == session && gone.rooms == rooms && gone.sent.len() == 0
                &&& left.session == session && left.rooms == rooms
                &&& left.sent == seq![
                    OutgoingView { to: session.sender, text: "NOT_IN_ROOM\n"@ },
                ]
            }
        }),
{
}

/// A client that is in no room gets the room whose code was found for it, alone; one that
/// is in a room gets none. The lines that the server sends read as they are written.
pub proof fn law_served_creates(
    session: SessionView,
    rooms: RoomsView,
    draw: u64,
    text: Seq<char>,
)
    ensures
        ({
            let after = session.served(rooms, RequestView::Create, draw);
            &&& session.current_room is Some ==> after.session == session && after.rooms == rooms
                && after.sent == seq![
                OutgoingView { to: session.sender, text: "ALREADY_IN_ROOM\n"@ },
            ]
            &&& session.current_room is None ==> (fresh_code(rooms, draw) matches Some(code) ==> {
                &&& after.session.current_room == Some(code)
                &&& after.session.client_id == session.client_id
                &&& after.session.sender == session.sender
                &&& after.rooms == after_create(rooms, code, session.client_id, session.sender)
                &&& after.sent == seq![
                    OutgoingView { to: session.sender, text: "CREATED "@ + code + "\n"@ },
                ]
            })
        }),
        created_line(text) == "CREATED "@ + text + "\n"@,
        joined_line(text) == "JOINED "@ + text + "\n"@,
        peer_line(text) == "PEER "@ + text + "\n"@,
        peer_left_line(text) == "PEER_LEFT "@ + text + "\n"@,
        client_id_line(text) == "CLIENT_ID "@ + text + "\n"@,
        session.told(text) == (OutgoingView { to: session.sender, text }),
{
}

/// Clients, connections, requests and texts for clients are seen as they are.
pub proof fn law_server_values_are_seen(
    peer: Peer,
    session: ClientSession,
    out: Outgoing,
    request: Request,
)
    ensures
        peer@.client_id == peer.client_id@,
        peer@.sender == peer.sender,
        peer@.udp_addr is Some <==> peer.udp_addr is Some,
        peer.udp_addr matches Some(addr) ==> peer@.udp_addr == Some(addr@),
        session@.client_id == session.client_id@,
        session@.sender == session.sender,
        session@.current_room is Some <==> session.current_room is Some,
        session.current_room matches Some(code) ==> session@.current_room == Some(code@),
        out@.to == out.to,
        out@.text == out.text@,
        request is Create <==> request@ is Create,
        request matches Request::Join(code) ==> request@ == RequestView::Join(code@),
        request is JoinWithoutCode <==> request@ is JoinWithoutCode,
        request is Leave <==> request@ is Leave,
        request is P2pFailed <==> request@ is P2pFailed,
        request is Unknown <==> request@ is Unknown,
{
}

/// Lists of clients and of texts for clients are seen as they are, each in its place.
pub proof fn law_server_lists_are_seen(peers: Seq<Peer>, list: Seq<Outgoing>)
    ensures
        peers_view(peers).len() == peers.len(),
        forall|i: int| 0 <= i < peers.len() ==> #[trigger] peers_view(peers)[i] == peers[i]@,
        outgoing_view(list).len() == list.len(),
        forall|i: int| 0 <= i < list.len() ==> #[trigger] outgoing_view(list)[i] == list[i]@,
{
}

} // verus!
