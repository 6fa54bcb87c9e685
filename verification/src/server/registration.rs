//! The UDP packets by which clients register their addresses.

use crate::server::laws::{law_register_packets, lemma_registration_words};
use crate::server::rooms::{
    after_register, outgoing_view, register_notices, register_result, Outgoing, OutgoingView, Rooms,
    RoomsView,
};
use crate::text::{
    from_utf8_lossy, is_white_space, law_trim_keeps_words, same_text, split_words, trim, utf8_lossy,
    words,
};
use vstd::prelude::*;
use vstd::string::*;
use vstd::utf8::*;

verus! {

/// The ID of the client that a packet with the words `parts` registers, if it
/// registers one.
pub open spec fn registering(parts: Seq<Seq<char>>) -> Option<Seq<char>> {
    if parts.len() >= 2 && parts[0] == "REGISTER"@ {
        Some(parts[1])
    } else {
        None
    }
}

/// What can come of a packet with the text `text` from the address `source`.
pub open spec fn packet_result(
    rooms: RoomsView,
    text: Seq<char>,
    source: Seq<char>,
    after: RoomsView,
    notices: Seq<OutgoingView>,
) -> bool {
    match registering(words(text)) {
        Some(client_id) => register_result(rooms, client_id, source, after, notices),
        None => after == rooms && notices == Seq::<OutgoingView>::empty(),
    }
}

/// The client `client_id` can be named by a packet, and is in the room `code` and in no
/// other.
pub open spec fn is_in_just(rooms: RoomsView, client_id: Seq<char>, code: Seq<char>) -> bool {
    &&& client_id.len() > 0
    &&& forall|i: int| 0 <= i < client_id.len() ==> !is_white_space(#[trigger] client_id[i])
    &&& rooms.contains_key(code)
    &&& exists|i: int|
        0 <= i < rooms[code].len() && (#[trigger] rooms[code][i]).client_id == client_id
    &&& forall|c: Seq<char>, i: int|
        rooms.contains_key(c) && 0 <= i < rooms[c].len() && (#[trigger] rooms[c][i]).client_id
            == client_id ==> c == code
}

/// Takes in a packet with the text `text` from the address `source`. The result is
/// what is told to clients. The packet that registers a client, whatever its ID,
/// registers it in its room.
pub fn handle_udp_text(rooms: &mut Rooms, text: &str, source: &str) -> (r: Vec<Outgoing>)
    requires
        old(rooms).wf(),
    ensures
        final(rooms).wf(),
        packet_result(old(rooms)@, text@, source@, final(rooms)@, outgoing_view(r@)),
        forall|client_id: Seq<char>, code: Seq<char>|
            text@ == "REGISTER "@ + client_id && #[trigger] is_in_just(
                old(rooms)@,
                client_id,
                code,
            ) ==> final(rooms)@ == after_register(old(rooms)@, code, client_id, source@)
                && outgoing_view(r@) == register_notices(old(rooms)@, code, client_id, source@),
{
    proof {
        law_trim_keeps_words(text@);
    }
    let parts = split_words(trim(text));
    proof {
        let ws = words(text@);
        assert(ws.len() == parts@.len());
        assert(forall|i: int| 0 <= i < ws.len() ==> ws[i] == #[trigger] parts@[i]@);
    }
    let notices = if parts.len() >= 2 && same_text(parts[0].as_str(), "REGISTER") {
        rooms.register_udp_addr(parts[1].as_str(), source)
    } else {
        let none: Vec<Outgoing> = Vec::new();
        proof {
            assert(outgoing_view(none@) =~= Seq::empty());
        }
        none
    };
    proof {
        assert forall|client_id: Seq<char>, code: Seq<char>|
            text@ == "REGISTER "@ + client_id && #[trigger] is_in_just(
                old(rooms)@,
                client_id,
                code,
            ) implies rooms@ == after_register(old(rooms)@, code, client_id, source@)
            && outgoing_view(notices@) == register_notices(
            old(rooms)@,
            code,
            client_id,
            source@,
        ) by {
            lemma_registration_words(client_id);
            law_register_packets(
                old(rooms)@,
                text@,
                client_id,
                code,
                source@,
                rooms@,
                outgoing_view(notices@),
            );
        }
    }
    notices
}

/// Takes in a packet with the bytes `bytes` from the address `source`. A packet that
/// encodes a text is taken for that text. The result is what is told to clients.
pub fn handle_udp_packet(rooms: &mut Rooms, bytes: &[u8], source: &str) -> (r: Vec<Outgoing>)
    requires
        old(rooms).wf(),
    ensures
        final(rooms).wf(),
        packet_result(
            old(rooms)@,
            utf8_lossy(bytes@),
            source@,
            final(rooms)@,
            outgoing_view(r@),
        ),
        forall|text: Seq<char>|
            bytes@ == #[trigger] encode_utf8(text) ==> packet_result(
                old(rooms)@,
                text,
                source@,
                final(rooms)@,
                outgoing_view(r@),
            ),
        forall|client_id: Seq<char>, code: Seq<char>|
            bytes@ == encode_utf8("REGISTER "@ + client_id) && #[trigger] is_in_just(
                old(rooms)@,
                client_id,
                code,
            ) ==> final(rooms)@ == after_register(old(rooms)@, code, client_id, source@)
                && outgoing_view(r@) == register_notices(old(rooms)@, code, client_id, source@),
{
    let text = from_utf8_lossy(bytes);
    proof {
        assert forall|t: Seq<char>| bytes@ == #[trigger] encode_utf8(t) implies t == text@ by {
            encode_utf8_valid_utf8(t);
            encode_utf8_decode_utf8(t);
        }
    }
    handle_udp_text(rooms, text.as_str(), source)
}

} // verus!
