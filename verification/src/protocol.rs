//! What holds of the lines and packets between client and server: each is read as it
//! was meant.

use crate::network::client::{
    command_action, join_line, punch_failure_action, registration, server_message,
    ServerMessageView,
};
use crate::network::p2p::{Endpoint, P2pState};
use crate::network::CommandView;
use crate::server::codes::is_room_code;
use crate::server::registration::registering;
use crate::server::rooms::{created_line, joined_line, peer_left_line, peer_line, JoinError};
use crate::server::session::{client_id_line, request, RequestView};
use crate::text::{
    ascii_uppercase, is_white_space, is_word, law_line_words,
    law_text_that_is_not_blank_has_a_word, law_word_is_its_own_words, trimmed, uppercase, words,
};
use vstd::prelude::*;
use vstd::string::*;
use vstd::utf8::*;

verus! {

/// A client learns the ID that the server gave it.
pub proof fn law_client_id_line(client_id: Seq<char>)
    requires
        client_id.len() > 0,
        forall|i: int| 0 <= i < client_id.len() ==> !is_white_space(#[trigger] client_id[i]),
    ensures
        words(client_id_line(client_id)) == seq!["CLIENT_ID"@, client_id],
{
    reveal_strlit("CLIENT_ID ");
    reveal_strlit("CLIENT_ID");
    reveal_strlit("\n");
    law_line_words("CLIENT_ID"@, client_id);
    law_word_is_its_own_words(client_id);
    assert("CLIENT_ID"@.push(' ') + client_id.push('\n') =~= client_id_line(client_id));
    assert(seq!["CLIENT_ID"@] + seq![client_id] =~= seq!["CLIENT_ID"@, client_id]);
}

/// The server reads a request for a room as one for the first word of the code, and
/// so, where the code is a single word, for that code.
pub proof fn law_join_line(code: Seq<char>)
    ensures
        request(words(join_line(code))) == if words(code).len() > 0 {
            RequestView::Join(words(code)[0])
        } else {
            RequestView::JoinWithoutCode
        },
        is_word(code) ==> request(words(join_line(code))) == RequestView::Join(code),
{
    reveal_strlit("CREATE");
    reveal_strlit("JOIN ");
    reveal_strlit("JOIN");
    reveal_strlit("\n");
    assert("CREATE"@.len() != "JOIN"@.len());
    law_line_words("JOIN"@, code);
    assert("JOIN"@.push(' ') + code.push('\n') =~= join_line(code));
    let parts = seq!["JOIN"@] + words(code);
    assert(parts[0] == "JOIN"@);
    if words(code).len() > 0 {
        assert(parts[1] == words(code)[0]);
    }
    if is_word(code) {
        law_word_is_its_own_words(code);
    }
}

/// The command to join a room reaches the server as a request for that room: for the
/// first word of the code, trimmed and in upper case. One for an empty code is not
/// sent.
pub proof fn law_join_command_reaches_the_server(code: Seq<char>, p2p: P2pState)
    ensures
        ({
            let action = command_action(CommandView::JoinRoom(code), p2p);
            let sent = uppercase(trimmed(code));
            &&& sent.len() == 0 ==> action is Idle
            &&& sent.len() > 0 ==> action is Write
            &&& words(sent).len() > 0 ==> action is Write && request(words(action->Write_line))
                == RequestView::Join(words(sent)[0])
            &&& is_word(sent) ==> action is Write && request(words(action->Write_line))
                == RequestView::Join(sent)
        }),
{
    let sent = uppercase(trimmed(code));
    law_join_line(sent);
    law_text_that_is_not_blank_has_a_word(sent);
}

/// The server reads a request to leave as such.
pub proof fn law_leave_command_reaches_the_server(p2p: P2pState)
    ensures
        ({
            let action = command_action(CommandView::LeaveRoom, p2p);
            action is WriteLeave && request(words(action->WriteLeave_line)) is Leave
        }),
{
    reveal_strlit("LEAVE\n");
    reveal_strlit("LEAVE");
    reveal_strlit("CREATE");
    reveal_strlit("JOIN");
    law_line_words("LEAVE"@, Seq::empty());
    assert("LEAVE"@.push('\n') =~= "LEAVE\n"@);
    assert("LEAVE"@.len() == 5 && "CREATE"@.len() == 6 && "JOIN"@.len() == 4);
}

/// The server reads a request for a new room as such.
pub proof fn law_create_command_reaches_the_server(p2p: P2pState)
    ensures
        ({
            let action = command_action(CommandView::CreateRoom, p2p);
            action is Write && request(words(action->Write_line)) is Create
        }),
{
    reveal_strlit("CREATE\n");
    reveal_strlit("CREATE");
    law_line_words("CREATE"@, Seq::empty());
    assert("CREATE"@.push('\n') =~= "CREATE\n"@);
}

/// When the PUNCH packets to the present peer were not answered, the server reads what
/// it is told as that.
pub proof fn law_failure_reaches_the_server(session_id: u64, peer_addr: Endpoint, p2p: P2pState)
    requires
        p2p.is_opening(session_id, peer_addr),
    ensures
        ({
            let action = punch_failure_action(session_id, peer_addr, p2p);
            action is WriteFailure && request(words(action->WriteFailure_line)) is P2pFailed
        }),
{
    reveal_strlit("P2P_FAILED\n");
    reveal_strlit("P2P_FAILED");
    reveal_strlit("CREATE");
    reveal_strlit("JOIN");
    reveal_strlit("LEAVE");
    law_line_words("P2P_FAILED"@, Seq::empty());
    assert("P2P_FAILED"@.push('\n') =~= "P2P_FAILED\n"@);
    assert("P2P_FAILED"@.len() == 10 && "CREATE"@.len() == 6 && "JOIN"@.len() == 4
        && "LEAVE"@.len() == 5);
}

/// The client reads what the server says of the room that it opened or joined, of its
/// peer's address and of a peer that left.
pub proof fn law_lines_about_rooms(code: Seq<char>, udp_addr: Seq<char>, client_id: Seq<char>)
    requires
        code.len() > 0,
        forall|i: int| 0 <= i < code.len() ==> !is_white_space(#[trigger] code[i]),
        udp_addr.len() > 0,
        forall|i: int| 0 <= i < udp_addr.len() ==> !is_white_space(#[trigger] udp_addr[i]),
    ensures
        server_message(words(created_line(code))) == ServerMessageView::Created(code),
        server_message(words(joined_line(code))) == ServerMessageView::Joined(code),
        server_message(words(peer_line(udp_addr))) == ServerMessageView::Peer(udp_addr),
        server_message(words(peer_left_line(client_id))) is PeerLeft,
{
    reveal_strlit("\n");
    reveal_strlit("CREATED");
    reveal_strlit("JOINED ");
    reveal_strlit("JOINED");
    reveal_strlit("PEER ");
    reveal_strlit("PEER");
    reveal_strlit("PEER_LEFT ");
    reveal_strlit("PEER_LEFT");
    assert("CREATED"@.len() == 7 && "JOINED"@.len() == 6 && "PEER"@.len() == 4
        && "PEER_LEFT"@.len() == 9);
    law_word_is_its_own_words(code);
    reveal_strlit("CREATED ");
    law_line_words("CREATED"@, code);
    assert("CREATED"@.push(' ') + code.push('\n') =~= created_line(code));
    assert((seq!["CREATED"@] + seq![code]) =~= seq!["CREATED"@, code]);
    law_line_words("JOINED"@, code);
    assert("JOINED"@.push(' ') + code.push('\n') =~= joined_line(code));
    assert((seq!["JOINED"@] + seq![code]) =~= seq!["JOINED"@, code]);
    law_line_words("PEER"@, udp_addr);
    law_word_is_its_own_words(udp_addr);
    assert("PEER"@.push(' ') + udp_addr.push('\n') =~= peer_line(udp_addr));
    assert((seq!["PEER"@] + seq![udp_addr]) =~= seq!["PEER"@, udp_addr]);
    law_line_words("PEER_LEFT"@, client_id);
    assert("PEER_LEFT"@.push(' ') + client_id.push('\n') =~= peer_left_line(client_id));
    assert((seq!["PEER_LEFT"@] + words(client_id))[0] == "PEER_LEFT"@);
}

/// The code of a room that the server opened reads the same in its lines and in those
/// of the client, however it is trimmed and put into upper case: it is a single word of
/// capital letters and digits.
pub proof fn law_room_codes_are_kept(code: Seq<char>)
    requires
        is_room_code(code),
    ensures
        is_word(code),
        is_ascii_chars(code),
        trimmed(code) == code,
        ascii_uppercase(code) == code,
{
    assert(ascii_uppercase(code) =~= code);
}

/// The client reads the server's reasons not to let it in, and that it has left.
pub proof fn law_lines_about_requests(error: JoinError)
    ensures
        server_message(words(error.text() + "\n"@)) == match error {
            JoinError::RoomNotFound => ServerMessageView::RoomNotFound,
            JoinError::AlreadyJoined => ServerMessageView::AlreadyInRoom,
            JoinError::RoomFull => ServerMessageView::RoomFull,
        },
        server_message(words("ALREADY_IN_ROOM\n"@)) is AlreadyInRoom,
        server_message(words("LEFT\n"@)) is Left,
{
    reveal_strlit("\n");
    reveal_strlit("LEFT\n");
    reveal_strlit("LEFT");
    lemma_heads_differ();
    assert(is_word(error.text())) by {
        reveal_strlit("ROOM_NOT_FOUND");
        reveal_strlit("ALREADY_JOINED");
        reveal_strlit("ROOM_FULL");
    }
    law_line_words(error.text(), Seq::empty());
    assert(error.text().push('\n') =~= error.text() + "\n"@);
    law_line_words("LEFT"@, Seq::empty());
    assert("LEFT"@.push('\n') =~= "LEFT\n"@);
    reveal_strlit("ALREADY_IN_ROOM\n");
    reveal_strlit("ALREADY_IN_ROOM");
    law_line_words("ALREADY_IN_ROOM"@, Seq::empty());
    assert("ALREADY_IN_ROOM"@.push('\n') =~= "ALREADY_IN_ROOM\n"@);
}

/// The client ignores the lines by which the server rejects a request that it cannot
/// serve.
pub proof fn law_rejections_are_ignored()
    ensures
        server_message(words("ERROR INVALID_JOIN\n"@)) is Unknown,
        server_message(words("ERROR UNKNOWN_COMMAND\n"@)) is Unknown,
        server_message(words("ERROR NO_ROOM_CODE\n"@)) is Unknown,
        server_message(words("NOT_IN_ROOM\n"@)) is Unknown,
{
    reveal_strlit("ERROR INVALID_JOIN\n");
    reveal_strlit("ERROR UNKNOWN_COMMAND\n");
    reveal_strlit("NOT_IN_ROOM\n");
    reveal_strlit("ERROR");
    reveal_strlit("INVALID_JOIN");
    reveal_strlit("UNKNOWN_COMMAND");
    reveal_strlit("NOT_IN_ROOM");
    lemma_heads_differ();
    law_line_words("ERROR"@, "INVALID_JOIN"@);
    law_line_words("ERROR"@, "UNKNOWN_COMMAND"@);
    reveal_strlit("ERROR NO_ROOM_CODE\n");
    reveal_strlit("NO_ROOM_CODE");
    law_line_words("ERROR"@, "NO_ROOM_CODE"@);
    assert("ERROR"@.push(' ') + "NO_ROOM_CODE"@.push('\n') =~= "ERROR NO_ROOM_CODE\n"@);
    assert((seq!["ERROR"@] + words("NO_ROOM_CODE"@))[0] == "ERROR"@);
    law_line_words("NOT_IN_ROOM"@, Seq::empty());
    assert("ERROR"@.push(' ') + "INVALID_JOIN"@.push('\n') =~= "ERROR INVALID_JOIN\n"@);
    assert("ERROR"@.push(' ') + "UNKNOWN_COMMAND"@.push('\n') =~= "ERROR UNKNOWN_COMMAND\n"@);
    assert("NOT_IN_ROOM"@.push('\n') =~= "NOT_IN_ROOM\n"@);
    assert((seq!["ERROR"@] + words("INVALID_JOIN"@))[0] == "ERROR"@);
    assert((seq!["ERROR"@] + words("UNKNOWN_COMMAND"@))[0] == "ERROR"@);
}

/// The words by which the lines of the server start are told apart by their lengths
/// and their first letters.
pub(crate) proof fn lemma_heads_differ()
    ensures
        "CREATED"@.len() == 7 && "CREATED"@[0] == 'C',
        "JOINED"@.len() == 6 && "JOINED"@[0] == 'J',
        "PEER"@.len() == 4 && "PEER"@[0] == 'P',
        "PEER_LEFT"@.len() == 9 && "PEER_LEFT"@[0] == 'P',
        "ROOM_FULL"@.len() == 9 && "ROOM_FULL"@[0] == 'R',
        "ROOM_NOT_FOUND"@.len() == 14 && "ROOM_NOT_FOUND"@[0] == 'R',
        "ALREADY_IN_ROOM"@.len() == 15 && "ALREADY_IN_ROOM"@[0] == 'A',
        "ALREADY_JOINED"@.len() == 14 && "ALREADY_JOINED"@[0] == 'A',
        "P2P_DISCONNECTED"@.len() == 16 && "P2P_DISCONNECTED"@[0] == 'P',
        "LEFT"@.len() == 4 && "LEFT"@[0] == 'L',
        "ERROR"@.len() == 5 && "ERROR"@[0] == 'E',
        "NOT_IN_ROOM"@.len() == 11 && "NOT_IN_ROOM"@[0] == 'N',
{
    reveal_strlit("CREATED");
    reveal_strlit("JOINED");
    reveal_strlit("PEER");
    reveal_strlit("PEER_LEFT");
    reveal_strlit("ROOM_FULL");
    reveal_strlit("ROOM_NOT_FOUND");
    reveal_strlit("ALREADY_IN_ROOM");
    reveal_strlit("ALREADY_JOINED");
    reveal_strlit("P2P_DISCONNECTED");
    reveal_strlit("LEFT");
    reveal_strlit("ERROR");
    reveal_strlit("NOT_IN_ROOM");
}

/// The server reads whose address a client registers.
pub proof fn law_registration(client_id: Seq<char>)
    requires
        client_id.len() > 0,
        forall|i: int| 0 <= i < client_id.len() ==> !is_white_space(#[trigger] client_id[i]),
    ensures
        registering(words(registration(client_id))) == Some(client_id),
{
    reveal_strlit("REGISTER ");
    reveal_strlit("REGISTER");
    law_line_words("REGISTER"@, client_id);
    law_word_is_its_own_words(client_id);
    assert("REGISTER"@.push(' ') + client_id =~= registration(client_id));
    assert((seq!["REGISTER"@] + seq![client_id]) =~= seq!["REGISTER"@, client_id]);
}

} // verus!
