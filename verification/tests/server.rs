use p2p_chat::network::client::{
    handle_command, parse_server_message, read_client_id, register_packet, ClientAction,
    ServerMessage,
};
use p2p_chat::network::p2p::P2pState;
use p2p_chat::network::NetworkCommand;
use p2p_chat::server::codes::{make_room_code, ROOM_CODES};
use p2p_chat::server::registration::{handle_udp_packet, handle_udp_text};
use p2p_chat::server::rooms::{JoinError, Outgoing, Rooms};
use p2p_chat::server::session::{parse_request, ClientSession, Request};

fn sent(list: Vec<Outgoing>) -> Vec<(u64, String)> {
    list.into_iter().map(|out| (out.to, out.text)).collect()
}

fn one(to: u64, text: &str) -> Vec<(u64, String)> {
    vec![(to, text.to_string())]
}

/// Rooms of one client each, opened under these codes.
fn opened(list: &[(&str, &str, u64)]) -> Rooms {
    let mut rooms = Rooms::new();
    for (code, client_id, sender) in list {
        assert!(rooms.create_room(code, client_id, *sender).is_some());
    }
    rooms
}

fn session(client_id: &str, sender: u64) -> ClientSession {
    ClientSession::new(client_id.to_string(), sender)
}

#[test]
fn requests_are_read_by_their_words() {
    assert!(matches!(parse_request("JOIN R1\n"), Request::Join(c) if c == "R1"));
    assert!(matches!(parse_request(" JOIN  r1 r2 "), Request::Join(c) if c == "r1"));
    assert!(matches!(parse_request("JOIN\n"), Request::JoinWithoutCode));
    assert!(matches!(parse_request("LEAVE\n"), Request::Leave));
    assert!(matches!(parse_request("CREATE\n"), Request::Create));
    assert!(matches!(parse_request("CREATE x"), Request::Create));
    assert!(matches!(parse_request("P2P_FAILED\n"), Request::P2pFailed));
    for line in ["", "\n", "join R1", "create", "CREATED", "P2P_FAILED_", "LEFT"] {
        assert!(matches!(parse_request(line), Request::Unknown));
    }
}

#[test]
fn client_is_greeted_with_its_id() {
    let hello = session("1.2.3.4:5", 9).greeting();
    assert_eq!(hello.to, 9);
    assert_eq!(hello.text, "CLIENT_ID 1.2.3.4:5\n");
    assert_eq!(read_client_id(hello.text.len(), &hello.text), Ok("1.2.3.4:5".to_string()));
}

#[test]
fn opened_room_has_its_client() {
    let mut rooms = Rooms::new();
    let out = rooms.create_room("R", "a", 1).unwrap();
    assert_eq!((out.to, out.text.as_str()), (1, "CREATED R\n"));
    assert_eq!(rooms.find_room("a"), Some("R".to_string()));
    assert!(rooms.create_room("R", "b", 2).is_none());
    assert_eq!(rooms.find_room("b"), None);
    assert!(rooms.leave_room("R", "a").is_empty());
    assert!(rooms.create_room("R", "b", 2).is_some());
}

#[test]
fn room_codes_are_easily_read() {
    assert_eq!(make_room_code(0), "AAAAAA");
    assert_eq!(make_room_code(1), "AAAAAB");
    assert_eq!(make_room_code(31), "AAAABA");
    assert_eq!(make_room_code(ROOM_CODES - 1), "999999");
    for n in [5, 77, 123_456_789, 887_000_000, u64::MAX] {
        let code = make_room_code(n);
        assert_eq!(code.chars().count(), 6);
        assert!(code.chars().all(|c| c.is_ascii_uppercase() || c.is_ascii_digit()));
        assert!(!code.contains(['O', '0', 'I', '1', 'L']));
    }
}

#[test]
fn fresh_codes_are_those_of_no_room() {
    let rooms = opened(&[("AAAAAB", "a", 1), ("999999", "b", 2), ("AAAAAA", "c", 3)]);
    assert_eq!(rooms.fresh_code(0), Some("AAAAAC".to_string()));
    assert_eq!(rooms.fresh_code(2), Some("AAAAAC".to_string()));
    assert_eq!(rooms.fresh_code(3), Some("AAAAAD".to_string()));
    assert_eq!(rooms.fresh_code(ROOM_CODES - 1), Some("AAAAAC".to_string()));
    assert_eq!(rooms.fresh_code(ROOM_CODES + 3), Some("AAAAAD".to_string()));
}

#[test]
fn room_takes_two_clients() {
    let mut rooms = opened(&[("R", "a", 1), ("S", "d", 4)]);
    assert_eq!(rooms.join_room("R", "a", 1).unwrap_err(), JoinError::AlreadyJoined);
    let joined = rooms.join_room("R", "b", 2).unwrap();
    assert_eq!((joined.to, joined.text.as_str()), (2, "JOINED R\n"));
    assert_eq!(rooms.join_room("R", "c", 3).unwrap_err(), JoinError::RoomFull);
    assert_eq!(rooms.join_room("R", "b", 2).unwrap_err(), JoinError::AlreadyJoined);
    assert!(rooms.join_room("S", "c", 3).is_ok());
    assert_eq!(JoinError::RoomNotFound.message(), "ROOM_NOT_FOUND");
    assert_eq!(JoinError::AlreadyJoined.message(), "ALREADY_JOINED");
    assert_eq!(JoinError::RoomFull.message(), "ROOM_FULL");
}

#[test]
fn room_that_is_not_there_cannot_be_joined() {
    let mut rooms = Rooms::new();
    assert_eq!(rooms.join_room("ZZZZZZ", "a", 1).unwrap_err(), JoinError::RoomNotFound);
    assert_eq!(rooms.find_room("a"), None);
    assert_eq!(rooms.join_room("ZZZZZZ", "a", 1).unwrap_err(), JoinError::RoomNotFound);
}

#[test]
fn leaving_undoes_joining() {
    let mut rooms = opened(&[("R", "a", 1)]);
    rooms.join_room("R", "b", 2).unwrap();
    assert_eq!(sent(rooms.leave_room("R", "b")), one(1, "PEER_LEFT b\n"));
    assert_eq!(rooms.find_room("b"), None);
    assert_eq!(rooms.find_room("a"), Some("R".to_string()));
    assert!(rooms.join_room("R", "c", 3).is_ok());
    rooms.leave_room("R", "a");
    rooms.leave_room("R", "c");
    assert_eq!(rooms.join_room("R", "c", 3).unwrap_err(), JoinError::RoomNotFound);
}

#[test]
fn leaving_a_room_that_is_not_there_does_nothing() {
    let mut rooms = Rooms::new();
    assert!(rooms.leave_room("R", "a").is_empty());
    rooms.create_room("R", "a", 1).unwrap();
    assert_eq!(sent(rooms.leave_room("R", "x")), one(1, "PEER_LEFT x\n"));
    assert_eq!(rooms.find_room("a"), Some("R".to_string()));
}

#[test]
fn two_registered_clients_are_told_of_each_other() {
    for first in ["a", "b"] {
        let mut rooms = opened(&[("R", "a", 1)]);
        rooms.join_room("R", "b", 2).unwrap();
        let other = if first == "a" { "b" } else { "a" };
        assert!(rooms.register_udp_addr(first, &format!("addr-{first}")).is_empty());
        assert_eq!(
            sent(rooms.register_udp_addr(other, &format!("addr-{other}"))),
            vec![(1, "PEER addr-b\n".to_string()), (2, "PEER addr-a\n".to_string())]
        );
    }
}

#[test]
fn registering_again_tells_the_new_address() {
    let mut rooms = opened(&[("R", "a", 1)]);
    assert!(rooms.register_udp_addr("a", "old").is_empty());
    rooms.join_room("R", "b", 2).unwrap();
    assert_eq!(rooms.register_udp_addr("b", "bb").len(), 2);
    assert_eq!(
        sent(rooms.register_udp_addr("a", "new")),
        vec![(1, "PEER bb\n".to_string()), (2, "PEER new\n".to_string())]
    );
}

#[test]
fn strangers_cannot_register() {
    let mut rooms = opened(&[("R", "a", 1)]);
    assert!(rooms.register_udp_addr("x", "addr").is_empty());
    assert!(rooms.register_in_room("S", "a", "addr").is_empty());
    assert!(rooms.register_in_room("R", "x", "addr").is_empty());
    rooms.join_room("R", "b", 2).unwrap();
    assert!(rooms.register_in_room("R", "b", "bb").is_empty());
    assert_eq!(rooms.register_in_room("R", "a", "aa").len(), 2);
}

#[test]
fn rooms_do_not_mix() {
    let mut rooms = opened(&[("R", "a", 0), ("S", "c", 2)]);
    rooms.join_room("R", "b", 1).unwrap();
    rooms.join_room("S", "d", 3).unwrap();
    assert!(rooms.register_udp_addr("a", "aa").is_empty());
    assert!(rooms.register_udp_addr("c", "cc").is_empty());
    assert_eq!(
        sent(rooms.register_udp_addr("d", "dd")),
        vec![(2, "PEER dd\n".to_string()), (3, "PEER cc\n".to_string())]
    );
    assert_eq!(sent(rooms.leave_room("R", "a")), one(1, "PEER_LEFT a\n"));
    assert_eq!(rooms.find_room("c"), Some("S".to_string()));
}

#[test]
fn session_serves_its_client() {
    let mut rooms = Rooms::new();
    let mut a = session("a", 1);
    let mut b = session("b", 2);
    assert_eq!(sent(a.handle_line("LEAVE\n", 0, &mut rooms)), one(1, "NOT_IN_ROOM\n"));
    assert_eq!(sent(a.handle_line("JOIN\n", 0, &mut rooms)), one(1, "ERROR INVALID_JOIN\n"));
    assert_eq!(sent(a.handle_line("HELLO\n", 0, &mut rooms)), one(1, "ERROR UNKNOWN_COMMAND\n"));
    assert_eq!(sent(a.handle_line("JOIN AAAAAC", 0, &mut rooms)), one(1, "ROOM_NOT_FOUND\n"));
    assert_eq!(a.current_room, None);
    assert_eq!(sent(a.handle_line("CREATE\n", 2, &mut rooms)), one(1, "CREATED AAAAAC\n"));
    assert_eq!(a.current_room, Some("AAAAAC".to_string()));
    assert_eq!(sent(a.handle_line("CREATE\n", 3, &mut rooms)), one(1, "ALREADY_IN_ROOM\n"));
    assert_eq!(sent(a.handle_line("JOIN AAAAAC", 0, &mut rooms)), one(1, "ALREADY_JOINED\n"));
    assert_eq!(sent(b.handle_line("JOIN AAAAAC", 0, &mut rooms)), one(2, "JOINED AAAAAC\n"));
    let mut c = session("c", 3);
    assert_eq!(sent(c.handle_line("JOIN AAAAAC", 0, &mut rooms)), one(3, "ROOM_FULL\n"));
    assert_eq!(c.current_room, None);
    assert_eq!(
        sent(a.handle_line("LEAVE\n", 0, &mut rooms)),
        vec![(2, "PEER_LEFT a\n".to_string()), (1, "LEFT\n".to_string())]
    );
    assert_eq!(a.current_room, None);
    assert_eq!(sent(c.handle_line("JOIN AAAAAC", 0, &mut rooms)), one(3, "JOINED AAAAAC\n"));
}

#[test]
fn gone_client_leaves_its_room() {
    let mut rooms = Rooms::new();
    let mut a = session("a", 1);
    let mut b = session("b", 2);
    assert!(a.disconnect(&mut rooms).is_empty());
    a.handle_line("CREATE", 0, &mut rooms);
    b.handle_line("JOIN AAAAAA", 0, &mut rooms);
    assert_eq!(sent(a.disconnect(&mut rooms)), one(2, "PEER_LEFT a\n"));
    assert_eq!(rooms.find_room("a"), None);
    assert_eq!(rooms.find_room("b"), Some("AAAAAA".to_string()));
}

#[test]
fn client_is_in_one_room_at_a_time() {
    let mut rooms = opened(&[("R1", "b", 2), ("R2", "c", 3)]);
    let mut a = session("10.0.0.1:5000", 1);
    assert_eq!(a.greeting().text, "CLIENT_ID 10.0.0.1:5000\n");
    assert_eq!(sent(a.handle_line("JOIN R1\n", 0, &mut rooms)), one(1, "JOINED R1\n"));
    assert_eq!(sent(a.handle_line("JOIN R2\n", 0, &mut rooms)), one(1, "ALREADY_IN_ROOM\n"));
    assert_eq!(sent(a.handle_line("JOIN R3\n", 0, &mut rooms)), one(1, "ALREADY_IN_ROOM\n"));
    assert_eq!(a.current_room, Some("R1".to_string()));
    assert!(rooms.join_room("R2", "d", 4).is_ok());
    assert_eq!(rooms.join_room("R1", "e", 5).unwrap_err(), JoinError::RoomFull);
    a.disconnect(&mut rooms);
    assert_eq!(rooms.find_room("10.0.0.1:5000"), None);
}

#[test]
fn client_that_cannot_reach_its_peer_can_go_to_another_room() {
    let mut rooms = opened(&[("R", "b", 2), ("S", "c", 3)]);
    let mut a = session("a", 1);
    assert!(a.handle_line("P2P_FAILED\n", 0, &mut rooms).is_empty());
    a.handle_line("JOIN R\n", 0, &mut rooms);
    assert_eq!(sent(a.handle_line("P2P_FAILED\n", 0, &mut rooms)), one(2, "PEER_LEFT a\n"));
    assert_eq!(a.current_room, None);
    assert_eq!(rooms.find_room("a"), None);
    assert_eq!(sent(a.handle_line("JOIN S\n", 0, &mut rooms)), one(1, "JOINED S\n"));
}

#[test]
fn code_of_an_opened_room_leads_into_it() {
    let mut rooms = Rooms::new();
    let created = session("a", 1).handle_line("CREATE\n", 123_456_789, &mut rooms).remove(0).text;
    let code = match parse_server_message(&created) {
        ServerMessage::Created(code) => code,
        other => panic!("{:?}", other),
    };
    let typed = format!(" {} ", code.to_lowercase());
    let line = match handle_command(NetworkCommand::JoinRoom(typed), &P2pState::new()) {
        ClientAction::Write { line } => line,
        other => panic!("{:?}", other),
    };
    let told = sent(session("b", 2).handle_line(&line, 0, &mut rooms));
    assert_eq!(told, one(2, &format!("JOINED {code}\n")));
}

#[test]
fn udp_packets_register_addresses() {
    let mut rooms = Rooms::new();
    rooms.create_room("R", "1.2.3.4:5", 1).unwrap();
    rooms.join_room("R", "b", 2).unwrap();
    assert!(handle_udp_text(&mut rooms, "REGISTER", "x").is_empty());
    assert!(handle_udp_text(&mut rooms, "HELLO b", "x").is_empty());
    assert!(handle_udp_text(&mut rooms, " REGISTER b c\n", "5.6.7.8:9").is_empty());
    assert!(handle_udp_packet(&mut rooms, b"REGISTER \xff", "x").is_empty());
    let told = handle_udp_packet(&mut rooms, &register_packet("1.2.3.4:5"), "9.9.9.9:1");
    assert_eq!(
        sent(told),
        vec![(1, "PEER 5.6.7.8:9\n".to_string()), (2, "PEER 9.9.9.9:1\n".to_string())]
    );
}

#[test]
fn lines_of_the_server_are_understood_by_the_client() {
    let mut rooms = Rooms::new();
    let mut a = session("a", 1);
    let mut b = session("b", 2);
    let created = a.handle_line("CREATE\n", 0, &mut rooms).remove(0).text;
    assert!(matches!(parse_server_message(&created), ServerMessage::Created(c) if c == "AAAAAA"));
    let again = a.handle_line("JOIN AAAAAA\n", 0, &mut rooms).remove(0).text;
    assert!(matches!(parse_server_message(&again), ServerMessage::AlreadyInRoom));
    let elsewhere = a.handle_line("JOIN R\n", 0, &mut rooms).remove(0).text;
    assert!(matches!(parse_server_message(&elsewhere), ServerMessage::AlreadyInRoom));
    let nowhere = b.handle_line("JOIN R\n", 0, &mut rooms).remove(0).text;
    assert!(matches!(parse_server_message(&nowhere), ServerMessage::RoomNotFound));
    let joined = b.handle_line("JOIN AAAAAA\n", 0, &mut rooms).remove(0).text;
    assert!(matches!(parse_server_message(&joined), ServerMessage::Joined(c) if c == "AAAAAA"));
    let full = session("c", 3).handle_line("JOIN AAAAAA\n", 0, &mut rooms).remove(0).text;
    assert!(matches!(parse_server_message(&full), ServerMessage::RoomFull));
    rooms.register_udp_addr("a", "1.1.1.1:1");
    let told = rooms.register_udp_addr("b", "2.2.2.2:2");
    assert!(
        matches!(parse_server_message(&told[0].text), ServerMessage::Peer(p) if p == "2.2.2.2:2")
    );
    let left = b.handle_line("LEAVE\n", 0, &mut rooms);
    assert!(matches!(parse_server_message(&left[0].text), ServerMessage::PeerLeft));
    assert!(matches!(parse_server_message(&left[1].text), ServerMessage::Left));
}
