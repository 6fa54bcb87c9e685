use p2p_chat::network::client::{
    complete_action, find_udp_server, handle_command, handle_punch_failure, join_room_action,
    parse_server_message, read_client_id, register_packet, start, ClientAction, ClientInput,
    NetworkClient, ServerMessage, StartError,
};
use p2p_chat::network::p2p::{
    classify_datagram, DatagramAction, Endpoint, P2pState, PunchRun,
};
use p2p_chat::network::{NetworkCommand, NetworkEvent};
use tokio::sync::mpsc;

const A: Endpoint = Endpoint::V4 { ip: 0x0a00_0001, port: 4000 };
const B: Endpoint = Endpoint::V4 { ip: 0x0a00_0002, port: 5000 };
const SERVER: Endpoint = Endpoint::V4 { ip: 0x0a00_0003, port: 9001 };

fn linked(peer: Endpoint) -> P2pState {
    P2pState { peer_addr: Some(peer), connected: true, session_id: 7 }
}

fn act(line: &str, p2p: &mut P2pState) -> ClientAction {
    let input = ClientInput::ServerLine(line.to_string());
    NetworkClient::handle_input(input, p2p, "1.2.3.4:5", SERVER).unwrap()
}

#[test]
fn server_lines_are_read_by_their_words() {
    assert!(matches!(parse_server_message("CREATED R1"), ServerMessage::Created(c) if c == "R1"));
    assert!(
        matches!(parse_server_message(" JOINED\tR1 x\n"), ServerMessage::Joined(c) if c == "R1")
    );
    assert!(
        matches!(parse_server_message("PEER 1.2.3.4:5"), ServerMessage::Peer(a) if a == "1.2.3.4:5")
    );
    assert!(matches!(parse_server_message("PEER_LEFT x"), ServerMessage::PeerLeft));
    assert!(matches!(parse_server_message("PEER_LEFT"), ServerMessage::PeerLeft));
    assert!(matches!(parse_server_message("ROOM_FULL"), ServerMessage::RoomFull));
    assert!(matches!(parse_server_message("ROOM_NOT_FOUND"), ServerMessage::RoomNotFound));
    assert!(matches!(parse_server_message("ALREADY_IN_ROOM"), ServerMessage::AlreadyInRoom));
    assert!(matches!(parse_server_message("ALREADY_JOINED"), ServerMessage::AlreadyInRoom));
    assert!(matches!(parse_server_message("P2P_DISCONNECTED"), ServerMessage::P2pDisconnected));
    assert!(matches!(parse_server_message("LEFT\n"), ServerMessage::Left));
    for line in ["", "CREATED", "JOINED", "PEER", "created R1", "ERROR UNKNOWN_COMMAND"] {
        assert!(matches!(parse_server_message(line), ServerMessage::Unknown));
    }
}

#[test]
fn joining_registers_the_udp_address_first() {
    assert_eq!(register_packet("1.2.3.4:5"), b"REGISTER 1.2.3.4:5".to_vec());
    let mut p2p = P2pState::new();
    for (line, created) in [("JOINED R1\n", false), ("CREATED R1\n", true)] {
        let action = act(line, &mut p2p);
        match &action {
            ClientAction::Register { packet, to, event } => {
                assert_eq!(packet, &b"REGISTER 1.2.3.4:5".to_vec());
                assert_eq!(*to, SERVER);
                match event {
                    NetworkEvent::RoomCreated(code) => assert!(created && code == "R1"),
                    NetworkEvent::JoinedRoom(code) => assert!(!created && code == "R1"),
                    other => panic!("{:?}", other),
                }
            }
            other => panic!("{:?}", other),
        }
        assert!(matches!(
            complete_action(action, Ok(()), &mut p2p),
            Ok(Some(NetworkEvent::RoomCreated(_) | NetworkEvent::JoinedRoom(_)))
        ));
    }
    let action = act("JOINED R1\n", &mut p2p);
    let failed = complete_action(action, Err("unreachable".to_string()), &mut p2p);
    assert_eq!(failed.unwrap_err(), "unreachable");
    assert_eq!(p2p, P2pState::new());
}

#[test]
fn peer_line_starts_a_session_and_punching() {
    let mut p2p = linked(A);
    match act("PEER 10.0.0.2:5000\n", &mut p2p) {
        ClientAction::Punch(run) => assert_eq!(run, PunchRun::new(8, B)),
        other => panic!("{:?}", other),
    }
    assert_eq!(p2p, P2pState { peer_addr: Some(B), connected: false, session_id: 8 });
}

#[test]
fn peer_line_without_a_valid_address_is_ignored() {
    let mut p2p = linked(A);
    for line in ["PEER nonsense", "PEER", "PEER 10.0.0.2", "PEER 10.0.0.256:1", "PEER :5000"] {
        assert!(matches!(act(line, &mut p2p), ClientAction::Idle));
    }
    assert!(!matches!(act("JOINED 10.0.0.2:5000", &mut p2p), ClientAction::Punch(_)));
    assert_eq!(p2p, linked(A));
}

#[test]
fn peer_line_may_name_an_ipv6_address() {
    let mut p2p = P2pState::new();
    let peer = Endpoint::V6 { ipv6: 0xfe80 << 112 | 1, port: 7, flowinfo: 0, scope_id: 3 };
    match act("PEER [fe80::1%3]:7\n", &mut p2p) {
        ClientAction::Punch(run) => assert_eq!(run, PunchRun::new(1, peer)),
        other => panic!("{:?}", other),
    }
    assert_eq!(p2p.peer_addr, Some(peer));
}

#[test]
fn parsed_lines_are_followed() {
    let mut p2p = linked(A);
    let message = ServerMessage::Peer("x".to_string());
    let action = NetworkClient::follow_server_message(message, Some(B), &mut p2p, "id", SERVER);
    assert!(matches!(action, ClientAction::Punch(run) if run == PunchRun::new(8, B)));
    let message = ServerMessage::Peer("x".to_string());
    let action = NetworkClient::follow_server_message(message, None, &mut p2p, "id", SERVER);
    assert!(matches!(action, ClientAction::Idle));
    assert_eq!(p2p.peer_addr, Some(B));
}

#[test]
fn start_needs_an_id_and_an_ipv4_address() {
    let v6 = Endpoint::V6 { ipv6: 1, port: 9001, flowinfo: 0, scope_id: 0 };
    let line = "CLIENT_ID 1.2.3.4:5\n";
    let started = start(line.len(), line, Ok(vec![v6, SERVER, A])).unwrap();
    assert_eq!(started.client_id, "1.2.3.4:5");
    assert_eq!(started.udp_server_addr, SERVER);
    assert!(matches!(started.event, NetworkEvent::ServerConnected));
    assert_eq!(
        start(line.len(), line, Ok(vec![v6])).unwrap_err(),
        "UDP server IPv4 address not found"
    );
    assert_eq!(start(line.len(), line, Err("no name".to_string())).unwrap_err(), "no name");
    assert_eq!(start(0, "", Err("no name".to_string())).unwrap_err(), "server disconnected");
    assert_eq!(start(2, "x\n", Ok(vec![SERVER])).unwrap_err(), "invalid CLIENT_ID response");
}

#[test]
fn lost_peers_are_given_up() {
    for line in ["PEER_LEFT x", "P2P_DISCONNECTED"] {
        let mut p2p = linked(A);
        assert!(matches!(
            act(line, &mut p2p),
            ClientAction::Report(NetworkEvent::PeerDisconnected)
        ));
        assert_eq!(p2p, P2pState { peer_addr: None, connected: false, session_id: 8 });
    }
    let mut p2p = linked(A);
    assert!(matches!(act("LEFT", &mut p2p), ClientAction::Idle));
    assert_eq!(p2p, P2pState { peer_addr: None, connected: false, session_id: 8 });
}

#[test]
fn refusals_are_reported() {
    let mut p2p = linked(A);
    assert!(matches!(
        act("ROOM_FULL\n", &mut p2p),
        ClientAction::Report(NetworkEvent::RoomFull)
    ));
    assert!(matches!(
        act("ROOM_NOT_FOUND\n", &mut p2p),
        ClientAction::Report(NetworkEvent::RoomNotFound)
    ));
    assert!(matches!(
        act("ALREADY_JOINED\n", &mut p2p),
        ClientAction::Report(NetworkEvent::AlreadyInRoom)
    ));
    assert!(matches!(act("ERROR INVALID_JOIN\n", &mut p2p), ClientAction::Idle));
    assert!(matches!(act("NOT_IN_ROOM\n", &mut p2p), ClientAction::Idle));
    assert_eq!(p2p, linked(A));
}

#[test]
fn room_commands_become_lines() {
    let p2p = P2pState::new();
    assert!(matches!(
        handle_command(NetworkCommand::CreateRoom, &p2p),
        ClientAction::Write { line } if line == "CREATE\n"
    ));
    assert!(matches!(
        handle_command(NetworkCommand::JoinRoom("  ab1 ".to_string()), &p2p),
        ClientAction::Write { line } if line == "JOIN AB1\n"
    ));
    assert!(matches!(
        handle_command(NetworkCommand::JoinRoom("straße".to_string()), &p2p),
        ClientAction::Write { line } if line == "JOIN STRASSE\n"
    ));
    assert!(matches!(
        handle_command(NetworkCommand::JoinRoom(" \t ".to_string()), &p2p),
        ClientAction::Idle
    ));
    assert!(matches!(
        handle_command(NetworkCommand::LeaveRoom, &p2p),
        ClientAction::WriteLeave { line } if line == "LEAVE\n"
    ));
    assert!(matches!(join_room_action(""), ClientAction::Idle));
    assert!(matches!(join_room_action("X"), ClientAction::Write { line } if line == "JOIN X\n"));
}

#[test]
fn leaving_gives_up_the_peer_once_it_is_written() {
    let mut p2p = linked(A);
    let leave = handle_command(NetworkCommand::LeaveRoom, &p2p);
    assert_eq!(complete_action(leave, Err("gone".to_string()), &mut p2p).unwrap_err(), "gone");
    assert_eq!(p2p, linked(A));
    let leave = handle_command(NetworkCommand::LeaveRoom, &p2p);
    assert!(matches!(complete_action(leave, Ok(()), &mut p2p), Ok(None)));
    assert_eq!(p2p, P2pState { peer_addr: None, connected: false, session_id: 8 });
}

#[test]
fn messages_need_a_link_and_a_peer() {
    let text = || NetworkCommand::SendMessage("hi".to_string());
    let unlinked = P2pState { peer_addr: Some(A), connected: false, session_id: 7 };
    assert!(matches!(
        handle_command(text(), &unlinked),
        ClientAction::Report(NetworkEvent::Error(e))
            if e == "P2P 연결이 없어 메시지를 전송하지 못했습니다."
    ));
    let lost = P2pState { peer_addr: None, connected: true, session_id: 7 };
    assert!(matches!(
        handle_command(text(), &lost),
        ClientAction::Report(NetworkEvent::Error(e))
            if e == "상대 주소가 없어 메시지를 전송하지 못했습니다."
    ));
}

#[test]
fn sent_messages_are_confirmed_or_the_failure_is_reported() {
    let mut p2p = linked(A);
    let send = handle_command(NetworkCommand::SendMessage("hi".to_string()), &p2p);
    assert!(matches!(
        complete_action(send, Ok(()), &mut p2p),
        Ok(Some(NetworkEvent::MessageSent(m))) if m == "hi"
    ));
    let send = handle_command(NetworkCommand::SendMessage("hi".to_string()), &p2p);
    assert!(matches!(
        complete_action(send, Err("no route".to_string()), &mut p2p),
        Ok(Some(NetworkEvent::Error(e))) if e == "P2P 메시지를 전송하지 못했습니다: no route"
    ));
    assert_eq!(p2p, linked(A));
}

#[test]
fn messages_arrive_as_they_were_sent() {
    let mut receiver = linked(B);
    for text in ["hi", "안녕하세요", " two words ", "PUNCHED", "\u{1f600}"] {
        let sent = handle_command(NetworkCommand::SendMessage(text.to_string()), &linked(A));
        match sent {
            ClientAction::SendMessage { packet, to, message } => {
                assert_eq!(to, A);
                assert_eq!(message, text);
                assert!(matches!(
                    receiver.handle_datagram(classify_datagram(&packet), B, true),
                    DatagramAction::Report(NetworkEvent::MessageReceived(m)) if m == text
                ));
            }
            other => panic!("{:?}", other),
        }
    }
}

#[test]
fn message_that_reads_like_a_control_packet_is_not_shown() {
    let mut receiver = linked(B);
    let sent = handle_command(NetworkCommand::SendMessage("PUNCH".to_string()), &linked(A));
    if let ClientAction::SendMessage { packet, .. } = sent {
        assert!(matches!(
            receiver.handle_datagram(classify_datagram(&packet), B, true),
            DatagramAction::Answer { .. }
        ));
    } else {
        panic!("not sent");
    }
}

#[test]
fn failed_punching_is_reported_for_the_present_peer_only() {
    let opening = P2pState { peer_addr: Some(A), connected: false, session_id: 7 };
    let mut p2p = opening;
    assert!(matches!(handle_punch_failure(6, A, &mut p2p), ClientAction::Idle));
    assert!(matches!(handle_punch_failure(7, B, &mut p2p), ClientAction::Idle));
    assert_eq!(p2p, opening);
    let mut up = linked(A);
    assert!(matches!(handle_punch_failure(7, A, &mut up), ClientAction::Idle));
    assert_eq!(up, linked(A));
    let action = NetworkClient::handle_input(
        ClientInput::PunchFailed { session_id: 7, failed_peer: A },
        &mut p2p,
        "id",
        SERVER,
    )
    .unwrap();
    assert!(matches!(&action, ClientAction::WriteFailure { line } if line == "P2P_FAILED\n"));
    assert_eq!(p2p, P2pState { peer_addr: None, connected: false, session_id: 8 });
    assert!(matches!(
        complete_action(action, Err("gone".to_string()), &mut p2p),
        Ok(Some(NetworkEvent::P2pFailed))
    ));
}

#[test]
fn failed_writes_end_the_task() {
    let mut p2p = P2pState::new();
    let create = handle_command(NetworkCommand::CreateRoom, &p2p);
    assert_eq!(complete_action(create, Err("gone".to_string()), &mut p2p).unwrap_err(), "gone");
    let create = handle_command(NetworkCommand::CreateRoom, &p2p);
    assert!(matches!(complete_action(create, Ok(()), &mut p2p), Ok(None)));
    assert!(matches!(complete_action(ClientAction::Idle, Ok(()), &mut p2p), Ok(None)));
    let report = ClientAction::Report(NetworkEvent::RoomFull);
    assert!(matches!(
        complete_action(report, Ok(()), &mut p2p),
        Ok(Some(NetworkEvent::RoomFull))
    ));
    let punch = ClientAction::Punch(PunchRun::new(1, A));
    assert!(matches!(complete_action(punch, Ok(()), &mut p2p), Ok(None)));
}

#[test]
fn task_ends_without_window_or_server() {
    let mut p2p = linked(A);
    for last in [ClientInput::CommandsClosed, ClientInput::ServerClosed] {
        assert!(NetworkClient::handle_input(last, &mut p2p, "id", SERVER).is_none());
    }
    assert_eq!(p2p, linked(A));
    let command = ClientInput::Command(NetworkCommand::CreateRoom);
    assert!(matches!(
        NetworkClient::handle_input(command, &mut p2p, "id", SERVER),
        Some(ClientAction::Write { line }) if line == "CREATE\n"
    ));
}

#[test]
fn client_id_comes_with_the_first_line() {
    assert_eq!(read_client_id(23, "CLIENT_ID 1.2.3.4:5\n"), Ok("1.2.3.4:5".to_string()));
    assert_eq!(read_client_id(5, "CLIENT_ID a b"), Ok("a".to_string()));
    assert_eq!(read_client_id(0, ""), Err(StartError::ServerDisconnected));
    assert_eq!(read_client_id(10, "CLIENT_ID\n"), Err(StartError::InvalidClientId));
    assert_eq!(read_client_id(8, "HELLO x\n"), Err(StartError::InvalidClientId));
    assert_eq!(StartError::ServerDisconnected.message(), "server disconnected");
    assert_eq!(StartError::InvalidClientId.message(), "invalid CLIENT_ID response");
}

#[test]
fn first_ipv4_address_of_the_server_is_used() {
    let v6 = Endpoint::V6 { ipv6: 1, port: 9001, flowinfo: 0, scope_id: 0 };
    assert_eq!(find_udp_server(&vec![v6, SERVER, A]), Ok(SERVER));
    assert_eq!(find_udp_server(&vec![v6]), Err(StartError::NoUdpServer));
    assert_eq!(find_udp_server(&vec![]), Err(StartError::NoUdpServer));
    assert_eq!(StartError::NoUdpServer.message(), "UDP server IPv4 address not found");
}

#[test]
fn end_of_the_task_is_reported() {
    let events = NetworkClient::closing_events(Some("refused".to_string()));
    assert_eq!(events.len(), 2);
    assert!(matches!(&events[0], NetworkEvent::Error(e) if e == "refused"));
    assert!(matches!(&events[1], NetworkEvent::ServerDisconnected));
    let events = NetworkClient::closing_events(None);
    assert_eq!(events.len(), 1);
    assert!(matches!(&events[0], NetworkEvent::ServerDisconnected));
}

#[test]
fn network_client_keeps_its_channels() {
    let (command_tx, command_rx) = mpsc::channel(1);
    let (event_tx, mut event_rx) = mpsc::channel(1);
    let mut client = NetworkClient::new(command_rx, event_tx);
    command_tx.try_send(NetworkCommand::LeaveRoom).unwrap();
    assert!(matches!(client.command_rx.try_recv(), Ok(NetworkCommand::LeaveRoom)));
    client.event_tx.try_send(NetworkEvent::RoomFull).unwrap();
    assert!(matches!(event_rx.try_recv(), Ok(NetworkEvent::RoomFull)));
}
