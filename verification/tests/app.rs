use p2p_chat::app::{Button, ChatApp};
use p2p_chat::channel::SendOutcome;
use p2p_chat::network::client::{handle_command, ClientAction};
use p2p_chat::network::p2p::P2pState;
use p2p_chat::network::{NetworkCommand, NetworkEvent};
use tokio::sync::mpsc;

struct Ends {
    commands: mpsc::Receiver<NetworkCommand>,
    events: mpsc::Sender<NetworkEvent>,
}

fn window(capacity: usize) -> (ChatApp, Ends) {
    let (command_tx, commands) = mpsc::channel(capacity);
    let (events, event_rx) = mpsc::channel(32);
    (ChatApp::new(command_tx, event_rx), Ends { commands, events })
}

fn talking() -> (ChatApp, Ends) {
    let (mut app, ends) = window(1);
    app.handle_event(NetworkEvent::ServerConnected);
    app.handle_event(NetworkEvent::JoinedRoom("R".to_string()));
    app.handle_event(NetworkEvent::PeerConnected);
    (app, ends)
}

#[test]
fn window_starts_unconnected() {
    let (app, _ends) = window(1);
    assert!(!app.server_connected);
    assert_eq!(app.current_room, None);
    assert!(!app.peer_connected);
    assert_eq!(app.status_message, "Signaling 서버에 연결 중...");
    assert_eq!(app.room_code, "");
    assert_eq!(app.message_input, "");
    assert!(app.messages.is_empty());
    assert_eq!(app.server_label(), "서버 상태: 연결 안 됨");
    assert_eq!(app.room_label(), None);
    assert_eq!(app.peer_label(), "상대 상태: P2P 연결 안 됨");
}

#[test]
fn reports_change_the_window() {
    let (mut app, _ends) = talking();
    assert_eq!(app.status_message, "상대와 P2P로 연결되었습니다.");
    assert_eq!(app.server_label(), "서버 상태: 연결됨");
    assert_eq!(app.room_label(), Some("현재 방: R".to_string()));
    assert_eq!(app.peer_label(), "상대 상태: P2P 연결됨");
    app.handle_event(NetworkEvent::MessageSent("hi".to_string()));
    app.handle_event(NetworkEvent::MessageReceived("안녕".to_string()));
    assert_eq!(app.messages, vec!["나: hi".to_string(), "상대: 안녕".to_string()]);
    app.handle_event(NetworkEvent::RoomFull);
    assert_eq!(app.status_message, "방이 가득 찼습니다.");
    app.handle_event(NetworkEvent::RoomNotFound);
    assert_eq!(app.status_message, "방을 찾을 수 없습니다.");
    app.handle_event(NetworkEvent::AlreadyInRoom);
    assert_eq!(app.status_message, "이미 방에 들어가 있습니다.");
    app.handle_event(NetworkEvent::Error("x".to_string()));
    assert_eq!(app.status_message, "네트워크 오류: x");
    assert_eq!(app.messages.len(), 2);
    app.handle_event(NetworkEvent::PeerDisconnected);
    assert!(!app.peer_connected);
    assert_eq!(app.status_message, "상대와의 P2P 연결이 끊겼습니다.");
    assert_eq!(app.current_room, Some("R".to_string()));
    app.handle_event(NetworkEvent::RoomCreated("S".to_string()));
    assert_eq!(app.status_message, "방 S을 만들었습니다. 상대를 기다립니다.");
    assert!(app.messages.is_empty());
    app.handle_event(NetworkEvent::JoinedRoom("T".to_string()));
    assert_eq!(app.status_message, "방 T에 입장했습니다.");
    app.handle_event(NetworkEvent::P2pFailed);
    assert_eq!(app.current_room, None);
    assert_eq!(
        app.status_message,
        "P2P 연결에 실패했습니다. 다른 방을 다시 시도할 수 있습니다."
    );
}

#[test]
fn peer_without_a_room_is_ignored() {
    let (mut app, _ends) = window(1);
    app.handle_event(NetworkEvent::PeerConnected);
    assert!(!app.peer_connected);
    assert_eq!(app.status_message, "Signaling 서버에 연결 중...");
}

#[test]
fn messages_need_a_conversation() {
    let (mut app, _ends) = talking();
    app.handle_event(NetworkEvent::PeerDisconnected);
    app.handle_event(NetworkEvent::MessageReceived("late".to_string()));
    app.handle_event(NetworkEvent::MessageSent("late".to_string()));
    assert!(app.messages.is_empty());
}

#[test]
fn lost_server_takes_room_peer_and_buttons() {
    let (mut app, _ends) = talking();
    app.room_code = "X".to_string();
    app.message_input = "x".to_string();
    app.handle_event(NetworkEvent::ServerDisconnected);
    assert_eq!(app.status_message, "Signaling 서버 연결이 끊겼습니다.");
    assert!(!app.server_connected && !app.peer_connected && app.current_room.is_none());
    for button in [Button::CreateRoom, Button::JoinRoom, Button::LeaveRoom, Button::SendMessage] {
        assert!(!app.is_enabled(button));
    }
}

#[test]
fn waiting_reports_are_taken_in_in_order() {
    let (mut app, ends) = window(1);
    app.process_network_events();
    assert_eq!(app.status_message, "Signaling 서버에 연결 중...");
    ends.events.try_send(NetworkEvent::ServerConnected).unwrap();
    ends.events.try_send(NetworkEvent::JoinedRoom("R".to_string())).unwrap();
    ends.events.try_send(NetworkEvent::PeerConnected).unwrap();
    ends.events.try_send(NetworkEvent::MessageReceived("1".to_string())).unwrap();
    ends.events.try_send(NetworkEvent::MessageReceived("2".to_string())).unwrap();
    app.process_network_events();
    assert!(app.server_connected && app.peer_connected);
    assert_eq!(app.messages, vec!["상대: 1".to_string(), "상대: 2".to_string()]);
    drop(ends.events);
    app.process_network_events();
    assert_eq!(app.messages.len(), 2);
}

#[test]
fn create_button_asks_for_a_room() {
    let (mut app, mut ends) = window(1);
    app.click(Button::CreateRoom);
    assert!(ends.commands.try_recv().is_err());
    app.handle_event(NetworkEvent::ServerConnected);
    assert!(app.can_enter_room());
    app.click(Button::CreateRoom);
    assert!(matches!(ends.commands.try_recv(), Ok(NetworkCommand::CreateRoom)));
    assert_eq!(app.status_message, "방 생성 요청을 보냈습니다.");
}

#[test]
fn join_button_asks_for_the_room_in_upper_case() {
    let (mut app, mut ends) = window(1);
    app.handle_event(NetworkEvent::ServerConnected);
    app.room_code = " \t".to_string();
    assert!(!app.is_enabled(Button::JoinRoom));
    app.room_code = " ab1é ".to_string();
    assert!(app.is_enabled(Button::JoinRoom));
    app.click(Button::JoinRoom);
    assert!(matches!(ends.commands.try_recv(), Ok(NetworkCommand::JoinRoom(c)) if c == "AB1É"));
    assert_eq!(app.status_message, "방 입장 요청을 보냈습니다.");
    assert_eq!(app.room_code, " ab1é ");
    app.handle_event(NetworkEvent::JoinedRoom("AB1".to_string()));
    assert!(!app.can_enter_room());
    assert!(!app.is_enabled(Button::JoinRoom) && !app.is_enabled(Button::CreateRoom));
}

#[test]
fn leave_button_empties_the_conversation() {
    let (mut app, mut ends) = talking();
    app.handle_event(NetworkEvent::MessageSent("hi".to_string()));
    app.click(Button::LeaveRoom);
    assert!(matches!(ends.commands.try_recv(), Ok(NetworkCommand::LeaveRoom)));
    assert_eq!(app.current_room, None);
    assert!(!app.peer_connected);
    assert!(app.messages.is_empty());
    assert_eq!(app.status_message, "방에서 나갔습니다.");
    assert!(app.is_enabled(Button::CreateRoom) && !app.is_enabled(Button::LeaveRoom));
}

#[test]
fn send_button_sends_the_trimmed_message() {
    let (mut app, mut ends) = talking();
    app.message_input = "  ".to_string();
    assert!(!app.is_enabled(Button::SendMessage));
    app.message_input = "  hi there ".to_string();
    app.click(Button::SendMessage);
    assert!(
        matches!(ends.commands.try_recv(), Ok(NetworkCommand::SendMessage(m)) if m == "hi there")
    );
    assert_eq!(app.message_input, "");
    app.handle_event(NetworkEvent::PeerDisconnected);
    app.message_input = "x".to_string();
    assert!(!app.is_enabled(Button::SendMessage));
}

#[test]
fn full_channel_keeps_the_message() {
    let (mut app, mut ends) = talking();
    assert!(app.send_command(NetworkCommand::CreateRoom));
    app.message_input = "hi".to_string();
    app.click(Button::SendMessage);
    assert_eq!(app.message_input, "hi");
    assert_eq!(
        app.status_message,
        "네트워크 요청이 많습니다. 잠시 후 다시 시도하세요."
    );
    assert!(app.server_connected);
    assert!(ends.commands.try_recv().is_ok());
    assert!(ends.commands.try_recv().is_err());
}

#[test]
fn taking_in_reports_sends_nothing() {
    let (mut app, mut ends) = talking();
    for event in [NetworkEvent::PeerDisconnected, NetworkEvent::P2pFailed, NetworkEvent::RoomFull] {
        ends.events.try_send(event).unwrap();
    }
    app.process_network_events();
    app.click(Button::SendMessage);
    assert!(ends.commands.try_recv().is_err());
    assert!(app.send_command(NetworkCommand::SendMessage("x".to_string())));
    assert!(matches!(ends.commands.try_recv(), Ok(NetworkCommand::SendMessage(m)) if m == "x"));
}

#[test]
fn closed_channel_means_no_server() {
    let (mut app, ends) = talking();
    drop(ends.commands);
    app.click(Button::LeaveRoom);
    assert!(!app.server_connected);
    assert_eq!(app.status_message, "네트워크 작업이 종료되었습니다.");
    assert_eq!(app.current_room, Some("R".to_string()));
    assert!(app.peer_connected);
}

#[test]
fn outcomes_of_sending_are_noted() {
    let (mut app, _ends) = talking();
    assert!(app.note_send(SendOutcome::Sent));
    assert_eq!(app.status_message, "상대와 P2P로 연결되었습니다.");
    assert!(!app.note_send(SendOutcome::Full));
    assert!(app.server_connected);
    assert!(!app.note_send(SendOutcome::Closed));
    assert!(!app.server_connected);
}

#[test]
fn buttons_stand_for_commands() {
    let (mut app, _ends) = talking();
    app.room_code = "r2 ".to_string();
    app.message_input = " m".to_string();
    assert!(matches!(app.request(Button::CreateRoom), NetworkCommand::CreateRoom));
    assert!(matches!(app.request(Button::JoinRoom), NetworkCommand::JoinRoom(c) if c == "R2"));
    assert!(matches!(app.request(Button::LeaveRoom), NetworkCommand::LeaveRoom));
    assert!(matches!(app.request(Button::SendMessage), NetworkCommand::SendMessage(m) if m == "m"));
    app.confirm(Button::CreateRoom);
    assert_eq!(app.status_message, "방 생성 요청을 보냈습니다.");
}

#[test]
fn normalized_room_code_is_not_changed_again() {
    let (mut app, _ends) = window(1);
    app.room_code = "\t room7 ".to_string();
    let command = app.request(Button::JoinRoom);
    assert!(matches!(&command, NetworkCommand::JoinRoom(c) if c == "ROOM7"));
    assert!(matches!(
        handle_command(command, &P2pState::new()),
        ClientAction::Write { line } if line == "JOIN ROOM7\n"
    ));
}
