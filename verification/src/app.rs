//! The state behind the chat window: what it shows, which of its buttons can be
//! pressed, and what comes of pressing them and of the reports of the network task.

use crate::channel::{answers, given_out, offers, try_recv, try_send, SendOutcome};
use crate::network::{CommandView, EventView, NetworkCommand, NetworkEvent};
use crate::server::codes::{is_code_char, is_room_code};
use crate::text::{
    ascii_uppercase, is_white_space, law_blank_text, law_texts, law_trim_keeps_the_stretch_between,
    texts, trim, trimmed, uppercase,
};
use tokio::sync::mpsc;
use vstd::prelude::*;
use vstd::string::*;
use vstd::utf8::*;

verus! {

/// A button of the window.
#[derive(Clone, Copy, Debug, PartialEq, Eq, Structural)]
pub enum Button {
    CreateRoom,
    JoinRoom,
    LeaveRoom,
    SendMessage,
}

/// The chat window.
pub struct ChatApp {
    pub command_tx: mpsc::Sender<NetworkCommand>,
    pub event_rx: mpsc::Receiver<NetworkEvent>,
    pub server_connected: bool,
    pub current_room: Option<String>,
    pub peer_connected: bool,
    pub status_message: String,
    /// What stands in the field for the room code.
    pub room_code: String,
    /// What stands in the field for the next message.
    pub message_input: String,
    /// The messages of the conversation, oldest first.
    pub messages: Vec<String>,
}

/// The view of a `ChatApp`.
#[verifier::ext_equal]
pub struct ChatView {
    pub server_connected: bool,
    pub current_room: Option<Seq<char>>,
    pub peer_connected: bool,
    pub status_message: Seq<char>,
    pub room_code: Seq<char>,
    pub message_input: Seq<char>,
    pub messages: Seq<Seq<char>>,
}

impl View for ChatApp {
    type V = ChatView;

    open spec fn view(&self) -> ChatView {
        ChatView {
            server_connected: self.server_connected,
            current_room: match self.current_room {
                Some(room_code) => Some(room_code@),
                None => None,
            },
            peer_connected: self.peer_connected,
            status_message: self.status_message@,
            room_code: self.room_code@,
            message_input: self.message_input@,
            messages: texts(self.messages@),
        }
    }
}

impl ChatView {
    /// A peer is connected only while the client is in a room.
    pub open spec fn wf(self) -> bool {
        self.peer_connected ==> self.current_room is Some
    }

    /// The window with the status line `text`.
    pub open spec fn with_status(self, text: Seq<char>) -> ChatView {
        ChatView { status_message: text, ..self }
    }

    /// The window when the client has come into the room `room_code`.
    pub open spec fn entered(self, room_code: Seq<char>) -> ChatView {
        ChatView {
            current_room: Some(room_code),
            peer_connected: false,
            messages: Seq::empty(),
            ..self
        }
    }

    /// The window when the client has no room any more.
    pub open spec fn outside(self) -> ChatView {
        ChatView { current_room: None, peer_connected: false, ..self }
    }

    /// The client is in a room, with a peer.
    pub open spec fn talking(self) -> bool {
        self.current_room is Some && self.peer_connected
    }

    /// The window with one more line in the conversation, if there is one.
    pub open spec fn with_message(self, line: Seq<char>) -> ChatView {
        if self.talking() {
            ChatView { messages: self.messages.push(line), ..self }
        } else {
            self
        }
    }

    /// The window after the report `event` of the network task.
    pub open spec fn after_event(self, event: EventView) -> ChatView {
        match event {
            EventView::ServerConnected => ChatView { server_connected: true, ..self }.with_status(
                "Signaling 서버에 연결되었습니다."@,
            ),
            EventView::ServerDisconnected => ChatView {
                server_connected: false,
                ..self.outside()
            }.with_status("Signaling 서버 연결이 끊겼습니다."@),
            EventView::RoomCreated(room_code) => self.entered(room_code).with_status(
                "방 "@ + room_code + "을 만들었습니다. 상대를 기다립니다."@,
            ),
            EventView::JoinedRoom(room_code) => self.entered(room_code).with_status(
                "방 "@ + room_code + "에 입장했습니다."@,
            ),
            EventView::RoomFull => self.with_status("방이 가득 찼습니다."@),
            EventView::RoomNotFound => self.with_status("방을 찾을 수 없습니다."@),
            EventView::AlreadyInRoom => self.with_status("이미 방에 들어가 있습니다."@),
            EventView::PeerConnected => if self.current_room is Some {
                ChatView { peer_connected: true, ..self }.with_status(
                    "상대와 P2P로 연결되었습니다."@,
                )
            } else {
                self
            },
            EventView::PeerDisconnected => ChatView {
                peer_connected: false,
                ..self
            }.with_status("상대와의 P2P 연결이 끊겼습니다."@),
            EventView::P2pFailed => self.outside().with_status(
                "P2P 연결에 실패했습니다. 다른 방을 다시 시도할 수 있습니다."@,
            ),
            EventView::MessageSent(message) => self.with_message("나: "@ + message),
            EventView::MessageReceived(message) => self.with_message("상대: "@ + message),
            EventView::Error(error) => self.with_status("네트워크 오류: "@ + error),
        }
    }

    /// The window after it asked for the next report of the network task and the answer
    /// was `answer`.
    pub open spec fn after_answer(self, answer: Option<EventView>) -> ChatView {
        match answer {
            Some(event) => self.after_event(event),
            None => self,
        }
    }

    /// The window after the reports `events` of the network task, in order.
    pub open spec fn after_events(self, events: Seq<EventView>) -> ChatView
        decreases events.len(),
    {
        if events.len() == 0 {
            self
        } else {
            self.after_events(events.drop_last()).after_event(events.last())
        }
    }

    /// The window after an attempt to hand a command to the network task.
    pub open spec fn after_send(self, outcome: SendOutcome) -> ChatView {
        match outcome {
            SendOutcome::Sent => self,
            SendOutcome::Full => self.with_status(
                "네트워크 요청이 많습니다. 잠시 후 다시 시도하세요."@,
            ),
            SendOutcome::Closed => ChatView { server_connected: false, ..self }.with_status(
                "네트워크 작업이 종료되었습니다."@,
            ),
        }
    }

    /// A room can be created or joined.
    pub open spec fn can_enter_room(self) -> bool {
        self.server_connected && self.current_room is None
    }

    /// The button can be pressed.
    pub open spec fn enabled(self, button: Button) -> bool {
        match button {
            Button::CreateRoom => self.can_enter_room(),
            Button::JoinRoom => self.can_enter_room() && trimmed(self.room_code).len() > 0,
            Button::LeaveRoom => self.current_room is Some,
            Button::SendMessage => self.peer_connected && trimmed(self.message_input).len() > 0,
        }
    }

    /// The command that the button stands for.
    pub open spec fn request(self, button: Button) -> CommandView {
        match button {
            Button::CreateRoom => CommandView::CreateRoom,
            Button::JoinRoom => CommandView::JoinRoom(uppercase(trimmed(self.room_code))),
            Button::LeaveRoom => CommandView::LeaveRoom,
            Button::SendMessage => CommandView::SendMessage(trimmed(self.message_input)),
        }
    }

    /// The window when the command of the button was handed to the network task.
    pub open spec fn confirmed(self, button: Button) -> ChatView {
        match button {
            Button::CreateRoom => self.with_status("방 생성 요청을 보냈습니다."@),
            Button::JoinRoom => self.with_status("방 입장 요청을 보냈습니다."@),
            Button::LeaveRoom => ChatView {
                messages: Seq::empty(),
                ..self.outside()
            }.with_status("방에서 나갔습니다."@),
            Button::SendMessage => ChatView { message_input: Seq::empty(), ..self },
        }
    }

    /// The window after the button was pressed, when the attempt to hand its command
    /// to the network task ended with `outcome`.
    pub open spec fn after_click(self, button: Button, outcome: SendOutcome) -> ChatView {
        if !self.enabled(button) {
            self
        } else if outcome is Sent {
            self.confirmed(button)
        } else {
            self.after_send(outcome)
        }
    }
}

impl ChatApp {
    /// A window that gives its commands to `command_tx` and takes reports from
    /// `event_rx`.
    pub fn new(
        command_tx: mpsc::Sender<NetworkCommand>,
        event_rx: mpsc::Receiver<NetworkEvent>,
    ) -> (r: Self)
        ensures
            r.command_tx == command_tx,
            r.event_rx == event_rx,
            r@ == (ChatView {
                server_connected: false,
                current_room: None,
                peer_connected: false,
                status_message: "Signaling 서버에 연결 중..."@,
                room_code: Seq::empty(),
                message_input: Seq::empty(),
                messages: Seq::empty(),
            }),
            r@.wf(),
    {
        let app = Self {
            command_tx,
            event_rx,
            server_connected: false,
            current_room: None,
            peer_connected: false,
            status_message: "Signaling 서버에 연결 중...".to_string(),
            room_code: String::new(),
            message_input: String::new(),
            messages: Vec::new(),
        };
        proof {
            assert(app@.messages =~= Seq::empty());
        }
        app
    }

    /// Adds `speaker` and `message` to the conversation, if there is one.
    fn add_message(&mut self, speaker: &str, message: &str)
        ensures
            final(self)@ == old(self)@.with_message(speaker@ + message@),
            final(self).command_tx == old(self).command_tx,
            final(self).event_rx == old(self).event_rx,
    {
        if self.current_room.is_some() && self.peer_connected {
            let ghost before = self.messages@;
            let line = speaker.to_string().concat(message);
            self.messages.push(line);
            proof {
                assert(texts(self.messages@) =~= texts(before).push(line@));
            }
        }
    }

    /// Empties the conversation.
    fn clear_messages(&mut self)
        ensures
            final(self)@ == (ChatView { messages: Seq::empty(), ..old(self)@ }),
            final(self).command_tx == old(self).command_tx,
            final(self).event_rx == old(self).event_rx,
    {
        self.messages.clear();
        proof {
            assert(texts(self.messages@) =~= Seq::empty());
        }
    }

    /// Takes in the report `event` of the network task.
    pub fn handle_event(&mut self, event: NetworkEvent)
        ensures
            final(self)@ == old(self)@.after_event(event@),
            event matches NetworkEvent::RoomCreated(room_code) ==> {
                &&& final(self).current_room matches Some(current) && current@ == room_code@
                &&& !final(self).peer_connected
                &&& final(self).messages@.len() == 0
            },
            event matches NetworkEvent::JoinedRoom(room_code) ==> {
                &&& final(self).current_room matches Some(current) && current@ == room_code@
                &&& !final(self).peer_connected
                &&& final(self).messages@.len() == 0
            },
            event is PeerConnected && old(self).current_room is Some
                ==> final(self).peer_connected,
            final(self).command_tx == old(self).command_tx,
            final(self).event_rx == old(self).event_rx,
    {
        match event {
            NetworkEvent::ServerConnected => {
                self.server_connected = true;
                self.status_message = "Signaling 서버에 연결되었습니다.".to_string();
            },
            NetworkEvent::ServerDisconnected => {
                self.server_connected = false;
                self.current_room = None;
                self.peer_connected = false;
                self.status_message = "Signaling 서버 연결이 끊겼습니다.".to_string();
            },
            NetworkEvent::RoomCreated(room_code) => {
                self.status_message = "방 ".to_string().concat(room_code.as_str()).concat(
                    "을 만들었습니다. 상대를 기다립니다.",
                );
                self.current_room = Some(room_code);
                self.peer_connected = false;
                self.clear_messages();
            },
            NetworkEvent::JoinedRoom(room_code) => {
                self.status_message = "방 ".to_string().concat(room_code.as_str()).concat(
                    "에 입장했습니다.",
                );
                self.current_room = Some(room_code);
                self.peer_connected = false;
                self.clear_messages();
            },
            NetworkEvent::RoomFull => {
                self.status_message = "방이 가득 찼습니다.".to_string();
            },
            NetworkEvent::RoomNotFound => {
                self.status_message = "방을 찾을 수 없습니다.".to_string();
            },
            NetworkEvent::AlreadyInRoom => {
                self.status_message = "이미 방에 들어가 있습니다.".to_string();
            },
            NetworkEvent::PeerConnected => {
                if self.current_room.is_some() {
                    self.peer_connected = true;
                    self.status_message = "상대와 P2P로 연결되었습니다.".to_string();
                }
            },
            NetworkEvent::PeerDisconnected => {
                self.peer_connected = false;
                self.status_message = "상대와의 P2P 연결이 끊겼습니다.".to_string();
            },
            NetworkEvent::P2pFailed => {
                self.current_room = None;
                self.peer_connected = false;
                self.status_message =
                "P2P 연결에 실패했습니다. 다른 방을 다시 시도할 수 있습니다.".to_string();
            },
            NetworkEvent::MessageSent(message) => {
                self.add_message("나: ", message.as_str());
            },
            NetworkEvent::MessageReceived(message) => {
                self.add_message("상대: ", message.as_str());
            },
            NetworkEvent::Error(error) => {
                self.status_message = "네트워크 오류: ".to_string().concat(error.as_str());
            },
        }
        proof {
            law_texts(self.messages@);
        }
    }

    /// Asks once for the next report of the network task, takes it in if one has come,
    /// and says whether one had.
    fn process_network_event(&mut self) -> (r: bool)
        ensures
            exists|answer: Option<EventView>|
                {
                    &&& answers(final(self).event_rx) == answers(old(self).event_rx).push(answer)
                    &&& r == (answer is Some)
                    &&& final(self)@ == #[trigger] old(self)@.after_answer(answer)
                },
            final(self).command_tx == old(self).command_tx,
    {
        match try_recv(&mut self.event_rx) {
            Some(event) => {
                let ghost answer = Some(event@);
                self.handle_event(event);
                proof {
                    assert(self@ == old(self)@.after_answer(answer));
                }
                true
            },
            None => {
                proof {
                    assert(self@ == old(self)@.after_answer(None));
                }
                false
            },
        }
    }

    /// Takes in the reports of the network task that have come, all of them and in
    /// order, until the answer is that there are no more. (It would also stop after
    /// `u64::MAX` of them.)
    pub fn process_network_events(&mut self)
        ensures
            exists|events: Seq<EventView>|
                {
                    &&& final(self)@ == #[trigger] old(self)@.after_events(events)
                    &&& events.len() <= u64::MAX
                    &&& answers(final(self).event_rx) == answers(old(self).event_rx) + if events.len()
                        < u64::MAX {
                        given_out(events).push(None)
                    } else {
                        given_out(events)
                    }
                },
            final(self).command_tx == old(self).command_tx,
    {
        let ghost start = self@;
        let ghost asked = answers(self.event_rx);
        let ghost mut events: Seq<EventView> = Seq::empty();
        let mut limit: u64 = u64::MAX;
        proof {
            assert(asked + given_out(events) =~= asked);
        }
        while limit > 0
            invariant
                self@ == start.after_events(events),
                start == old(self)@,
                asked == answers(old(self).event_rx),
                answers(self.event_rx) == asked + given_out(events),
                events.len() + limit == u64::MAX,
                self.command_tx == old(self).command_tx,
            decreases limit,
        {
            let ghost before = self@;
            let ghost answered = answers(self.event_rx);
            let come = self.process_network_event();
            let ghost answer = choose|answer: Option<EventView>|
                {
                    &&& answers(self.event_rx) == answered.push(answer)
                    &&& come == (answer is Some)
                    &&& self@ == #[trigger] before.after_answer(answer)
                };
            if !come {
                proof {
                    assert(answers(self.event_rx) =~= asked + given_out(events).push(None));
                }
                return;
            }
            proof {
                let event = answer->0;
                let longer = events.push(event);
                assert(longer.drop_last() =~= events);
                assert(longer.last() == event);
                assert(answers(self.event_rx) =~= asked + given_out(longer));
                events = longer;
            }
            limit = limit - 1;
        }
    }

    /// Takes in how an attempt to hand a command to the network task ended, and says
    /// whether the command was handed over.
    pub fn note_send(&mut self, outcome: SendOutcome) -> (r: bool)
        ensures
            r == (outcome is Sent),
            final(self)@ == old(self)@.after_send(outcome),
            final(self).command_tx == old(self).command_tx,
            final(self).event_rx == old(self).event_rx,
    {
        match outcome {
            SendOutcome::Sent => true,
            SendOutcome::Full => {
                self.status_message =
                "네트워크 요청이 많습니다. 잠시 후 다시 시도하세요.".to_string();
                false
            },
            SendOutcome::Closed => {
                self.server_connected = false;
                self.status_message = "네트워크 작업이 종료되었습니다.".to_string();
                false
            },
        }
    }

    /// Hands `command` to the network task, and says whether it could: offers it once
    /// to the channel, and nothing else.
    pub fn send_command(&mut self, command: NetworkCommand) -> (r: bool)
        ensures
            exists|outcome: SendOutcome|
                {
                    &&& offers(final(self).command_tx) == offers(old(self).command_tx).push(
                        (command@, outcome),
                    )
                    &&& r == (outcome is Sent)
                    &&& final(self)@ == #[trigger] old(self)@.after_send(outcome)
                },
            final(self).event_rx == old(self).event_rx,
    {
        let outcome = try_send(&mut self.command_tx, command);
        let sent = self.note_send(outcome);
        proof {
            assert(self@ == old(self)@.after_send(outcome));
        }
        sent
    }

    /// What the window says of the server.
    pub fn server_label(&self) -> (r: String)
        ensures
            r@ == "서버 상태: "@ + if self@.server_connected {
                "연결됨"@
            } else {
                "연결 안 됨"@
            },
    {
        let server_status = if self.server_connected {
            "연결됨"
        } else {
            "연결 안 됨"
        };
        "서버 상태: ".to_string().concat(server_status)
    }

    /// What the window says of the room, if the client is in one.
    pub fn room_label(&self) -> (r: Option<String>)
        ensures
            match self@.current_room {
                Some(room_code) => r matches Some(label) && label@ == "현재 방: "@ + room_code,
                None => r is None,
            },
    {
        match &self.current_room {
            Some(room_code) => Some("현재 방: ".to_string().concat(room_code.as_str())),
            None => None,
        }
    }

    /// What the window says of the peer.
    pub fn peer_label(&self) -> (r: String)
        ensures
            r@ == "상대 상태: "@ + if self@.peer_connected {
                "P2P 연결됨"@
            } else {
                "P2P 연결 안 됨"@
            },
    {
        let peer_status = if self.peer_connected {
            "P2P 연결됨"
        } else {
            "P2P 연결 안 됨"
        };
        "상대 상태: ".to_string().concat(peer_status)
    }

    /// Whether a room can be created or joined.
    pub fn can_enter_room(&self) -> (r: bool)
        ensures
            r == self@.can_enter_room(),
    {
        self.server_connected && self.current_room.is_none()
    }

    /// Whether the button can be pressed.
    pub fn is_enabled(&self, button: Button) -> (r: bool)
        ensures
            r == self@.enabled(button),
            button is CreateRoom ==> r == (self.server_connected && self.current_room is None),
            button is JoinRoom ==> r == (self.server_connected && self.current_room is None
                && exists|i: int|
                0 <= i < self.room_code@.len() && !is_white_space(#[trigger] self.room_code@[i])),
            button is LeaveRoom ==> r == (self.current_room is Some),
            button is SendMessage ==> r == (self.peer_connected && exists|i: int|
                0 <= i < self.message_input@.len() && !is_white_space(
                    #[trigger] self.message_input@[i],
                )),
    {
        proof {
            law_blank_text(self.room_code@);
            law_blank_text(self.message_input@);
        }
        match button {
            Button::CreateRoom => self.can_enter_room(),
            Button::JoinRoom => self.can_enter_room() && !trim(self.room_code.as_str()).is_empty(),
            Button::LeaveRoom => self.current_room.is_some(),
            Button::SendMessage => self.peer_connected && !trim(
                self.message_input.as_str(),
            ).is_empty(),
        }
    }

    /// The command that the button stands for. A room code in ASCII is trimmed and
    /// put into upper case letter by letter.
    pub fn request(&self, button: Button) -> (r: NetworkCommand)
        ensures
            r@ == self@.request(button),
            button is JoinRoom && is_ascii_chars(trimmed(self@.room_code)) ==> r@
                == CommandView::JoinRoom(ascii_uppercase(trimmed(self@.room_code))),
    {
        match button {
            Button::CreateRoom => NetworkCommand::CreateRoom,
            Button::JoinRoom => {
                let stripped = trim(self.room_code.as_str());
                NetworkCommand::JoinRoom(stripped.to_uppercase())
            },
            Button::LeaveRoom => NetworkCommand::LeaveRoom,
            Button::SendMessage => NetworkCommand::SendMessage(
                trim(self.message_input.as_str()).to_string(),
            ),
        }
    }

    /// Takes in that the command of the button was handed to the network task.
    pub fn confirm(&mut self, button: Button)
        ensures
            final(self)@ == old(self)@.confirmed(button),
            final(self).command_tx == old(self).command_tx,
            final(self).event_rx == old(self).event_rx,
    {
        match button {
            Button::CreateRoom => {
                self.status_message = "방 생성 요청을 보냈습니다.".to_string();
            },
            Button::JoinRoom => {
                self.status_message = "방 입장 요청을 보냈습니다.".to_string();
            },
            Button::LeaveRoom => {
                self.current_room = None;
                self.peer_connected = false;
                self.clear_messages();
                self.status_message = "방에서 나갔습니다.".to_string();
            },
            Button::SendMessage => {
                self.message_input = String::new();
            },
        }
    }

    /// Does what pressing the button does: its command, and nothing else, is offered
    /// once to the network task. A button that cannot be pressed does nothing.
    pub fn click(&mut self, button: Button)
        ensures
            !old(self)@.enabled(button) ==> *final(self) == *old(self),
            old(self)@.enabled(button) ==> exists|outcome: SendOutcome|
                {
                    &&& offers(final(self).command_tx) == offers(old(self).command_tx).push(
                        (old(self)@.request(button), outcome),
                    )
                    &&& final(self)@ == #[trigger] old(self)@.after_click(button, outcome)
                },
            final(self).event_rx == old(self).event_rx,
    {
        if !self.is_enabled(button) {
            return;
        }
        let command = self.request(button);
        let ghost asked = command@;
        let sent = self.send_command(command);
        let ghost outcome = choose|outcome: SendOutcome|
            {
                &&& offers(self.command_tx) == offers(old(self).command_tx).push((asked, outcome))
                &&& sent == (outcome is Sent)
                &&& self@ == #[trigger] old(self)@.after_send(outcome)
            };
        if sent {
            self.confirm(button);
        }
        proof {
            assert(self@ == old(self)@.after_click(button, outcome));
        }
    }
}

/// Whatever the network task reports and whichever buttons are pressed, a peer is
/// connected only while the client is in a room.
pub proof fn law_peers_only_in_rooms(
    window: ChatView,
    event: EventView,
    events: Seq<EventView>,
    button: Button,
    outcome: SendOutcome,
)
    requires
        window.wf(),
    ensures
        window.after_event(event).wf(),
        window.after_events(events).wf(),
        window.after_send(outcome).wf(),
        window.after_click(button, outcome).wf(),
    decreases events.len(),
{
    if events.len() > 0 {
        law_peers_only_in_rooms(window, event, events.drop_last(), button, outcome);
        let before = window.after_events(events.drop_last());
        law_peers_only_in_rooms(before, events.last(), Seq::empty(), button, outcome);
    }
}

/// While the client is in a room with a peer, each message that went out and each
/// that came in is added at the end of the conversation, marked with who said it;
/// without a room or a peer, none is.
pub proof fn law_messages_are_shown(window: ChatView, message: Seq<char>)
    ensures
        window.talking() <==> window.current_room is Some && window.peer_connected,
        window.talking() ==> window.after_event(EventView::MessageSent(message)).messages
            == window.messages.push("나: "@ + message),
        window.talking() ==> window.after_event(EventView::MessageReceived(message)).messages
            == window.messages.push("상대: "@ + message),
        !window.talking() ==> window.after_event(EventView::MessageSent(message)) == window,
        !window.talking() ==> window.after_event(EventView::MessageReceived(message)) == window,
{
}

/// Nothing but a message that went out or came in, a new room and leaving the room
/// changes the conversation.
pub proof fn law_conversation_stays(
    window: ChatView,
    event: EventView,
    button: Button,
    outcome: SendOutcome,
)
    requires
        !(event is MessageSent || event is MessageReceived || event is RoomCreated
            || event is JoinedRoom),
        !(button is LeaveRoom),
    ensures
        window.after_event(event).messages == window.messages,
        window.after_click(button, outcome).messages == window.messages,
{
}

/// No report changes what stands in the fields of the window.
pub proof fn law_reports_keep_the_fields(window: ChatView, event: EventView)
    ensures
        window.after_event(event).room_code == window.room_code,
        window.after_event(event).message_input == window.message_input,
{
}

/// When a button is pressed and its command cannot be handed over, the room, the peer,
/// the fields and the conversation stay as they are.
pub proof fn law_failed_clicks_change_little(
    window: ChatView,
    button: Button,
    outcome: SendOutcome,
)
    requires
        !(outcome is Sent),
    ensures
        window.after_click(button, outcome) == (ChatView {
            server_connected: window.after_click(button, outcome).server_connected,
            status_message: window.after_click(button, outcome).status_message,
            ..window
        }),
        outcome is Full ==> window.after_click(button, outcome).server_connected
            == window.server_connected,
{
}

/// While the client is in a room it cannot create or join another.
pub proof fn law_one_room_at_a_time(window: ChatView)
    requires
        window.current_room is Some,
    ensures
        !window.enabled(Button::CreateRoom),
        !window.enabled(Button::JoinRoom),
        window.enabled(Button::LeaveRoom),
{
}

/// Without the server no button can be pressed.
pub proof fn law_no_buttons_without_the_server(window: ChatView, button: Button)
    ensures
        !window.after_event(EventView::ServerDisconnected).enabled(button),
{
}

/// Leaving a room brings the window back to where a room can be created, if the
/// server is there, with an empty conversation.
pub proof fn law_leaving_frees_the_window(window: ChatView)
    requires
        window.current_room is Some,
    ensures
        ({
            let after = window.after_click(Button::LeaveRoom, SendOutcome::Sent);
            &&& after.current_room is None
            &&& !after.peer_connected
            &&& after.messages == Seq::<Seq<char>>::empty()
            &&& after.enabled(Button::CreateRoom) == window.server_connected
        }),
{
}

/// After the report that a room was opened or joined the client is in the room with that
/// code, whatever the code, without a peer and with an empty conversation; it can leave,
/// and cannot go to another room. The report that a peer is connected then makes it so.
pub proof fn law_entered_rooms(window: ChatView, code: Seq<char>)
    ensures
        forall|event: EventView|
            event == EventView::RoomCreated(code) || event == EventView::JoinedRoom(code) ==> {
                let after = #[trigger] window.after_event(event);
                &&& after.current_room == Some(code)
                &&& !after.peer_connected
                &&& after.messages.len() == 0
                &&& after.server_connected == window.server_connected
                &&& after.room_code == window.room_code
                &&& after.message_input == window.message_input
                &&& after.after_event(EventView::PeerConnected).peer_connected
                &&& after.after_event(EventView::PeerConnected).current_room == Some(code)
                &&& after.enabled(Button::LeaveRoom)
                &&& !after.enabled(Button::CreateRoom)
                &&& !after.enabled(Button::JoinRoom)
            },
        window.after_event(EventView::RoomCreated(code)).status_message == "방 "@ + code
            + "을 만들었습니다. 상대를 기다립니다."@,
        window.after_event(EventView::JoinedRoom(code)).status_message == "방 "@ + code
            + "에 입장했습니다."@,
{
}

/// The report that the server is there changes nothing else but the status line; the
/// report that it is gone also takes the room and the peer, and keeps the conversation.
pub proof fn law_server_comes_and_goes(window: ChatView)
    ensures
        ({
            let there = window.after_event(EventView::ServerConnected);
            &&& there.server_connected
            &&& there.current_room == window.current_room
            &&& there.peer_connected == window.peer_connected
            &&& there.messages == window.messages
            &&& there.status_message == "Signaling 서버에 연결되었습니다."@
        }),
        ({
            let gone = window.after_event(EventView::ServerDisconnected);
            &&& !gone.server_connected
            &&& gone.current_room is None
            &&& !gone.peer_connected
            &&& gone.messages == window.messages
            &&& gone.status_message == "Signaling 서버 연결이 끊겼습니다."@
        }),
{
}

/// A refusal and an error change the status line, which says what is the matter, and
/// nothing else.
pub proof fn law_refusals_are_shown(window: ChatView, event: EventView, error: Seq<char>)
    requires
        event is RoomFull || event is RoomNotFound || event is AlreadyInRoom || event
            == EventView::Error(error),
    ensures
        ({
            let after = window.after_event(event);
            &&& after.server_connected == window.server_connected
            &&& after.current_room == window.current_room
            &&& after.peer_connected == window.peer_connected
            &&& after.messages == window.messages
            &&& event is RoomFull ==> after.status_message == "방이 가득 찼습니다."@
            &&& event is RoomNotFound ==> after.status_message == "방을 찾을 수 없습니다."@
            &&& event is AlreadyInRoom ==> after.status_message == "이미 방에 들어가 있습니다."@
            &&& event is Error ==> after.status_message == "네트워크 오류: "@ + error
        }),
{
}

/// In every room the report that a peer is connected makes it so, and without a room it
/// changes nothing. When the peer is gone the client stays in its room; when the peer
/// could not be reached it is in no room. None of these changes the conversation or what
/// is known of the server.
pub proof fn law_peer_comes_and_goes(window: ChatView)
    ensures
        ({
            let there = window.after_event(EventView::PeerConnected);
            &&& window.current_room is Some ==> there.peer_connected && there.status_message
                == "상대와 P2P로 연결되었습니다."@
            &&& window.current_room is None ==> there == window
            &&& there.current_room == window.current_room
            &&& there.server_connected == window.server_connected
            &&& there.messages == window.messages
        }),
        ({
            let gone = window.after_event(EventView::PeerDisconnected);
            &&& !gone.peer_connected
            &&& gone.current_room == window.current_room
            &&& gone.server_connected == window.server_connected
            &&& gone.messages == window.messages
            &&& gone.status_message == "상대와의 P2P 연결이 끊겼습니다."@
        }),
        ({
            let failed = window.after_event(EventView::P2pFailed);
            &&& !failed.peer_connected
            &&& failed.current_room is None
            &&& failed.server_connected == window.server_connected
            &&& failed.messages == window.messages
            &&& failed.status_message
                == "P2P 연결에 실패했습니다. 다른 방을 다시 시도할 수 있습니다."@
        }),
{
}

/// A message that went out or came in changes the conversation and nothing else.
pub proof fn law_messages_change_the_conversation_only(window: ChatView, message: Seq<char>)
    ensures
        forall|event: EventView|
            event == EventView::MessageSent(message) || event == EventView::MessageReceived(message)
                ==> (ChatView {
                messages: window.messages,
                ..#[trigger] window.after_event(event)
            }) == window,
{
}

/// Reports are taken in one after the other, in order, and none is passed over. Where
/// there is none to take in, nothing changes.
pub proof fn law_reports_are_taken_in_turn(
    window: ChatView,
    events: Seq<EventView>,
    event: EventView,
)
    ensures
        window.after_events(Seq::empty()) == window,
        window.after_events(events.push(event)) == window.after_events(events).after_event(event),
        window.after_answer(Some(event)) == window.after_event(event),
        window.after_answer(None) == window,
{
    assert(events.push(event).drop_last() =~= events);
}

/// When each button can be pressed: the one for a new room exactly if the server is there
/// and the client is in no room; the one to join exactly if besides there is something
/// other than whitespace in the field for the code, as there is with every code that the
/// server makes; the one to leave exactly if the client is in a room; the one to send
/// exactly if a peer is connected and there is something other than whitespace in the
/// field for the message.
pub proof fn law_when_buttons_can_be_pressed(window: ChatView)
    ensures
        window.can_enter_room() <==> window.server_connected && window.current_room is None,
        window.enabled(Button::CreateRoom) <==> window.server_connected && window.current_room
            is None,
        window.enabled(Button::JoinRoom) <==> window.server_connected && window.current_room is None
            && exists|i: int|
            0 <= i < window.room_code.len() && !is_white_space(#[trigger] window.room_code[i]),
        window.server_connected && window.current_room is None && is_room_code(window.room_code)
            ==> window.enabled(Button::JoinRoom),
        window.enabled(Button::LeaveRoom) <==> window.current_room is Some,
        window.enabled(Button::SendMessage) <==> window.peer_connected && exists|i: int|
            0 <= i < window.message_input.len() && !is_white_space(
                #[trigger] window.message_input[i],
            ),
{
    law_blank_text(window.room_code);
    law_blank_text(window.message_input);
    if is_room_code(window.room_code) {
        assert(is_code_char(window.room_code[0]));
    }
}

/// What each button asks the network task for. A code or a message is the one that stands
/// in the field, from its first to its last character that is not whitespace; the code is
/// in upper case.
pub proof fn law_what_buttons_ask_for(window: ChatView, lo: int, hi: int)
    ensures
        window.request(Button::CreateRoom) is CreateRoom,
        window.request(Button::LeaveRoom) is LeaveRoom,
        0 <= lo < hi <= window.room_code.len() && (forall|i: int|
            0 <= i < lo || hi <= i < window.room_code.len() ==> is_white_space(
                #[trigger] window.room_code[i],
            )) && !is_white_space(window.room_code[lo]) && !is_white_space(
            window.room_code[hi - 1],
        ) ==> window.request(Button::JoinRoom) == CommandView::JoinRoom(
            uppercase(window.room_code.subrange(lo, hi)),
        ),
        0 <= lo < hi <= window.message_input.len() && (forall|i: int|
            0 <= i < lo || hi <= i < window.message_input.len() ==> is_white_space(
                #[trigger] window.message_input[i],
            )) && !is_white_space(window.message_input[lo]) && !is_white_space(
            window.message_input[hi - 1],
        ) ==> window.request(Button::SendMessage) == CommandView::SendMessage(
            window.message_input.subrange(lo, hi),
        ),
{
    let code = window.room_code;
    if 0 <= lo < hi <= code.len() && (forall|i: int|
        0 <= i < lo || hi <= i < code.len() ==> is_white_space(#[trigger] code[i]))
        && !is_white_space(code[lo]) && !is_white_space(code[hi - 1]) {
        law_trim_keeps_the_stretch_between(code, lo, hi);
    }
    let message = window.message_input;
    if 0 <= lo < hi <= message.len() && (forall|i: int|
        0 <= i < lo || hi <= i < message.len() ==> is_white_space(#[trigger] message[i]))
        && !is_white_space(message[lo]) && !is_white_space(message[hi - 1]) {
        law_trim_keeps_the_stretch_between(message, lo, hi);
    }
}

/// What an attempt to hand over a command changes: nothing, if it succeeded; the status
/// line, if there was no room; and the server counts as gone, if nobody receives.
pub proof fn law_attempts(window: ChatView)
    ensures
        window.after_send(SendOutcome::Sent) == window,
        ({
            let full = window.after_send(SendOutcome::Full);
            &&& full.status_message == "네트워크 요청이 많습니다. 잠시 후 다시 시도하세요."@
            &&& (ChatView { status_message: window.status_message, ..full }) == window
        }),
        ({
            let closed = window.after_send(SendOutcome::Closed);
            &&& closed.status_message == "네트워크 작업이 종료되었습니다."@
            &&& !closed.server_connected
            &&& (ChatView {
                status_message: window.status_message,
                server_connected: window.server_connected,
                ..closed
            }) == window
        }),
{
}

/// What pressing a button changes. One that cannot be pressed changes nothing. When its
/// command was handed over: asking for a room changes the status line only, leaving takes
/// the room, the peer and the conversation, and sending empties the field for the message.
/// When it was not, only what an attempt to hand it over changes is changed.
pub proof fn law_what_clicks_change(window: ChatView, button: Button, outcome: SendOutcome)
    ensures
        ({
            let after = window.after_click(button, outcome);
            let handed_over = window.enabled(button) && outcome is Sent;
            &&& !window.enabled(button) ==> after == window
            &&& window.enabled(button) && !(outcome is Sent) ==> after == window.after_send(outcome)
            &&& handed_over && (button is CreateRoom || button is JoinRoom) ==> (ChatView {
                status_message: window.status_message,
                ..after
            }) == window
            &&& handed_over && button is CreateRoom ==> after.status_message
                == "방 생성 요청을 보냈습니다."@
            &&& handed_over && button is JoinRoom ==> after.status_message
                == "방 입장 요청을 보냈습니다."@
            &&& handed_over && button is LeaveRoom ==> {
                &&& after.current_room is None
                &&& !after.peer_connected
                &&& after.messages.len() == 0
                &&& after.status_message == "방에서 나갔습니다."@
                &&& after.server_connected == window.server_connected
                &&& after.room_code == window.room_code
                &&& after.message_input == window.message_input
            }
            &&& handed_over && button is SendMessage ==> after.message_input.len() == 0 && (
            ChatView { message_input: window.message_input, ..after }) == window
            &&& window.enabled(button) ==> window.after_click(button, SendOutcome::Sent)
                == window.confirmed(button)
        }),
{
}

/// What a button changes once its command was handed over does not depend on anything
/// else.
pub proof fn law_what_confirming_changes(window: ChatView)
    ensures
        window.confirmed(Button::CreateRoom).status_message == "방 생성 요청을 보냈습니다."@,
        window.confirmed(Button::JoinRoom).status_message == "방 입장 요청을 보냈습니다."@,
        (ChatView {
            status_message: window.status_message,
            ..window.confirmed(Button::CreateRoom)
        }) == window,
        (ChatView {
            status_message: window.status_message,
            ..window.confirmed(Button::JoinRoom)
        }) == window,
        ({
            let left = window.confirmed(Button::LeaveRoom);
            &&& left.current_room is None
            &&& !left.peer_connected
            &&& left.messages.len() == 0
            &&& left.status_message == "방에서 나갔습니다."@
            &&& (ChatView {
                current_room: window.current_room,
                peer_connected: window.peer_connected,
                messages: window.messages,
                status_message: window.status_message,
                ..left
            }) == window
        }),
        window.confirmed(Button::SendMessage).message_input.len() == 0,
        (ChatView {
            message_input: window.message_input,
            ..window.confirmed(Button::SendMessage)
        }) == window,
{
}

/// The window is seen as it is.
pub proof fn law_window_is_seen(app: ChatApp)
    ensures
        app@.server_connected == app.server_connected,
        app@.current_room is Some <==> app.current_room is Some,
        app.current_room matches Some(code) ==> app@.current_room == Some(code@),
        app@.peer_connected == app.peer_connected,
        app@.status_message == app.status_message@,
        app@.room_code == app.room_code@,
        app@.message_input == app.message_input@,
        app@.messages.len() == app.messages@.len(),
        forall|i: int|
            0 <= i < app.messages@.len() ==> #[trigger] app@.messages[i] == app.messages@[i]@,
        app@.wf() <==> (app.peer_connected ==> app.current_room is Some),
{
}

} // verus!
