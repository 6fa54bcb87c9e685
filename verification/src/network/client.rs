//! The network task of a client: what it makes of the server's lines, of the
//! window's commands and of failed tries to reach the peer.
//!
//! Reading, writing and waiting are left to the caller. Each input is turned into
//! one `ClientAction`; the caller performs it and hands its outcome to
//! `complete_action`, which says what to report to the window and whether to go on.

use crate::network::p2p::{parse_socket_addr, socket_addr, Endpoint, P2pState, PunchRun};
use crate::network::{CommandView, EventView, NetworkCommand, NetworkEvent};
use crate::text::{
    ascii_uppercase, law_trim_keeps_words, same_text, split_words, trim, trimmed, uppercase, words,
};
use tokio::sync::mpsc;
use vstd::prelude::*;
use vstd::string::*;
use vstd::utf8::*;

verus! {

/// A line of the signaling server.
#[derive(Debug)]
pub enum ServerMessage {
    Created(String),
    Joined(String),
    /// The address of the peer, as text.
    Peer(String),
    PeerLeft,
    RoomFull,
    RoomNotFound,
    AlreadyInRoom,
    P2pDisconnected,
    Left,
    /// Anything else.
    Unknown,
}

/// The view of a `ServerMessage`.
pub enum ServerMessageView {
    Created(Seq<char>),
    Joined(Seq<char>),
    Peer(Seq<char>),
    PeerLeft,
    RoomFull,
    RoomNotFound,
    AlreadyInRoom,
    P2pDisconnected,
    Left,
    Unknown,
}

impl View for ServerMessage {
    type V = ServerMessageView;

    open spec fn view(&self) -> ServerMessageView {
        match *self {
            ServerMessage::Created(room_code) => ServerMessageView::Created(room_code@),
            ServerMessage::Joined(room_code) => ServerMessageView::Joined(room_code@),
            ServerMessage::Peer(addr) => ServerMessageView::Peer(addr@),
            ServerMessage::PeerLeft => ServerMessageView::PeerLeft,
            ServerMessage::RoomFull => ServerMessageView::RoomFull,
            ServerMessage::RoomNotFound => ServerMessageView::RoomNotFound,
            ServerMessage::AlreadyInRoom => ServerMessageView::AlreadyInRoom,
            ServerMessage::P2pDisconnected => ServerMessageView::P2pDisconnected,
            ServerMessage::Left => ServerMessageView::Left,
            ServerMessage::Unknown => ServerMessageView::Unknown,
        }
    }
}

/// What a line with the words `parts` says. Words that are not needed are ignored.
pub open spec fn server_message(parts: Seq<Seq<char>>) -> ServerMessageView {
    if parts.len() == 0 {
        ServerMessageView::Unknown
    } else if parts[0] == "CREATED"@ && parts.len() > 1 {
        ServerMessageView::Created(parts[1])
    } else if parts[0] == "JOINED"@ && parts.len() > 1 {
        ServerMessageView::Joined(parts[1])
    } else if parts[0] == "PEER"@ && parts.len() > 1 {
        ServerMessageView::Peer(parts[1])
    } else if parts[0] == "PEER_LEFT"@ {
        ServerMessageView::PeerLeft
    } else if parts[0] == "ROOM_FULL"@ {
        ServerMessageView::RoomFull
    } else if parts[0] == "ROOM_NOT_FOUND"@ {
        ServerMessageView::RoomNotFound
    } else if parts[0] == "ALREADY_IN_ROOM"@ || parts[0] == "ALREADY_JOINED"@ {
        ServerMessageView::AlreadyInRoom
    } else if parts[0] == "P2P_DISCONNECTED"@ {
        ServerMessageView::P2pDisconnected
    } else if parts[0] == "LEFT"@ {
        ServerMessageView::Left
    } else {
        ServerMessageView::Unknown
    }
}

/// Reads a line of the signaling server.
pub fn parse_server_message(message: &str) -> (r: ServerMessage)
    ensures
        r@ == server_message(words(message@)),
{
    let parts = split_words(message);
    proof {
        let ws = words(message@);
        assert(ws.len() == parts@.len());
        assert(forall|i: int| 0 <= i < ws.len() ==> ws[i] == #[trigger] parts@[i]@);
    }
    if parts.len() == 0 {
        return ServerMessage::Unknown;
    }
    let head = parts[0].as_str();
    if same_text(head, "CREATED") {
        if parts.len() > 1 {
            return ServerMessage::Created(parts[1].clone());
        }
    }
    if same_text(head, "JOINED") {
        if parts.len() > 1 {
            return ServerMessage::Joined(parts[1].clone());
        }
    }
    if same_text(head, "PEER") {
        if parts.len() > 1 {
            return ServerMessage::Peer(parts[1].clone());
        }
    }
    if same_text(head, "PEER_LEFT") {
        ServerMessage::PeerLeft
    } else if same_text(head, "ROOM_FULL") {
        ServerMessage::RoomFull
    } else if same_text(head, "ROOM_NOT_FOUND") {
        ServerMessage::RoomNotFound
    } else if same_text(head, "ALREADY_IN_ROOM") || same_text(head, "ALREADY_JOINED") {
        ServerMessage::AlreadyInRoom
    } else if same_text(head, "P2P_DISCONNECTED") {
        ServerMessage::P2pDisconnected
    } else if same_text(head, "LEFT") {
        ServerMessage::Left
    } else {
        ServerMessage::Unknown
    }
}

/// The address of the peer that the line `message` names, if it names a valid one.
pub open spec fn named_peer(message: ServerMessageView) -> Option<Endpoint> {
    match message {
        ServerMessageView::Peer(addr) => socket_addr(addr),
        _ => None,
    }
}

/// What is done about an input.
#[derive(Debug)]
pub enum ClientAction {
    Idle,
    /// Write `line` to the server; if that fails, stop.
    Write { line: String },
    /// Write `line`, which leaves the room, to the server; if that fails, stop.
    WriteLeave { line: String },
    /// Write `line`, which says that the peer cannot be reached, to the server.
    WriteFailure { line: String },
    /// Send `packet`, which registers the UDP address, to `to`; if that fails, stop.
    Register { packet: Vec<u8>, to: Endpoint, event: NetworkEvent },
    /// Send `packet`, which is the chat message `message`, to `to`.
    SendMessage { packet: Vec<u8>, to: Endpoint, message: String },
    /// Start sending PUNCH packets to the peer.
    Punch(PunchRun),
    /// Report to the window.
    Report(NetworkEvent),
}

/// The view of a `ClientAction`.
pub enum ActionView {
    Idle,
    Write { line: Seq<char> },
    WriteLeave { line: Seq<char> },
    WriteFailure { line: Seq<char> },
    Register { packet: Seq<u8>, to: Endpoint, event: EventView },
    SendMessage { packet: Seq<u8>, to: Endpoint, message: Seq<char> },
    Punch(PunchRun),
    Report(EventView),
}

impl View for ClientAction {
    type V = ActionView;

    open spec fn view(&self) -> ActionView {
        match *self {
            ClientAction::Idle => ActionView::Idle,
            ClientAction::Write { line } => ActionView::Write { line: line@ },
            ClientAction::WriteLeave { line } => ActionView::WriteLeave { line: line@ },
            ClientAction::WriteFailure { line } => ActionView::WriteFailure { line: line@ },
            ClientAction::Register { packet, to, event } => ActionView::Register {
                packet: packet@,
                to,
                event: event@,
            },
            ClientAction::SendMessage { packet, to, message } => ActionView::SendMessage {
                packet: packet@,
                to,
                message: message@,
            },
            ClientAction::Punch(run) => ActionView::Punch(run),
            ClientAction::Report(event) => ActionView::Report(event@),
        }
    }
}

/// The packet that registers the UDP address of the client `client_id`, as text.
pub open spec fn registration(client_id: Seq<char>) -> Seq<char> {
    "REGISTER "@ + client_id
}

/// The packet that registers the UDP address of the client `client_id`.
pub fn register_packet(client_id: &str) -> (r: Vec<u8>)
    ensures
        r@ == encode_utf8(registration(client_id@)),
{
    let message = "REGISTER ".to_string().concat(client_id);
    message.as_str().as_bytes_vec()
}

/// What is done about the line `message` of the server. `peer_addr` is the address
/// that the line names, if it is a valid one.
pub open spec fn server_action(
    message: ServerMessageView,
    peer_addr: Option<Endpoint>,
    p2p: P2pState,
    client_id: Seq<char>,
    udp_server_addr: Endpoint,
) -> ActionView {
    let packet = encode_utf8(registration(client_id));
    match message {
        ServerMessageView::Created(room_code) => ActionView::Register {
            packet,
            to: udp_server_addr,
            event: EventView::RoomCreated(room_code),
        },
        ServerMessageView::Joined(room_code) => ActionView::Register {
            packet,
            to: udp_server_addr,
            event: EventView::JoinedRoom(room_code),
        },
        ServerMessageView::Peer(_) => match peer_addr {
            Some(addr) => ActionView::Punch(
                PunchRun {
                    session_id: p2p.after_peer_named(addr).session_id,
                    peer_addr: addr,
                    attempt: 0,
                },
            ),
            None => ActionView::Idle,
        },
        ServerMessageView::PeerLeft => ActionView::Report(EventView::PeerDisconnected),
        ServerMessageView::RoomFull => ActionView::Report(EventView::RoomFull),
        ServerMessageView::RoomNotFound => ActionView::Report(EventView::RoomNotFound),
        ServerMessageView::AlreadyInRoom => ActionView::Report(EventView::AlreadyInRoom),
        ServerMessageView::P2pDisconnected => ActionView::Report(EventView::PeerDisconnected),
        ServerMessageView::Left => ActionView::Idle,
        ServerMessageView::Unknown => ActionView::Idle,
    }
}

/// The state of the link after the line `message` of the server.
pub open spec fn after_server_message(
    message: ServerMessageView,
    peer_addr: Option<Endpoint>,
    p2p: P2pState,
) -> P2pState {
    match message {
        ServerMessageView::Peer(_) => match peer_addr {
            Some(addr) => p2p.after_peer_named(addr),
            None => p2p,
        },
        ServerMessageView::PeerLeft => p2p.after_reset(),
        ServerMessageView::P2pDisconnected => p2p.after_reset(),
        ServerMessageView::Left => p2p.after_reset(),
        _ => p2p,
    }
}

/// The line that asks the server for the room `room_code`.
pub open spec fn join_line(room_code: Seq<char>) -> Seq<char> {
    "JOIN "@ + room_code + "\n"@
}

/// What is done to join the room `room_code`: nothing, if the code is empty.
pub open spec fn join_action(room_code: Seq<char>) -> ActionView {
    if room_code.len() == 0 {
        ActionView::Idle
    } else {
        ActionView::Write { line: join_line(room_code) }
    }
}

/// Decides what is done to join the room `room_code`, a code that is trimmed and in
/// upper case already.
pub fn join_room_action(room_code: &str) -> (r: ClientAction)
    ensures
        r@ == join_action(room_code@),
{
    if room_code.is_empty() {
        return ClientAction::Idle;
    }
    let line = "JOIN ".to_string().concat(room_code).concat("\n");
    ClientAction::Write { line }
}

/// What is done about the window's command `command`.
pub open spec fn command_action(command: CommandView, p2p: P2pState) -> ActionView {
    match command {
        CommandView::CreateRoom => ActionView::Write { line: "CREATE\n"@ },
        CommandView::JoinRoom(room_code) => join_action(uppercase(trimmed(room_code))),
        CommandView::LeaveRoom => ActionView::WriteLeave { line: "LEAVE\n"@ },
        CommandView::SendMessage(message) => if !p2p.connected {
            ActionView::Report(
                EventView::Error("P2P 연결이 없어 메시지를 전송하지 못했습니다."@),
            )
        } else {
            match p2p.peer_addr {
                None => ActionView::Report(
                    EventView::Error("상대 주소가 없어 메시지를 전송하지 못했습니다."@),
                ),
                Some(peer) => ActionView::SendMessage {
                    packet: encode_utf8(message),
                    to: peer,
                    message,
                },
            }
        },
    }
}

/// Decides what is done about a command of the window. A room code in ASCII is
/// trimmed and put into upper case letter by letter.
pub fn handle_command(command: NetworkCommand, p2p: &P2pState) -> (r: ClientAction)
    ensures
        r@ == command_action(command@, *p2p),
        command@ matches CommandView::JoinRoom(room_code) ==> (is_ascii_chars(trimmed(room_code))
            ==> r@ == join_action(ascii_uppercase(trimmed(room_code)))),
{
    match command {
        NetworkCommand::CreateRoom => ClientAction::Write { line: "CREATE\n".to_string() },
        NetworkCommand::JoinRoom(room_code) => {
            let stripped = trim(room_code.as_str());
            let room_code = stripped.to_uppercase();
            join_room_action(room_code.as_str())
        },
        NetworkCommand::LeaveRoom => ClientAction::WriteLeave { line: "LEAVE\n".to_string() },
        NetworkCommand::SendMessage(message) => {
            if !p2p.is_connected() {
                return ClientAction::Report(
                    NetworkEvent::Error(
                        "P2P 연결이 없어 메시지를 전송하지 못했습니다.".to_string(),
                    ),
                );
            }
            match p2p.get_peer() {
                None => ClientAction::Report(
                    NetworkEvent::Error(
                        "상대 주소가 없어 메시지를 전송하지 못했습니다.".to_string(),
                    ),
                ),
                Some(peer) => {
                    let packet = message.as_str().as_bytes_vec();
                    ClientAction::SendMessage { packet, to: peer, message }
                },
            }
        },
    }
}

/// What is reported when a chat message could not be sent, for the reason `error`.
pub open spec fn send_error(error: Seq<char>) -> EventView {
    EventView::Error("P2P 메시지를 전송하지 못했습니다: "@ + error)
}

/// The view of the outcome of an attempt to write or to send: the reason is the text
/// of the error.
pub open spec fn outcome_view(outcome: Result<(), String>) -> Result<(), Seq<char>> {
    match outcome {
        Ok(()) => Ok(()),
        Err(error) => Err(error@),
    }
}

/// The view of what follows an action: something to report or nothing, or an error
/// that ends the network task.
pub open spec fn completed_view(r: Result<Option<NetworkEvent>, String>) -> Result<
    Option<EventView>,
    Seq<char>,
> {
    match r {
        Ok(Some(event)) => Ok(Some(event@)),
        Ok(None) => Ok(None),
        Err(error) => Err(error@),
    }
}

/// What follows `action` when performing it ended with `outcome`.
pub open spec fn completed(action: ActionView, outcome: Result<(), Seq<char>>) -> Result<
    Option<EventView>,
    Seq<char>,
> {
    match action {
        ActionView::Idle => Ok(None),
        ActionView::Punch(_) => Ok(None),
        ActionView::Report(event) => Ok(Some(event)),
        ActionView::WriteFailure { .. } => Ok(Some(EventView::P2pFailed)),
        ActionView::SendMessage { message, .. } => match outcome {
            Ok(()) => Ok(Some(EventView::MessageSent(message))),
            Err(error) => Ok(Some(send_error(error))),
        },
        ActionView::Write { .. } => match outcome {
            Ok(()) => Ok(None),
            Err(error) => Err(error),
        },
        ActionView::WriteLeave { .. } => match outcome {
            Ok(()) => Ok(None),
            Err(error) => Err(error),
        },
        ActionView::Register { event, .. } => match outcome {
            Ok(()) => Ok(Some(event)),
            Err(error) => Err(error),
        },
    }
}

/// The state of the link when performing `action` ended with `outcome`: leaving the
/// room gives up the peer, once the server has been told.
pub open spec fn after_action(
    action: ActionView,
    outcome: Result<(), Seq<char>>,
    p2p: P2pState,
) -> P2pState {
    if action is WriteLeave && outcome is Ok {
        p2p.after_reset()
    } else {
        p2p
    }
}

/// Decides what follows `action` when performing it ended with `outcome`, whose
/// error is the text of the reason. An action that neither writes nor sends ends with
/// `Ok`. The result is what to report to the window, or the error that ends the
/// network task.
pub fn complete_action(
    action: ClientAction,
    outcome: Result<(), String>,
    p2p: &mut P2pState,
) -> (r: Result<Option<NetworkEvent>, String>)
    ensures
        completed_view(r) == completed(action@, outcome_view(outcome)),
        *final(p2p) == after_action(action@, outcome_view(outcome), *old(p2p)),
{
    match action {
        ClientAction::Idle => Ok(None),
        ClientAction::Punch(_) => Ok(None),
        ClientAction::Report(event) => Ok(Some(event)),
        ClientAction::WriteFailure { .. } => Ok(Some(NetworkEvent::P2pFailed)),
        ClientAction::SendMessage { message, .. } => match outcome {
            Ok(()) => Ok(Some(NetworkEvent::MessageSent(message))),
            Err(error) => {
                let text = "P2P 메시지를 전송하지 못했습니다: ".to_string().concat(error.as_str());
                Ok(Some(NetworkEvent::Error(text)))
            },
        },
        ClientAction::Write { .. } => match outcome {
            Ok(()) => Ok(None),
            Err(error) => Err(error),
        },
        ClientAction::WriteLeave { .. } => match outcome {
            Ok(()) => {
                p2p.reset();
                Ok(None)
            },
            Err(error) => Err(error),
        },
        ClientAction::Register { event, .. } => match outcome {
            Ok(()) => Ok(Some(event)),
            Err(error) => Err(error),
        },
    }
}

/// What is done about the report that the PUNCH packets to `peer_addr`, sent in
/// session `session_id`, were not answered.
pub open spec fn punch_failure_action(
    session_id: u64,
    peer_addr: Endpoint,
    p2p: P2pState,
) -> ActionView {
    if p2p.is_opening(session_id, peer_addr) {
        ActionView::WriteFailure { line: "P2P_FAILED\n"@ }
    } else {
        ActionView::Idle
    }
}

/// The state of the link after that report.
pub open spec fn after_punch_failure(
    session_id: u64,
    peer_addr: Endpoint,
    p2p: P2pState,
) -> P2pState {
    if p2p.is_opening(session_id, peer_addr) {
        p2p.after_reset()
    } else {
        p2p
    }
}

/// Decides what is done about the report that the PUNCH packets to `peer_addr`, sent
/// in session `session_id`, were not answered. One on an earlier peer, or on a peer
/// that did answer in the meantime, is ignored.
pub fn handle_punch_failure(session_id: u64, peer_addr: Endpoint, p2p: &mut P2pState) -> (r:
    ClientAction)
    ensures
        r@ == punch_failure_action(session_id, peer_addr, *old(p2p)),
        *final(p2p) == after_punch_failure(session_id, peer_addr, *old(p2p)),
{
    if !p2p.is_current_session(session_id) || !p2p.is_peer(peer_addr) || p2p.is_connected() {
        return ClientAction::Idle;
    }
    p2p.reset();
    ClientAction::WriteFailure { line: "P2P_FAILED\n".to_string() }
}

/// Why the network task of a client could not start.
#[derive(Clone, Copy, Debug, PartialEq, Eq, Structural)]
pub enum StartError {
    /// The server closed the connection before it told the client its ID.
    ServerDisconnected,
    /// The first line of the server did not tell the client its ID.
    InvalidClientId,
    /// The server's name has no IPv4 address.
    NoUdpServer,
}

impl StartError {
    /// The text of the error.
    pub open spec fn text(self) -> Seq<char> {
        match self {
            StartError::ServerDisconnected => "server disconnected"@,
            StartError::InvalidClientId => "invalid CLIENT_ID response"@,
            StartError::NoUdpServer => "UDP server IPv4 address not found"@,
        }
    }

    /// The text of the error.
    pub fn message(&self) -> (r: String)
        ensures
            r@ == self.text(),
    {
        match self {
            StartError::ServerDisconnected => "server disconnected".to_string(),
            StartError::InvalidClientId => "invalid CLIENT_ID response".to_string(),
            StartError::NoUdpServer => "UDP server IPv4 address not found".to_string(),
        }
    }
}

/// The ID of the client that the first line of the server tells, of which `size` bytes
/// were read.
pub open spec fn told_client_id(size: usize, line: Seq<char>) -> Result<Seq<char>, StartError> {
    let parts = words(line);
    if size == 0 {
        Err(StartError::ServerDisconnected)
    } else if parts.len() >= 2 && parts[0] == "CLIENT_ID"@ {
        Ok(parts[1])
    } else {
        Err(StartError::InvalidClientId)
    }
}

/// Reads the ID of the client out of the first line of the server, of which `size`
/// bytes were read.
pub fn read_client_id(size: usize, line: &str) -> (r: Result<String, StartError>)
    ensures
        match r {
            Ok(client_id) => told_client_id(size, line@) == Ok::<Seq<char>, StartError>(client_id@),
            Err(error) => told_client_id(size, line@) == Err::<Seq<char>, StartError>(error),
        },
{
    if size == 0 {
        return Err(StartError::ServerDisconnected);
    }
    let parts = split_words(line);
    proof {
        let ws = words(line@);
        assert(ws.len() == parts@.len());
        assert(forall|i: int| 0 <= i < ws.len() ==> ws[i] == #[trigger] parts@[i]@);
    }
    if parts.len() >= 2 && same_text(parts[0].as_str(), "CLIENT_ID") {
        Ok(parts[1].clone())
    } else {
        Err(StartError::InvalidClientId)
    }
}

/// `addr` is the first IPv4 address of `addrs`.
pub open spec fn is_first_ipv4(addrs: Seq<Endpoint>, addr: Endpoint) -> bool {
    exists|i: int|
        0 <= i < addrs.len() && #[trigger] addrs[i] == addr && addr is V4 && forall|j: int|
            0 <= j < i ==> !(#[trigger] addrs[j] is V4)
}

/// There is an IPv4 address in `addrs`.
pub open spec fn has_ipv4(addrs: Seq<Endpoint>) -> bool {
    exists|i: int| 0 <= i < addrs.len() && #[trigger] addrs[i] is V4
}

/// Picks the address of the server for UDP: the first IPv4 address of `addrs`.
pub fn find_udp_server(addrs: &Vec<Endpoint>) -> (r: Result<Endpoint, StartError>)
    ensures
        match r {
            Ok(addr) => is_first_ipv4(addrs@, addr) && has_ipv4(addrs@),
            Err(error) => error == StartError::NoUdpServer && !has_ipv4(addrs@),
        },
{
    let mut i: usize = 0;
    while i < addrs.len()
        invariant
            i <= addrs@.len(),
            forall|j: int| 0 <= j < i ==> !(#[trigger] addrs@[j] is V4),
        decreases addrs@.len() - i,
    {
        if addrs[i].is_ipv4() {
            return Ok(addrs[i]);
        }
        i = i + 1;
    }
    Err(StartError::NoUdpServer)
}

/// What the network task of a client knows once it has started, and what it reports
/// then.
#[derive(Debug)]
pub struct Started {
    pub client_id: String,
    /// The address of the server for UDP.
    pub udp_server_addr: Endpoint,
    pub event: NetworkEvent,
}

/// Starts the network task of a client: `size` bytes were read of the first line of the
/// server, `line`, and `addrs` are the addresses of the server's name for UDP, or the
/// text of the error with which it was looked up. The result is what is known then, or
/// the text of the error that ends the network task.
pub fn start(size: usize, line: &str, addrs: Result<Vec<Endpoint>, String>) -> (r: Result<
    Started,
    String,
>)
    ensures
        r is Ok <==> told_client_id(size, line@) is Ok && addrs is Ok && has_ipv4(addrs->Ok_0@),
        match r {
            Ok(started) => {
                &&& told_client_id(size, line@) == Ok::<Seq<char>, StartError>(started.client_id@)
                &&& is_first_ipv4(addrs->Ok_0@, started.udp_server_addr)
                &&& started.event@ is ServerConnected
            },
            Err(text) => text@ == match told_client_id(size, line@) {
                Err(error) => error.text(),
                Ok(_) => match addrs {
                    Err(error) => error@,
                    Ok(_) => StartError::NoUdpServer.text(),
                },
            },
        },
{
    let client_id = match read_client_id(size, line) {
        Ok(client_id) => client_id,
        Err(error) => {
            return Err(error.message());
        },
    };
    let addrs = match addrs {
        Ok(addrs) => addrs,
        Err(error) => {
            return Err(error);
        },
    };
    match find_udp_server(&addrs) {
        Ok(udp_server_addr) => Ok(
            Started { client_id, udp_server_addr, event: NetworkEvent::ServerConnected },
        ),
        Err(error) => Err(error.message()),
    }
}

/// An input of the network task, once it has started.
#[derive(Debug)]
pub enum ClientInput {
    Command(NetworkCommand),
    /// The window is gone.
    CommandsClosed,
    /// A line of the server.
    ServerLine(String),
    /// The server is gone.
    ServerClosed,
    /// The PUNCH packets to `failed_peer` were not answered.
    PunchFailed { session_id: u64, failed_peer: Endpoint },
}

/// The view of a `ClientInput`.
pub enum InputView {
    Command(CommandView),
    CommandsClosed,
    ServerLine(Seq<char>),
    ServerClosed,
    PunchFailed { session_id: u64, failed_peer: Endpoint },
}

impl View for ClientInput {
    type V = InputView;

    open spec fn view(&self) -> InputView {
        match *self {
            ClientInput::Command(command) => InputView::Command(command@),
            ClientInput::CommandsClosed => InputView::CommandsClosed,
            ClientInput::ServerLine(line) => InputView::ServerLine(line@),
            ClientInput::ServerClosed => InputView::ServerClosed,
            ClientInput::PunchFailed { session_id, failed_peer } => InputView::PunchFailed {
                session_id,
                failed_peer,
            },
        }
    }
}

/// What is done about `input`, or `None` where the network task ends.
pub open spec fn input_action(
    input: InputView,
    p2p: P2pState,
    client_id: Seq<char>,
    udp_server_addr: Endpoint,
) -> Option<ActionView> {
    match input {
        InputView::Command(command) => Some(command_action(command, p2p)),
        InputView::CommandsClosed => None,
        InputView::ServerLine(line) => {
            let message = server_message(words(line));
            Some(server_action(message, named_peer(message), p2p, client_id, udp_server_addr))
        },
        InputView::ServerClosed => None,
        InputView::PunchFailed { session_id, failed_peer } => Some(
            punch_failure_action(session_id, failed_peer, p2p),
        ),
    }
}

/// The state of the link after `input`, before anything is done about it.
pub open spec fn after_input(input: InputView, p2p: P2pState) -> P2pState {
    match input {
        InputView::ServerLine(line) => {
            let message = server_message(words(line));
            after_server_message(message, named_peer(message), p2p)
        },
        InputView::PunchFailed { session_id, failed_peer } => after_punch_failure(
            session_id,
            failed_peer,
            p2p,
        ),
        _ => p2p,
    }
}

/// The network task of a client.
pub struct NetworkClient {
    pub command_rx: mpsc::Receiver<NetworkCommand>,
    pub event_tx: mpsc::Sender<NetworkEvent>,
}

impl NetworkClient {
    /// A network task that takes its commands from `command_rx` and reports to
    /// `event_tx`.
    pub fn new(
        command_rx: mpsc::Receiver<NetworkCommand>,
        event_tx: mpsc::Sender<NetworkEvent>,
    ) -> (r: Self)
        ensures
            r.command_rx == command_rx,
            r.event_tx == event_tx,
    {
        Self { command_rx, event_tx }
    }

    /// Decides what is done about the line `message` of the server.
    pub fn handle_server_message(
        message: &str,
        p2p: &mut P2pState,
        client_id: &str,
        udp_server_addr: Endpoint,
    ) -> (r: ClientAction)
        ensures
            r@ == server_action(
                server_message(words(message@)),
                named_peer(server_message(words(message@))),
                *old(p2p),
                client_id@,
                udp_server_addr,
            ),
            *final(p2p) == after_server_message(
                server_message(words(message@)),
                named_peer(server_message(words(message@))),
                *old(p2p),
            ),
    {
        let message = parse_server_message(message);
        let peer_addr = match &message {
            ServerMessage::Peer(addr) => parse_socket_addr(addr.as_str()),
            _ => None,
        };
        Self::follow_server_message(message, peer_addr, p2p, client_id, udp_server_addr)
    }

    /// Decides what is done about a line of the server. `peer_addr` is the address that
    /// the line names, if it is a valid one.
    pub fn follow_server_message(
        message: ServerMessage,
        peer_addr: Option<Endpoint>,
        p2p: &mut P2pState,
        client_id: &str,
        udp_server_addr: Endpoint,
    ) -> (r: ClientAction)
        ensures
            r@ == server_action(message@, peer_addr, *old(p2p), client_id@, udp_server_addr),
            *final(p2p) == after_server_message(message@, peer_addr, *old(p2p)),
    {
        match message {
            ServerMessage::Created(room_code) => ClientAction::Register {
                packet: register_packet(client_id),
                to: udp_server_addr,
                event: NetworkEvent::RoomCreated(room_code),
            },
            ServerMessage::Joined(room_code) => ClientAction::Register {
                packet: register_packet(client_id),
                to: udp_server_addr,
                event: NetworkEvent::JoinedRoom(room_code),
            },
            ServerMessage::Peer(_) => match peer_addr {
                Some(addr) => {
                    let session_id: u64 = p2p.name_peer(addr);
                    ClientAction::Punch(PunchRun::new(session_id, addr))
                },
                None => ClientAction::Idle,
            },
            ServerMessage::PeerLeft => {
                p2p.reset();
                ClientAction::Report(NetworkEvent::PeerDisconnected)
            },
            ServerMessage::RoomFull => ClientAction::Report(NetworkEvent::RoomFull),
            ServerMessage::RoomNotFound => ClientAction::Report(NetworkEvent::RoomNotFound),
            ServerMessage::AlreadyInRoom => ClientAction::Report(NetworkEvent::AlreadyInRoom),
            ServerMessage::P2pDisconnected => {
                p2p.reset();
                ClientAction::Report(NetworkEvent::PeerDisconnected)
            },
            ServerMessage::Left => {
                p2p.reset();
                ClientAction::Idle
            },
            ServerMessage::Unknown => ClientAction::Idle,
        }
    }

    /// Decides what is done about `input`. `None` ends the network task.
    pub fn handle_input(
        input: ClientInput,
        p2p: &mut P2pState,
        client_id: &str,
        udp_server_addr: Endpoint,
    ) -> (r: Option<ClientAction>)
        ensures
            match r {
                Some(action) => Some(action@),
                None => None,
            } == input_action(input@, *old(p2p), client_id@, udp_server_addr),
            *final(p2p) == after_input(input@, *old(p2p)),
            input matches ClientInput::Command(NetworkCommand::SendMessage(message)) ==> (old(
                p2p,
            ).connected && old(p2p).peer_addr is Some ==> {
                &&& r matches Some(ClientAction::SendMessage { packet, to, message: sent })
                &&& packet@ == encode_utf8(message@)
                &&& to == old(p2p).peer_addr->0
                &&& sent@ == message@
            }),
    {
        match input {
            ClientInput::Command(command) => Some(handle_command(command, p2p)),
            ClientInput::CommandsClosed => None,
            ClientInput::ServerLine(line) => {
                proof {
                    law_trim_keeps_words(line@);
                }
                Some(
                    Self::handle_server_message(
                        trim(line.as_str()),
                        p2p,
                        client_id,
                        udp_server_addr,
                    ),
                )
            },
            ClientInput::ServerClosed => None,
            ClientInput::PunchFailed { session_id, failed_peer } => Some(
                handle_punch_failure(session_id, failed_peer, p2p),
            ),
        }
    }

    /// What is reported when the network task ends: the error that ended it, if
    /// there was one, and that there is no server any more.
    pub fn closing_events(error: Option<String>) -> (r: Vec<NetworkEvent>)
        ensures
            r@.map_values(|event: NetworkEvent| event@) == match error {
                Some(error) => seq![EventView::Error(error@), EventView::ServerDisconnected],
                None => seq![EventView::ServerDisconnected],
            },
    {
        let mut events: Vec<NetworkEvent> = Vec::new();
        if let Some(error) = error {
            events.push(NetworkEvent::Error(error));
        }
        events.push(NetworkEvent::ServerDisconnected);
        events
    }
}

} // verus!
