//! What the window and the network task tell each other.

pub mod client;
pub mod laws;
pub mod p2p;

use vstd::prelude::*;

verus! {

/// What the window asks of the network task.
#[derive(Debug)]
pub enum NetworkCommand {
    CreateRoom,
    JoinRoom(String),
    LeaveRoom,
    SendMessage(String),
}

/// The view of a `NetworkCommand`.
pub enum CommandView {
    CreateRoom,
    JoinRoom(Seq<char>),
    LeaveRoom,
    SendMessage(Seq<char>),
}

impl View for NetworkCommand {
    type V = CommandView;

    open spec fn view(&self) -> CommandView {
        match *self {
            NetworkCommand::CreateRoom => CommandView::CreateRoom,
            NetworkCommand::JoinRoom(room_code) => CommandView::JoinRoom(room_code@),
            NetworkCommand::LeaveRoom => CommandView::LeaveRoom,
            NetworkCommand::SendMessage(message) => CommandView::SendMessage(message@),
        }
    }
}

/// What the network task reports to the window.
#[derive(Debug)]
pub enum NetworkEvent {
    ServerConnected,
    ServerDisconnected,
    RoomCreated(String),
    JoinedRoom(String),
    RoomFull,
    RoomNotFound,
    AlreadyInRoom,
    PeerConnected,
    PeerDisconnected,
    P2pFailed,
    MessageSent(String),
    MessageReceived(String),
    Error(String),
}

/// The view of a `NetworkEvent`.
pub enum EventView {
    ServerConnected,
    ServerDisconnected,
    RoomCreated(Seq<char>),
    JoinedRoom(Seq<char>),
    RoomFull,
    RoomNotFound,
    AlreadyInRoom,
    PeerConnected,
    PeerDisconnected,
    P2pFailed,
    MessageSent(Seq<char>),
    MessageReceived(Seq<char>),
    Error(Seq<char>),
}

impl View for NetworkEvent {
    type V = EventView;

    open spec fn view(&self) -> EventView {
        match *self {
            NetworkEvent::ServerConnected => EventView::ServerConnected,
            NetworkEvent::ServerDisconnected => EventView::ServerDisconnected,
            NetworkEvent::RoomCreated(room_code) => EventView::RoomCreated(room_code@),
            NetworkEvent::JoinedRoom(room_code) => EventView::JoinedRoom(room_code@),
            NetworkEvent::RoomFull => EventView::RoomFull,
            NetworkEvent::RoomNotFound => EventView::RoomNotFound,
            NetworkEvent::AlreadyInRoom => EventView::AlreadyInRoom,
            NetworkEvent::PeerConnected => EventView::PeerConnected,
            NetworkEvent::PeerDisconnected => EventView::PeerDisconnected,
            NetworkEvent::P2pFailed => EventView::P2pFailed,
            NetworkEvent::MessageSent(message) => EventView::MessageSent(message@),
            NetworkEvent::MessageReceived(message) => EventView::MessageReceived(message@),
            NetworkEvent::Error(error) => EventView::Error(error@),
        }
    }
}

} // verus!
