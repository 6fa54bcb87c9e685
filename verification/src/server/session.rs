//! The connection of one client to the signaling server.

use crate::server::codes::{fresh_code, is_room_code, law_fresh_code, ROOM_CODES};
use crate::server::rooms::{
    after_create, after_join, after_leave, created_line, join_refusal, joined_line, leave_notices,
    outgoing_view, Outgoing, OutgoingView, PeerView, Rooms, RoomsView,
};
use crate::text::{law_trim_keeps_words, same_text, split_words, trim, words};
use vstd::prelude::*;
use vstd::string::*;

verus! {

/// What a client asks for.
#[derive(Debug)]
pub enum Request {
    /// To open a room.
    Create,
    Join(String),
    /// To join, without saying which room.
    JoinWithoutCode,
    Leave,
    /// The peer could not be reached.
    P2pFailed,
    /// Anything else.
    Unknown,
}

/// The view of a `Request`.
pub enum RequestView {
    Create,
    Join(Seq<char>),
    JoinWithoutCode,
    Leave,
    P2pFailed,
    Unknown,
}

impl View for Request {
    type V = RequestView;

    open spec fn view(&self) -> RequestView {
        match *self {
            Request::Create => RequestView::Create,
            Request::Join(room_code) => RequestView::Join(room_code@),
            Request::JoinWithoutCode => RequestView::JoinWithoutCode,
            Request::Leave => RequestView::Leave,
            Request::P2pFailed => RequestView::P2pFailed,
            Request::Unknown => RequestView::Unknown,
        }
    }
}

/// What a line with the words `parts` asks for. Words that are not needed are
/// ignored.
pub open spec fn request(parts: Seq<Seq<char>>) -> RequestView {
    if parts.len() == 0 {
        RequestView::Unknown
    } else if parts[0] == "CREATE"@ {
        RequestView::Create
    } else if parts[0] == "JOIN"@ {
        if parts.len() > 1 {
            RequestView::Join(parts[1])
        } else {
            RequestView::JoinWithoutCode
        }
    } else if parts[0] == "LEAVE"@ {
        RequestView::Leave
    } else if parts[0] == "P2P_FAILED"@ {
        RequestView::P2pFailed
    } else {
        RequestView::Unknown
    }
}

/// Reads a line of a client.
pub fn parse_request(message: &str) -> (r: Request)
    ensures
        r@ == request(words(message@)),
{
    proof {
        law_trim_keeps_words(message@);
    }
    let parts = split_words(trim(message));
    proof {
        let ws = words(message@);
        assert(ws.len() == parts@.len());
        assert(forall|i: int| 0 <= i < ws.len() ==> ws[i] == #[trigger] parts@[i]@);
    }
    if parts.len() == 0 {
        return Request::Unknown;
    }
    if same_text(parts[0].as_str(), "CREATE") {
        Request::Create
    } else if same_text(parts[0].as_str(), "JOIN") {
        if parts.len() > 1 {
            Request::Join(parts[1].clone())
        } else {
            Request::JoinWithoutCode
        }
    } else if same_text(parts[0].as_str(), "LEAVE") {
        Request::Leave
    } else if same_text(parts[0].as_str(), "P2P_FAILED") {
        Request::P2pFailed
    } else {
        Request::Unknown
    }
}

/// The connection of one client.
#[derive(Debug)]
pub struct ClientSession {
    pub client_id: String,
    /// The number of the connection.
    pub sender: u64,
    /// The room in which the client is.
    pub current_room: Option<String>,
}

/// The view of a `ClientSession`.
#[verifier::ext_equal]
pub struct SessionView {
    pub client_id: Seq<char>,
    pub sender: u64,
    pub current_room: Option<Seq<char>>,
}

impl View for ClientSession {
    type V = SessionView;

    open spec fn view(&self) -> SessionView {
        SessionView {
            client_id: self.client_id@,
            sender: self.sender,
            current_room: match self.current_room {
                Some(room_code) => Some(room_code@),
                None => None,
            },
        }
    }
}

/// What a client is told of its own ID when it connects.
pub open spec fn client_id_line(client_id: Seq<char>) -> Seq<char> {
    "CLIENT_ID "@ + client_id + "\n"@
}

/// What comes of a request: the connection and the rooms afterwards, and what is
/// sent.
#[verifier::ext_equal]
pub struct Served {
    pub session: SessionView,
    pub rooms: RoomsView,
    pub sent: Seq<OutgoingView>,
}

impl SessionView {
    /// The text `text` for this client.
    pub open spec fn told(self, text: Seq<char>) -> OutgoingView {
        OutgoingView { to: self.sender, text }
    }

    /// What comes of a request that changes nothing and is answered with `text`.
    pub open spec fn answered(self, rooms: RoomsView, text: Seq<char>) -> Served {
        Served { session: self, rooms, sent: seq![self.told(text)] }
    }

    /// This client is in a room other than `code`.
    pub open spec fn is_elsewhere(self, code: Seq<char>) -> bool {
        self.current_room is Some && self.current_room != Some(code)
    }

    /// What comes of the request `request` of this client when the rooms are `rooms`.
    /// The number `draw` was drawn for the code of the room, if one is opened.
    pub open spec fn served(self, rooms: RoomsView, request: RequestView, draw: u64) -> Served {
        match request {
            RequestView::Create => if self.current_room is Some {
                self.answered(rooms, "ALREADY_IN_ROOM\n"@)
            } else {
                match fresh_code(rooms, draw) {
                    Some(code) => Served {
                        session: SessionView { current_room: Some(code), ..self },
                        rooms: after_create(rooms, code, self.client_id, self.sender),
                        sent: seq![self.told(created_line(code))],
                    },
                    None => self.answered(rooms, "ERROR NO_ROOM_CODE\n"@),
                }
            },
            RequestView::Join(code) => if self.is_elsewhere(code) {
                self.answered(rooms, "ALREADY_IN_ROOM\n"@)
            } else {
                match join_refusal(rooms, code, self.client_id) {
                    Some(error) => self.answered(rooms, error.text() + "\n"@),
                    None => Served {
                        session: SessionView { current_room: Some(code), ..self },
                        rooms: after_join(rooms, code, self.client_id, self.sender),
                        sent: seq![self.told(joined_line(code))],
                    },
                }
            },
            RequestView::JoinWithoutCode => self.answered(rooms, "ERROR INVALID_JOIN\n"@),
            RequestView::Leave => match self.current_room {
                Some(code) => Served {
                    session: SessionView { current_room: None, ..self },
                    rooms: after_leave(rooms, code, self.client_id),
                    sent: leave_notices(rooms, code, self.client_id).push(self.told("LEFT\n"@)),
                },
                None => self.answered(rooms, "NOT_IN_ROOM\n"@),
            },
            RequestView::P2pFailed => self.gone(rooms),
            RequestView::Unknown => self.answered(rooms, "ERROR UNKNOWN_COMMAND\n"@),
        }
    }

    /// What comes of it when this client is gone, or gives up its peer: it is out of
    /// its room, of which the others are told.
    pub open spec fn gone(self, rooms: RoomsView) -> Served {
        match self.current_room {
            Some(code) => Served {
                session: SessionView { current_room: None, ..self },
                rooms: after_leave(rooms, code, self.client_id),
                sent: leave_notices(rooms, code, self.client_id),
            },
            None => Served { session: self, rooms, sent: Seq::empty() },
        }
    }
}

/// The list that holds `out` only.
fn one(out: Outgoing) -> (r: Vec<Outgoing>)
    ensures
        outgoing_view(r@) == seq![out@],
{
    let mut list: Vec<Outgoing> = Vec::new();
    list.push(out);
    proof {
        assert(outgoing_view(list@) =~= seq![out@]);
    }
    list
}

impl ClientSession {
    /// The connection number `sender`, of the client `client_id`, which is in no room
    /// yet.
    pub fn new(client_id: String, sender: u64) -> (r: ClientSession)
        ensures
            r@ == (SessionView { client_id: client_id@, sender, current_room: None }),
    {
        ClientSession { client_id, sender, current_room: None }
    }

    /// The text `text` for this client.
    fn tell(&self, text: &str) -> (r: Vec<Outgoing>)
        ensures
            outgoing_view(r@) == seq![self@.told(text@)],
    {
        one(Outgoing { to: self.sender, text: text.to_string() })
    }

    /// Opens a room for the client, if it is in none. The number `draw` was drawn for
    /// its code.
    fn open_room(&mut self, draw: u64, rooms: &mut Rooms) -> (r: Vec<Outgoing>)
        requires
            old(rooms).wf(),
        ensures
            final(rooms).wf(),
            (Served { session: final(self)@, rooms: final(rooms)@, sent: outgoing_view(r@) })
                == old(self)@.served(old(rooms)@, RequestView::Create, draw),
    {
        if self.current_room.is_some() {
            return self.tell("ALREADY_IN_ROOM\n");
        }
        let room_code = match rooms.fresh_code(draw) {
            Some(room_code) => room_code,
            None => {
                return self.tell("ERROR NO_ROOM_CODE\n");
            },
        };
        match rooms.create_room(room_code.as_str(), self.client_id.as_str(), self.sender) {
            Some(created) => {
                self.current_room = Some(room_code);
                one(created)
            },
            None => Vec::new(),
        }
    }

    /// What the client is told when it connects.
    pub fn greeting(&self) -> (r: Outgoing)
        ensures
            r@ == self@.told(client_id_line(self.client_id@)),
    {
        let text = "CLIENT_ID ".to_string().concat(self.client_id.as_str()).concat("\n");
        Outgoing { to: self.sender, text }
    }

    /// Serves the line `line` of the client. The result is what is sent, in order. The
    /// number `draw` was drawn for the code of the room, if one is opened; any number
    /// will do.
    pub fn handle_line(&mut self, line: &str, draw: u64, rooms: &mut Rooms) -> (r: Vec<Outgoing>)
        requires
            old(rooms).wf(),
        ensures
            final(rooms).wf(),
            (Served { session: final(self)@, rooms: final(rooms)@, sent: outgoing_view(r@) })
                == old(self)@.served(old(rooms)@, request(words(line@)), draw),
            request(words(line@)) is Create && old(self)@.current_room is None && old(rooms)@.len()
                < ROOM_CODES ==> {
                &&& final(self)@.current_room matches Some(code)
                &&& is_room_code(code)
                &&& !old(rooms)@.contains_key(code)
                &&& final(rooms)@ == old(rooms)@.insert(
                    code,
                    seq![
                        PeerView {
                            client_id: old(self)@.client_id,
                            sender: old(self)@.sender,
                            udp_addr: None,
                        },
                    ],
                )
                &&& outgoing_view(r@) == seq![old(self)@.told(created_line(code))]
            },
    {
        proof {
            rooms.law_wf();
            law_fresh_code(rooms@, draw);
        }
        match parse_request(line) {
            Request::Create => self.open_room(draw, rooms),
            Request::Join(room_code) => {
                if let Some(current) = &self.current_room {
                    if !same_text(current.as_str(), room_code.as_str()) {
                        return self.tell("ALREADY_IN_ROOM\n");
                    }
                }
                match rooms.join_room(room_code.as_str(), self.client_id.as_str(), self.sender) {
                    Ok(joined) => {
                        self.current_room = Some(room_code);
                        one(joined)
                    },
                    Err(error) => {
                        let text = error.message().to_string().concat("\n");
                        self.tell(text.as_str())
                    },
                }
            },
            Request::JoinWithoutCode => self.tell("ERROR INVALID_JOIN\n"),
            Request::Leave => {
                match self.current_room.take() {
                    Some(room_code) => {
                        let mut out = rooms.leave_room(
                            room_code.as_str(),
                            self.client_id.as_str(),
                        );
                        let ghost notices = out@;
                        let left = Outgoing { to: self.sender, text: "LEFT\n".to_string() };
                        out.push(left);
                        proof {
                            assert(outgoing_view(out@) =~= outgoing_view(notices).push(left@));
                        }
                        out
                    },
                    None => self.tell("NOT_IN_ROOM\n"),
                }
            },
            Request::P2pFailed => self.disconnect(rooms),
            Request::Unknown => self.tell("ERROR UNKNOWN_COMMAND\n"),
        }
    }

    /// Takes the client out of its room when its connection is gone, or when it gives up
    /// its peer. The result is what the others in the room are told.
    pub fn disconnect(&mut self, rooms: &mut Rooms) -> (r: Vec<Outgoing>)
        requires
            old(rooms).wf(),
        ensures
            final(rooms).wf(),
            (Served { session: final(self)@, rooms: final(rooms)@, sent: outgoing_view(r@) })
                == old(self)@.gone(old(rooms)@),
    {
        match self.current_room.take() {
            Some(room_code) => rooms.leave_room(room_code.as_str(), self.client_id.as_str()),
            None => {
                let out: Vec<Outgoing> = Vec::new();
                proof {
                    assert(outgoing_view(out@) =~= Seq::empty());
                }
                out
            },
        }
    }
}

} // verus!
