//! The link between two peers: who the peer is, whether the link stands, how it is
//! opened through a NAT, and what arrives on it.

use crate::network::{EventView, NetworkEvent};
use crate::text::{from_utf8_lossy, same_text, utf8_lossy};
use vstd::prelude::*;
use vstd::string::*;
use vstd::utf8::*;

verus! {

/// A UDP address: an IP address, read as one big-endian number, and a port. Of an
/// IPv6 address the flow information and the scope count too.
#[derive(Clone, Copy, Debug, PartialEq, Eq, Structural)]
pub enum Endpoint {
    V4 { ip: u32, port: u16 },
    V6 { ipv6: u128, port: u16, flowinfo: u32, scope_id: u32 },
}

impl Endpoint {
    pub fn is_ipv4(&self) -> (r: bool)
        ensures
            r == (*self is V4),
    {
        match self {
            Endpoint::V4 { .. } => true,
            Endpoint::V6 { .. } => false,
        }
    }
}

/// The address of which `text` is the text, if it is the text of one.
pub uninterp spec fn socket_addr(text: Seq<char>) -> Option<Endpoint>;

/// `str::parse` for `core::net::SocketAddr`: the result depends on the text alone, and
/// is named `socket_addr`. Which texts are those of addresses is not stated.
#[verifier::external_body]
pub(crate) fn parse_socket_addr(text: &str) -> (r: Option<Endpoint>)
    ensures
        r == socket_addr(text@),
{
    match text.parse::<core::net::SocketAddr>() {
        Ok(core::net::SocketAddr::V4(addr)) => Some(
            Endpoint::V4 { ip: u32::from(*addr.ip()), port: addr.port() },
        ),
        Ok(core::net::SocketAddr::V6(addr)) => Some(
            Endpoint::V6 {
                ipv6: u128::from(*addr.ip()),
                port: addr.port(),
                flowinfo: addr.flowinfo(),
                scope_id: addr.scope_id(),
            },
        ),
        Err(_) => None,
    }
}

/// The number of PUNCH packets that are sent before a peer counts as unreachable.
pub const PUNCH_ATTEMPTS: u32 = 10;

/// The pause after each PUNCH packet, in milliseconds.
pub const PUNCH_INTERVAL_MS: u64 = 250;

/// What is known of the peer.
///
/// Each peer that the signaling server names, and each loss of one, starts a new
/// session; its number tells a report on an earlier peer from one on the present
/// peer.
#[derive(Clone, Copy, Debug, PartialEq, Eq, Structural)]
pub struct P2pState {
    pub peer_addr: Option<Endpoint>,
    pub connected: bool,
    pub session_id: u64,
}

/// The number of the session after `session_id`. Numbers start over at zero when
/// they run out.
pub open spec fn next_session(session_id: u64) -> u64 {
    if session_id == u64::MAX {
        0
    } else {
        (session_id + 1) as u64
    }
}

impl P2pState {
    /// A link can only stand to a known peer.
    pub open spec fn wf(self) -> bool {
        self.connected ==> self.peer_addr is Some
    }

    /// The state after the peer was lost or given up.
    pub open spec fn after_reset(self) -> P2pState {
        P2pState { peer_addr: None, connected: false, session_id: next_session(self.session_id) }
    }

    /// The state after the server has named `addr` as the peer.
    pub open spec fn after_peer_named(self, addr: Endpoint) -> P2pState {
        P2pState {
            peer_addr: Some(addr),
            connected: false,
            session_id: next_session(self.session_id),
        }
    }

    /// The link to `addr` is still to be opened, in session `session_id`.
    pub open spec fn is_opening(self, session_id: u64, addr: Endpoint) -> bool {
        self.session_id == session_id && self.peer_addr == Some(addr) && !self.connected
    }

    /// The state before the server has named any peer.
    pub fn new() -> (r: P2pState)
        ensures
            r == (P2pState { peer_addr: None, connected: false, session_id: 0 }),
            r.wf(),
    {
        P2pState { peer_addr: None, connected: false, session_id: 0 }
    }

    pub fn set_peer(&mut self, addr: Option<Endpoint>)
        ensures
            *final(self) == (P2pState { peer_addr: addr, ..*old(self) }),
    {
        self.peer_addr = addr;
    }

    pub fn get_peer(&self) -> (r: Option<Endpoint>)
        ensures
            r == self.peer_addr,
    {
        self.peer_addr
    }

    /// Whether the peer is `addr`.
    pub fn is_peer(&self, addr: Endpoint) -> (r: bool)
        ensures
            r == (self.peer_addr == Some(addr)),
    {
        match self.get_peer() {
            Some(peer) => peer == addr,
            None => false,
        }
    }

    pub fn is_connected(&self) -> (r: bool)
        ensures
            r == self.connected,
    {
        self.connected
    }

    pub fn set_connected(&mut self, value: bool)
        ensures
            *final(self) == (P2pState { connected: value, ..*old(self) }),
    {
        self.connected = value;
    }

    /// Starts a new session and returns its number.
    pub fn start_session(&mut self) -> (r: u64)
        ensures
            r == next_session(old(self).session_id),
            *final(self) == (P2pState { session_id: r, ..*old(self) }),
    {
        self.session_id = self.session_id.wrapping_add(1);
        self.session_id
    }

    pub fn is_current_session(&self, session_id: u64) -> (r: bool)
        ensures
            r == (self.session_id == session_id),
    {
        self.session_id == session_id
    }

    /// Forgets the peer. What was under way for it belongs to a past session then.
    pub fn reset(&mut self)
        ensures
            *final(self) == old(self).after_reset(),
    {
        self.start_session();
        self.set_peer(None);
        self.set_connected(false);
    }

    /// Takes up `addr` as the peer, to which no link stands yet, and returns the
    /// number of the session that this starts.
    pub fn name_peer(&mut self, addr: Endpoint) -> (r: u64)
        ensures
            *final(self) == old(self).after_peer_named(addr),
            r == final(self).session_id,
    {
        let session_id: u64 = self.start_session();
        self.set_peer(Some(addr));
        self.set_connected(false);
        session_id
    }

    /// Notes that `addr` has answered. The link stands from then on if `addr` is the
    /// peer, it did not stand before, and `can_report` says that the window can
    /// still be told; the result says whether this is so.
    pub fn mark_connected_if_peer(&mut self, addr: Endpoint, can_report: bool) -> (r: bool)
        ensures
            r == (can_report && old(self).peer_addr == Some(addr) && !old(self).connected),
            *final(self) == if r {
                P2pState { connected: true, ..*old(self) }
            } else {
                *old(self)
            },
    {
        if !can_report {
            return false;
        }
        if !self.is_peer(addr) || self.is_connected() {
            return false;
        }
        self.set_connected(true);
        true
    }
}

/// The series of PUNCH packets that opens the link to one peer.
#[derive(Clone, Copy, Debug, PartialEq, Eq, Structural)]
pub struct PunchRun {
    pub session_id: u64,
    pub peer_addr: Endpoint,
    /// How many packets have been sent.
    pub attempt: u32,
}

/// What a series of PUNCH packets does next.
#[derive(Clone, Copy, Debug, PartialEq, Eq, Structural)]
pub enum PunchStep {
    /// Send the PUNCH packet of this number, and go on after a pause.
    Send { attempt: u32 },
    /// Stop: the link stands.
    AlreadyConnected,
    /// Stop: the peer is another one by now, or none.
    PeerChanged,
    /// Stop: all packets were sent, and report that the peer did not answer.
    Failed,
    /// Stop: all packets were sent, and there is nothing to report.
    Finished,
}

impl PunchRun {
    /// No more packets were sent than are allowed.
    pub open spec fn wf(self) -> bool {
        self.attempt <= PUNCH_ATTEMPTS
    }

    /// What the series does next when the state of the link is `p2p`.
    pub open spec fn next_step(self, p2p: P2pState) -> PunchStep {
        if self.attempt < PUNCH_ATTEMPTS {
            if p2p.connected {
                PunchStep::AlreadyConnected
            } else if p2p.is_opening(self.session_id, self.peer_addr) {
                PunchStep::Send { attempt: (self.attempt + 1) as u32 }
            } else {
                PunchStep::PeerChanged
            }
        } else if p2p.is_opening(self.session_id, self.peer_addr) {
            PunchStep::Failed
        } else {
            PunchStep::Finished
        }
    }

    /// The series after that step.
    pub open spec fn after_step(self, p2p: P2pState) -> PunchRun {
        match self.next_step(p2p) {
            PunchStep::Send { attempt } => PunchRun { attempt, ..self },
            _ => self,
        }
    }

    /// The series for the peer `peer_addr`, of which nothing was sent yet.
    pub fn new(session_id: u64, peer_addr: Endpoint) -> (r: PunchRun)
        ensures
            r == (PunchRun { session_id, peer_addr, attempt: 0 }),
            r.wf(),
    {
        PunchRun { session_id, peer_addr, attempt: 0 }
    }

    /// Decides what the series does next.
    pub fn step(&mut self, p2p: &P2pState) -> (r: PunchStep)
        ensures
            r == old(self).next_step(*p2p),
            *final(self) == old(self).after_step(*p2p),
            old(self).wf() ==> final(self).wf(),
    {
        let opening: bool = p2p.is_current_session(self.session_id) && p2p.is_peer(self.peer_addr)
            && !p2p.is_connected();
        if self.attempt < PUNCH_ATTEMPTS {
            if p2p.is_connected() {
                return PunchStep::AlreadyConnected;
            }
            if !opening {
                return PunchStep::PeerChanged;
            }
            self.attempt = self.attempt + 1;
            return PunchStep::Send { attempt: self.attempt };
        }
        if opening {
            PunchStep::Failed
        } else {
            PunchStep::Finished
        }
    }
}

/// What a packet from the peer's address can be.
#[derive(Debug)]
pub enum Datagram {
    /// The peer tries to open the link.
    Punch,
    /// The peer answers such a try.
    PunchAck,
    /// A chat message.
    Chat(String),
}

/// The view of a `Datagram`.
pub enum DatagramView {
    Punch,
    PunchAck,
    Chat(Seq<char>),
}

impl View for Datagram {
    type V = DatagramView;

    open spec fn view(&self) -> DatagramView {
        match *self {
            Datagram::Punch => DatagramView::Punch,
            Datagram::PunchAck => DatagramView::PunchAck,
            Datagram::Chat(message) => DatagramView::Chat(message@),
        }
    }
}

/// What a packet with the text `text` is.
pub open spec fn classified(text: Seq<char>) -> DatagramView {
    if text == "PUNCH"@ {
        DatagramView::Punch
    } else if text == "PUNCH_ACK"@ {
        DatagramView::PunchAck
    } else {
        DatagramView::Chat(text)
    }
}

/// The packet that tries to open the link.
pub fn punch_packet() -> (r: Vec<u8>)
    ensures
        r@ == encode_utf8("PUNCH"@),
{
    "PUNCH".as_bytes_vec()
}

/// Tells the control packets from chat messages, by the text of the packet.
pub fn classify_text(text: String) -> (r: Datagram)
    ensures
        r@ == classified(text@),
{
    if same_text(text.as_str(), "PUNCH") {
        Datagram::Punch
    } else if same_text(text.as_str(), "PUNCH_ACK") {
        Datagram::PunchAck
    } else {
        Datagram::Chat(text)
    }
}

/// Tells what a packet is, by its bytes. A packet that encodes a text is taken for
/// that text.
pub fn classify_datagram(bytes: &[u8]) -> (r: Datagram)
    ensures
        r@ == classified(utf8_lossy(bytes@)),
        valid_utf8(bytes@) ==> r@ == classified(decode_utf8(bytes@)),
        forall|text: Seq<char>|
            bytes@ == #[trigger] encode_utf8(text) ==> r@ == classified(text),
{
    let text = from_utf8_lossy(bytes);
    proof {
        assert forall|t: Seq<char>| bytes@ == #[trigger] encode_utf8(t) implies classified(t)
            == classified(text@) by {
            encode_utf8_valid_utf8(t);
            encode_utf8_decode_utf8(t);
        }
    }
    classify_text(text)
}

/// What is done about a packet.
#[derive(Debug)]
pub enum DatagramAction {
    Ignore,
    /// Send `packet` to `to`. Nothing is done if that fails.
    Answer { packet: Vec<u8>, to: Endpoint },
    Report(NetworkEvent),
}

/// The view of a `DatagramAction`.
pub enum DatagramActionView {
    Ignore,
    Answer { packet: Seq<u8>, to: Endpoint },
    Report(EventView),
}

impl View for DatagramAction {
    type V = DatagramActionView;

    open spec fn view(&self) -> DatagramActionView {
        match *self {
            DatagramAction::Ignore => DatagramActionView::Ignore,
            DatagramAction::Answer { packet, to } => DatagramActionView::Answer {
                packet: packet@,
                to,
            },
            DatagramAction::Report(event) => DatagramActionView::Report(event@),
        }
    }
}

impl P2pState {
    /// What is done about the packet `datagram` from `from`.
    pub open spec fn datagram_action(
        self,
        datagram: DatagramView,
        from: Endpoint,
        can_report: bool,
    ) -> DatagramActionView {
        if self.peer_addr != Some(from) {
            DatagramActionView::Ignore
        } else {
            match datagram {
                DatagramView::Punch => DatagramActionView::Answer {
                    packet: encode_utf8("PUNCH_ACK"@),
                    to: from,
                },
                DatagramView::PunchAck => if can_report && !self.connected {
                    DatagramActionView::Report(EventView::PeerConnected)
                } else {
                    DatagramActionView::Ignore
                },
                DatagramView::Chat(message) => if self.connected {
                    DatagramActionView::Report(EventView::MessageReceived(message))
                } else {
                    DatagramActionView::Ignore
                },
            }
        }
    }

    /// The state after the packet `datagram` from `from`.
    pub open spec fn after_datagram(
        self,
        datagram: DatagramView,
        from: Endpoint,
        can_report: bool,
    ) -> P2pState {
        if datagram is PunchAck && self.peer_addr == Some(from) && can_report {
            P2pState { connected: true, ..self }
        } else {
            self
        }
    }

    /// Takes in the packet `datagram` from `from`. `can_report` says whether the
    /// window can still be told that the link stands; it counts only for the answer
    /// to a try to open the link.
    pub fn handle_datagram(
        &mut self,
        datagram: Datagram,
        from: Endpoint,
        can_report: bool,
    ) -> (r: DatagramAction)
        ensures
            r@ == old(self).datagram_action(datagram@, from, can_report),
            *final(self) == old(self).after_datagram(datagram@, from, can_report),
    {
        match datagram {
            Datagram::Punch => {
                if !self.is_peer(from) {
                    return DatagramAction::Ignore;
                }
                DatagramAction::Answer { packet: "PUNCH_ACK".as_bytes_vec(), to: from }
            },
            Datagram::PunchAck => {
                if self.mark_connected_if_peer(from, can_report) {
                    DatagramAction::Report(NetworkEvent::PeerConnected)
                } else {
                    DatagramAction::Ignore
                }
            },
            Datagram::Chat(message) => {
                if !self.is_connected() || !self.is_peer(from) {
                    return DatagramAction::Ignore;
                }
                DatagramAction::Report(NetworkEvent::MessageReceived(message))
            },
        }
    }
}

} // verus!
