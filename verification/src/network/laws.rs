//! What holds of the network task of a client as a whole.

use crate::network::client::{
    after_action, after_input, after_punch_failure, after_server_message, command_action, completed,
    completed_view, has_ipv4, input_action, is_first_ipv4, join_action, join_line, named_peer,
    outcome_view, punch_failure_action, registration, send_error, server_action, server_message,
    told_client_id, ActionView, ClientAction, ClientInput, InputView, ServerMessage,
    ServerMessageView, StartError,
};
use crate::network::p2p::{
    classified, next_session, socket_addr, Datagram, DatagramAction, DatagramActionView,
    DatagramView, Endpoint, P2pState, PunchRun, PunchStep, PUNCH_ATTEMPTS, PUNCH_INTERVAL_MS,
};
use crate::network::{CommandView, EventView, NetworkCommand, NetworkEvent};
use crate::protocol::lemma_heads_differ;
use crate::text::{trimmed, uppercase, words};
use vstd::prelude::*;
use vstd::string::*;
use vstd::utf8::*;

verus! {

/// Whatever comes in and whatever is done about it, a link stands only to a known
/// peer.
pub proof fn law_link_needs_a_peer(
    p2p: P2pState,
    input: InputView,
    action: ActionView,
    outcome: Result<(), Seq<char>>,
    datagram: DatagramView,
    from: Endpoint,
    can_report: bool,
)
    requires
        p2p.wf(),
    ensures
        after_input(input, p2p).wf(),
        after_action(action, outcome, p2p).wf(),
        p2p.after_datagram(datagram, from, can_report).wf(),
{
}

/// A packet that does not come from the peer changes nothing and is not answered.
pub proof fn law_strangers_are_ignored(
    p2p: P2pState,
    datagram: DatagramView,
    from: Endpoint,
    can_report: bool,
)
    requires
        p2p.peer_addr != Some(from),
    ensures
        p2p.datagram_action(datagram, from, can_report) is Ignore,
        p2p.after_datagram(datagram, from, can_report) == p2p,
{
}

/// The window is told that the link stands by the first answer of the peer and by no
/// later one.
pub proof fn law_link_is_reported_once(p2p: P2pState, from: Endpoint, later: Endpoint)
    requires
        p2p.peer_addr == Some(from),
        !p2p.connected,
    ensures
        p2p.datagram_action(DatagramView::PunchAck, from, true) == DatagramActionView::Report(
            EventView::PeerConnected,
        ),
        p2p.after_datagram(DatagramView::PunchAck, from, true).connected,
        p2p.after_datagram(DatagramView::PunchAck, from, true).datagram_action(
            DatagramView::PunchAck,
            later,
            true,
        ) is Ignore,
{
}

/// A packet, where it came from, and whether the window could still be told.
pub struct Arrival {
    pub datagram: DatagramView,
    pub from: Endpoint,
    pub can_report: bool,
}

/// How often the packets `arrivals`, one after the other, make the window be told that
/// the link stands.
pub open spec fn link_reports(p2p: P2pState, arrivals: Seq<Arrival>) -> nat
    decreases arrivals.len(),
{
    if arrivals.len() == 0 {
        0
    } else {
        let one = arrivals[0];
        let after = p2p.after_datagram(one.datagram, one.from, one.can_report);
        let rest = link_reports(after, arrivals.drop_first());
        if p2p.datagram_action(one.datagram, one.from, one.can_report)
            == DatagramActionView::Report(EventView::PeerConnected) {
            rest + 1
        } else {
            rest
        }
    }
}

/// Whatever packets arrive during a session, the window is told at most once that the
/// link stands, and not at all where it stood before.
pub proof fn law_at_most_one_link_report(p2p: P2pState, arrivals: Seq<Arrival>)
    ensures
        link_reports(p2p, arrivals) <= if p2p.connected {
            0nat
        } else {
            1nat
        },
    decreases arrivals.len(),
{
    if arrivals.len() > 0 {
        let one = arrivals[0];
        let after = p2p.after_datagram(one.datagram, one.from, one.can_report);
        law_at_most_one_link_report(after, arrivals.drop_first());
    }
}

/// A link that stands goes on standing whatever packets come in, until the session
/// ends.
pub proof fn law_packets_keep_the_link(
    p2p: P2pState,
    datagram: DatagramView,
    from: Endpoint,
    can_report: bool,
)
    ensures
        p2p.connected ==> p2p.after_datagram(datagram, from, can_report).connected,
        p2p.after_datagram(datagram, from, can_report).peer_addr == p2p.peer_addr,
        p2p.after_datagram(datagram, from, can_report).session_id == p2p.session_id,
{
}

/// Two clients that know each other's addresses open the link: a PUNCH packet of one
/// is answered by the other, and the answer makes the link stand for the first.
pub proof fn law_handshake(a: P2pState, b: P2pState, addr_a: Endpoint, addr_b: Endpoint)
    requires
        a.peer_addr == Some(addr_b),
        b.peer_addr == Some(addr_a),
        !a.connected,
    ensures
        b.datagram_action(classified("PUNCH"@), addr_a, true) == (DatagramActionView::Answer {
            packet: encode_utf8("PUNCH_ACK"@),
            to: addr_a,
        }),
        a.datagram_action(classified("PUNCH_ACK"@), addr_b, true) == DatagramActionView::Report(
            EventView::PeerConnected,
        ),
        a.after_datagram(classified("PUNCH_ACK"@), addr_b, true) == (P2pState {
            connected: true,
            ..a
        }),
{
    reveal_strlit("PUNCH");
    reveal_strlit("PUNCH_ACK");
    assert("PUNCH"@.len() != "PUNCH_ACK"@.len());
}

/// What one peer sends is what the other shows: over a link that stands on both
/// sides, a chat message goes out as a packet that encodes it, and a packet with that
/// text is reported as that message. A message that reads like a control packet is
/// not shown.
pub proof fn law_messages_arrive(
    sender: P2pState,
    receiver: P2pState,
    addr_of_sender: Endpoint,
    addr_of_receiver: Endpoint,
    message: Seq<char>,
    can_report: bool,
)
    requires
        sender.connected && sender.peer_addr == Some(addr_of_receiver),
        receiver.connected && receiver.peer_addr == Some(addr_of_sender),
        message != "PUNCH"@,
        message != "PUNCH_ACK"@,
    ensures
        command_action(CommandView::SendMessage(message), sender) == (ActionView::SendMessage {
            packet: encode_utf8(message),
            to: addr_of_receiver,
            message,
        }),
        decode_utf8(encode_utf8(message)) == message,
        receiver.datagram_action(
            classified(decode_utf8(encode_utf8(message))),
            addr_of_sender,
            can_report,
        ) == DatagramActionView::Report(EventView::MessageReceived(message)),
        receiver.after_datagram(
            classified(decode_utf8(encode_utf8(message))),
            addr_of_sender,
            can_report,
        ) == receiver,
{
    encode_utf8_decode_utf8(message);
}

/// The sender of a chat message is told that it went out, or that it did not, and
/// nothing else comes of it: the network task goes on and the link stays as it was.
/// Without a link nothing is sent.
pub proof fn law_sent_messages_are_confirmed(
    p2p: P2pState,
    message: Seq<char>,
    outcome: Result<(), Seq<char>>,
)
    ensures
        ({
            let action = command_action(CommandView::SendMessage(message), p2p);
            &&& after_action(action, outcome, p2p) == p2p
            &&& p2p.connected && p2p.peer_addr is Some ==> completed(action, outcome) == Ok::<
                Option<EventView>,
                Seq<char>,
            >(
                Some(
                    match outcome {
                        Ok(()) => EventView::MessageSent(message),
                        Err(error) => send_error(error),
                    },
                ),
            )
            &&& !p2p.connected ==> action is Report && action->Report_0 is Error
        }),
{
}

/// A session ends when the server names a peer, when the peer is lost and when the
/// room is left, and what was under way for it comes to nothing: a series of PUNCH
/// packets of that session stops without a report, and a report that it failed is
/// ignored.
pub proof fn law_past_sessions_come_to_nothing(p2p: P2pState, run: PunchRun, addr: Endpoint)
    requires
        run.session_id == p2p.session_id,
    ensures
        next_session(p2p.session_id) != p2p.session_id,
        run.next_step(p2p.after_reset()) == if run.attempt < PUNCH_ATTEMPTS {
            PunchStep::PeerChanged
        } else {
            PunchStep::Finished
        },
        run.next_step(p2p.after_peer_named(addr)) == if run.attempt < PUNCH_ATTEMPTS {
            PunchStep::PeerChanged
        } else {
            PunchStep::Finished
        },
        punch_failure_action(run.session_id, run.peer_addr, p2p.after_reset()) is Idle,
        after_punch_failure(run.session_id, run.peer_addr, p2p.after_reset()) == p2p.after_reset(),
        punch_failure_action(run.session_id, run.peer_addr, p2p.after_peer_named(addr)) is Idle,
        after_punch_failure(run.session_id, run.peer_addr, p2p.after_peer_named(addr))
            == p2p.after_peer_named(addr),
{
}

/// The lines of the server that end a session, and the room that is left, give up the
/// peer.
pub proof fn law_lost_peers_are_given_up(
    p2p: P2pState,
    message: ServerMessageView,
    peer_addr: Option<Endpoint>,
    leave: ActionView,
)
    requires
        message is PeerLeft || message is P2pDisconnected || message is Left,
        leave == command_action(CommandView::LeaveRoom, p2p),
    ensures
        after_server_message(message, peer_addr, p2p) == p2p.after_reset(),
        after_action(leave, Ok(()), p2p) == p2p.after_reset(),
        p2p.after_reset().peer_addr is None,
        !p2p.after_reset().connected,
{
}

/// How many PUNCH packets a series sends while the link goes through `states`.
pub open spec fn packets_sent(run: PunchRun, states: Seq<P2pState>) -> nat
    decreases states.len(),
{
    if states.len() == 0 {
        0
    } else {
        let rest = packets_sent(run.after_step(states[0]), states.drop_first());
        if run.next_step(states[0]) is Send {
            rest + 1
        } else {
            rest
        }
    }
}

/// Whatever the link goes through, a series sends no more than ten PUNCH packets.
pub proof fn law_punch_packets_are_limited(run: PunchRun, states: Seq<P2pState>)
    requires
        run.wf(),
    ensures
        run.attempt + packets_sent(run, states) <= 10,
    decreases states.len(),
{
    if states.len() > 0 {
        law_punch_packets_are_limited(run.after_step(states[0]), states.drop_first());
    }
}

/// The series after `n` steps during which the link is in the state `p2p`.
pub open spec fn after_steps(run: PunchRun, p2p: P2pState, n: nat) -> PunchRun
    decreases n,
{
    if n == 0 {
        run
    } else {
        after_steps(run, p2p, (n - 1) as nat).after_step(p2p)
    }
}

/// A peer that never answers gets the PUNCH packets one to ten, and then the series
/// reports that it failed; the network task takes that report up by giving up the
/// peer and telling the server and the window.
pub proof fn law_silent_peers_are_given_up(p2p: P2pState, addr: Endpoint, n: nat)
    requires
        p2p.is_opening(p2p.session_id, addr),
        n <= 10,
    ensures
        ({
            let fresh = PunchRun { session_id: p2p.session_id, peer_addr: addr, attempt: 0 };
            let run = after_steps(fresh, p2p, n);
            let action = punch_failure_action(p2p.session_id, addr, p2p);
            &&& run == PunchRun { attempt: n as u32, ..fresh }
            &&& run.next_step(p2p) == if n < 10 {
                PunchStep::Send { attempt: (n + 1) as u32 }
            } else {
                PunchStep::Failed
            }
            &&& action == ActionView::WriteFailure { line: "P2P_FAILED\n"@ }
            &&& after_punch_failure(p2p.session_id, addr, p2p) == p2p.after_reset()
            &&& forall|outcome: Result<(), Seq<char>>|
                #![trigger completed(action, outcome)]
                completed(action, outcome) == Ok::<Option<EventView>, Seq<char>>(
                    Some(EventView::P2pFailed),
                )
        }),
    decreases n,
{
    if n > 0 {
        law_silent_peers_are_given_up(p2p, addr, (n - 1) as nat);
    }
}

/// Once the link stands, a series sends no more packets.
pub proof fn law_no_packets_once_connected(run: PunchRun, p2p: P2pState)
    requires
        p2p.connected,
    ensures
        !(run.next_step(p2p) is Send),
        !(run.next_step(p2p) is Failed),
        run.after_step(p2p) == run,
{
}

/// The network task goes on until the window or the server is gone; nothing else ends
/// it but a failure to write to the server or to register.
pub proof fn law_what_ends_the_task(
    input: InputView,
    p2p: P2pState,
    client_id: Seq<char>,
    udp_server_addr: Endpoint,
    action: ActionView,
    outcome: Result<(), Seq<char>>,
)
    ensures
        input_action(input, p2p, client_id, udp_server_addr) is None <==> input is CommandsClosed
            || input is ServerClosed,
        completed(action, outcome) is Err <==> outcome is Err && (action is Write
            || action is WriteLeave || action is Register),
{
}

/// Once the server has named a peer, PUNCH packets go to that peer, from the first
/// one on.
pub proof fn law_named_peers_are_punched(
    p2p: P2pState,
    text: Seq<char>,
    addr: Endpoint,
    client_id: Seq<char>,
    udp_server_addr: Endpoint,
)
    ensures
        ({
            let message = ServerMessageView::Peer(text);
            let after = after_server_message(message, Some(addr), p2p);
            let action = server_action(message, Some(addr), p2p, client_id, udp_server_addr);
            &&& action is Punch
            &&& after.is_opening(action->Punch_0.session_id, addr)
            &&& action->Punch_0.peer_addr == addr
            &&& action->Punch_0.next_step(after) == PunchStep::Send { attempt: 1 }
        }),
{
}

/// What a number of a session is followed by: the next number, and zero after the last.
pub proof fn law_sessions_are_counted(session_id: u64)
    ensures
        session_id < u64::MAX ==> next_session(session_id) == session_id + 1,
        next_session(u64::MAX) == 0,
{
}

/// A peer that is lost or given up is forgotten, and a peer that is named is taken up
/// without a link to it; both begin the next session.
pub proof fn law_peers_come_and_go(p2p: P2pState, addr: Endpoint)
    ensures
        p2p.after_reset().peer_addr is None,
        !p2p.after_reset().connected,
        p2p.after_reset().session_id == next_session(p2p.session_id),
        p2p.after_peer_named(addr).peer_addr == Some(addr),
        !p2p.after_peer_named(addr).connected,
        p2p.after_peer_named(addr).session_id == next_session(p2p.session_id),
        p2p.wf() <==> (p2p.connected ==> p2p.peer_addr is Some),
{
}

/// A series of PUNCH packets sends its next packet exactly if fewer than ten were sent,
/// no link stands, and its session and its peer are the present ones. It reports a
/// failure exactly if ten were sent and the rest still holds. The packets are numbered
/// from one, with a quarter of a second between them, and only sending changes the
/// series.
pub proof fn law_punch_steps(run: PunchRun, p2p: P2pState)
    ensures
        ({
            let present = p2p.session_id == run.session_id && p2p.peer_addr == Some(run.peer_addr);
            let step = run.next_step(p2p);
            let after = run.after_step(p2p);
            &&& step is Send <==> run.attempt < 10 && !p2p.connected && present
            &&& step is AlreadyConnected <==> run.attempt < 10 && p2p.connected
            &&& step is PeerChanged <==> run.attempt < 10 && !p2p.connected && !present
            &&& step is Failed <==> run.attempt >= 10 && !p2p.connected && present
            &&& step is Finished <==> run.attempt >= 10 && (p2p.connected || !present)
            &&& step is Send ==> step->attempt == run.attempt + 1 && after.attempt == run.attempt
                + 1
            &&& !(step is Send) ==> after.attempt == run.attempt
            &&& after.session_id == run.session_id
            &&& after.peer_addr == run.peer_addr
            &&& run.wf() <==> run.attempt <= 10
        }),
        PUNCH_ATTEMPTS == 10,
        PUNCH_INTERVAL_MS == 250,
{
}

/// Exactly the texts `PUNCH` and `PUNCH_ACK` are control packets; every other text,
/// however long, is a chat message with that text.
pub proof fn law_packets_are_told_apart(text: Seq<char>)
    ensures
        classified(text) is Punch <==> text == "PUNCH"@,
        classified(text) is PunchAck <==> text == "PUNCH_ACK"@,
        text != "PUNCH"@ && text != "PUNCH_ACK"@ ==> classified(text) == DatagramView::Chat(text),
{
    reveal_strlit("PUNCH");
    reveal_strlit("PUNCH_ACK");
    assert("PUNCH"@.len() != "PUNCH_ACK"@.len());
}

/// What the packets of the peer bring about. A PUNCH packet is answered, whether the
/// link stands or not. The answer to one makes the link stand where it did not and the
/// window can be told, and then the window is told. A message is shown exactly if the
/// link stands. Nothing else changes the state of the link.
pub proof fn law_packets_of_the_peer(
    p2p: P2pState,
    from: Endpoint,
    message: Seq<char>,
    can_report: bool,
)
    requires
        p2p.peer_addr == Some(from),
    ensures
        p2p.datagram_action(DatagramView::Punch, from, can_report) == (DatagramActionView::Answer {
            packet: encode_utf8("PUNCH_ACK"@),
            to: from,
        }),
        p2p.after_datagram(DatagramView::Punch, from, can_report) == p2p,
        p2p.datagram_action(DatagramView::PunchAck, from, can_report) == if can_report
            && !p2p.connected {
            DatagramActionView::Report(EventView::PeerConnected)
        } else {
            DatagramActionView::Ignore
        },
        p2p.after_datagram(DatagramView::PunchAck, from, can_report).connected <==> p2p.connected
            || can_report,
        p2p.after_datagram(DatagramView::PunchAck, from, can_report).peer_addr == p2p.peer_addr,
        p2p.after_datagram(DatagramView::PunchAck, from, can_report).session_id == p2p.session_id,
        p2p.datagram_action(DatagramView::Chat(message), from, can_report) == if p2p.connected {
            DatagramActionView::Report(EventView::MessageReceived(message))
        } else {
            DatagramActionView::Ignore
        },
        p2p.after_datagram(DatagramView::Chat(message), from, can_report) == p2p,
{
}

/// A line of the server is told by its first word, and the lines about a room or an
/// address need a second word, which is the code or the address. A line that starts
/// with no such word says nothing.
pub proof fn law_server_lines(parts: Seq<Seq<char>>, argument: Seq<char>)
    ensures
        server_message(parts) == ServerMessageView::Created(argument) <==> parts.len() > 1
            && parts[0] == "CREATED"@ && parts[1] == argument,
        server_message(parts) == ServerMessageView::Joined(argument) <==> parts.len() > 1
            && parts[0] == "JOINED"@ && parts[1] == argument,
        server_message(parts) == ServerMessageView::Peer(argument) <==> parts.len() > 1
            && parts[0] == "PEER"@ && parts[1] == argument,
        server_message(parts) is PeerLeft <==> parts.len() > 0 && parts[0] == "PEER_LEFT"@,
        server_message(parts) is RoomFull <==> parts.len() > 0 && parts[0] == "ROOM_FULL"@,
        server_message(parts) is RoomNotFound <==> parts.len() > 0 && parts[0]
            == "ROOM_NOT_FOUND"@,
        server_message(parts) is AlreadyInRoom <==> parts.len() > 0 && (parts[0]
            == "ALREADY_IN_ROOM"@ || parts[0] == "ALREADY_JOINED"@),
        server_message(parts) is P2pDisconnected <==> parts.len() > 0 && parts[0]
            == "P2P_DISCONNECTED"@,
        server_message(parts) is Left <==> parts.len() > 0 && parts[0] == "LEFT"@,
{
    lemma_heads_differ();
}

/// What the client does about each line of the server. A room that it came into makes
/// it register its UDP address with the server and then tell the window. A valid peer
/// address makes it take up that peer and send PUNCH packets to it. A peer that is gone
/// is given up and the window is told; leaving gives up the peer without a word. A
/// refusal is passed on to the window. Nothing is done about anything else, and only
/// lines about peers and leaving change the link.
pub proof fn law_server_messages_are_followed(
    p2p: P2pState,
    code: Seq<char>,
    peer_addr: Option<Endpoint>,
    client_id: Seq<char>,
    server: Endpoint,
)
    ensures
        server_action(ServerMessageView::Created(code), peer_addr, p2p, client_id, server) == (
        ActionView::Register {
            packet: encode_utf8("REGISTER "@ + client_id),
            to: server,
            event: EventView::RoomCreated(code),
        }),
        server_action(ServerMessageView::Joined(code), peer_addr, p2p, client_id, server) == (
        ActionView::Register {
            packet: encode_utf8("REGISTER "@ + client_id),
            to: server,
            event: EventView::JoinedRoom(code),
        }),
        after_server_message(ServerMessageView::Created(code), peer_addr, p2p) == p2p,
        after_server_message(ServerMessageView::Joined(code), peer_addr, p2p) == p2p,
        peer_addr matches Some(addr) ==> {
            let action = server_action(
                ServerMessageView::Peer(code),
                peer_addr,
                p2p,
                client_id,
                server,
            );
            &&& after_server_message(ServerMessageView::Peer(code), peer_addr, p2p)
                == p2p.after_peer_named(addr)
            &&& action is Punch
            &&& action->Punch_0.peer_addr == addr
            &&& action->Punch_0.session_id == next_session(p2p.session_id)
            &&& action->Punch_0.attempt == 0
        },
        peer_addr is None ==> server_action(
            ServerMessageView::Peer(code),
            peer_addr,
            p2p,
            client_id,
            server,
        ) is Idle && after_server_message(ServerMessageView::Peer(code), peer_addr, p2p) == p2p,
        forall|message: ServerMessageView|
            message is PeerLeft || message is P2pDisconnected ==> #[trigger] server_action(
                message,
                peer_addr,
                p2p,
                client_id,
                server,
            ) == ActionView::Report(EventView::PeerDisconnected) && after_server_message(
                message,
                peer_addr,
                p2p,
            ) == p2p.after_reset(),
        server_action(ServerMessageView::Left, peer_addr, p2p, client_id, server) is Idle,
        after_server_message(ServerMessageView::Left, peer_addr, p2p) == p2p.after_reset(),
        server_action(ServerMessageView::RoomFull, peer_addr, p2p, client_id, server)
            == ActionView::Report(EventView::RoomFull),
        server_action(ServerMessageView::RoomNotFound, peer_addr, p2p, client_id, server)
            == ActionView::Report(EventView::RoomNotFound),
        server_action(ServerMessageView::AlreadyInRoom, peer_addr, p2p, client_id, server)
            == ActionView::Report(EventView::AlreadyInRoom),
        server_action(ServerMessageView::Unknown, peer_addr, p2p, client_id, server) is Idle,
        forall|message: ServerMessageView|
            message is RoomFull || message is RoomNotFound || message is AlreadyInRoom
                || message is Unknown ==> #[trigger] after_server_message(message, peer_addr, p2p)
                == p2p,
{
}

/// Every line of the server is followed for what its words say, whatever stands around
/// them; the address of the peer is the one whose text the line names.
pub proof fn law_server_lines_are_followed(
    p2p: P2pState,
    line: Seq<char>,
    addr_text: Seq<char>,
    client_id: Seq<char>,
    server: Endpoint,
)
    ensures
        ({
            let message = server_message(words(line));
            let input = InputView::ServerLine(line);
            &&& input_action(input, p2p, client_id, server) == Some(
                server_action(message, named_peer(message), p2p, client_id, server),
            )
            &&& after_input(input, p2p) == after_server_message(message, named_peer(message), p2p)
            &&& named_peer(ServerMessageView::Peer(addr_text)) == socket_addr(addr_text)
            &&& words(line) == seq!["PEER"@, addr_text] && socket_addr(addr_text) is Some
                ==> after_input(input, p2p).peer_addr == socket_addr(addr_text)
        }),
{
    law_server_lines(words(line), addr_text);
}

/// Over a link that stands, every chat message that the window hands to the network task
/// goes out to the peer as a packet that encodes it, and nothing else is done about it.
/// The window is told that it went out, or why it did not. Without a link, or without a
/// peer, nothing is sent and the window is told so.
pub proof fn law_chat_messages_go_out(
    p2p: P2pState,
    message: Seq<char>,
    client_id: Seq<char>,
    server: Endpoint,
    error: Seq<char>,
)
    ensures
        ({
            let input = InputView::Command(CommandView::SendMessage(message));
            let action = input_action(input, p2p, client_id, server);
            &&& after_input(input, p2p) == p2p
            &&& action is Some
            &&& p2p.connected && p2p.peer_addr is Some ==> {
                &&& action->0 is SendMessage
                &&& action->0->SendMessage_packet == encode_utf8(message)
                &&& action->0->SendMessage_to == p2p.peer_addr->0
                &&& action->0->SendMessage_message == message
                &&& completed(action->0, Ok(())) == Ok::<Option<EventView>, Seq<char>>(
                    Some(EventView::MessageSent(message)),
                )
                &&& completed(action->0, Err(error)) == Ok::<Option<EventView>, Seq<char>>(
                    Some(EventView::Error("P2P 메시지를 전송하지 못했습니다: "@ + error)),
                )
            }
            &&& !p2p.connected ==> action->0 == ActionView::Report(
                EventView::Error("P2P 연결이 없어 메시지를 전송하지 못했습니다."@),
            )
            &&& p2p.connected && p2p.peer_addr is None ==> action->0 == ActionView::Report(
                EventView::Error("상대 주소가 없어 메시지를 전송하지 못했습니다."@),
            )
        }),
{
}

/// Every command of the window about a room goes to the server as a line: a request for
/// a new room, a request for the room whose code is trimmed and put into upper case,
/// unless nothing is left of it, and a request to leave. None of them changes the link
/// before it was written.
pub proof fn law_room_commands_go_to_the_server(
    p2p: P2pState,
    code: Seq<char>,
    command: CommandView,
    client_id: Seq<char>,
    server: Endpoint,
)
    ensures
        input_action(InputView::Command(CommandView::CreateRoom), p2p, client_id, server) == Some(
            ActionView::Write { line: "CREATE\n"@ },
        ),
        input_action(InputView::Command(CommandView::LeaveRoom), p2p, client_id, server) == Some(
            ActionView::WriteLeave { line: "LEAVE\n"@ },
        ),
        ({
            let sent = uppercase(trimmed(code));
            input_action(InputView::Command(CommandView::JoinRoom(code)), p2p, client_id, server)
                == Some(
                if sent.len() == 0 {
                    ActionView::Idle
                } else {
                    ActionView::Write { line: "JOIN "@ + sent + "\n"@ }
                },
            )
        }),
        after_input(InputView::Command(command), p2p) == p2p,
        input_action(InputView::Command(command), p2p, client_id, server) == Some(
            command_action(command, p2p),
        ),
        join_action(code) == if code.len() == 0 {
            ActionView::Idle
        } else {
            ActionView::Write { line: "JOIN "@ + code + "\n"@ }
        },
{
}

/// What follows an action. A line that cannot be written to the server, but for the one
/// that says that the peer cannot be reached, and a registration that cannot be sent end
/// the network task with that error. A room is reported once the address was registered.
/// The failure to reach the peer is reported whether or not the server could be told.
pub proof fn law_outcomes(
    line: Seq<char>,
    packet: Seq<u8>,
    to: Endpoint,
    message: Seq<char>,
    event: EventView,
    run: PunchRun,
    outcome: Result<(), Seq<char>>,
)
    ensures
        completed(ActionView::Idle, outcome) == Ok::<Option<EventView>, Seq<char>>(None),
        completed(ActionView::Punch(run), outcome) == Ok::<Option<EventView>, Seq<char>>(None),
        completed(ActionView::Report(event), outcome) == Ok::<Option<EventView>, Seq<char>>(
            Some(event),
        ),
        completed(ActionView::WriteFailure { line }, outcome) == Ok::<Option<EventView>, Seq<char>>(
            Some(EventView::P2pFailed),
        ),
        outcome is Ok ==> completed(ActionView::Write { line }, outcome) == Ok::<
            Option<EventView>,
            Seq<char>,
        >(None),
        outcome is Ok ==> completed(ActionView::WriteLeave { line }, outcome) == Ok::<
            Option<EventView>,
            Seq<char>,
        >(None),
        outcome is Ok ==> completed(ActionView::Register { packet, to, event }, outcome) == Ok::<
            Option<EventView>,
            Seq<char>,
        >(Some(event)),
        outcome is Ok ==> completed(ActionView::SendMessage { packet, to, message }, outcome)
            == Ok::<Option<EventView>, Seq<char>>(Some(EventView::MessageSent(message))),
        outcome matches Err(error) ==> {
            let stopped = Err::<Option<EventView>, Seq<char>>(error);
            &&& completed(ActionView::Write { line }, outcome) == stopped
            &&& completed(ActionView::WriteLeave { line }, outcome) == stopped
            &&& completed(ActionView::Register { packet, to, event }, outcome) == stopped
            &&& completed(ActionView::SendMessage { packet, to, message }, outcome) == Ok::<
                Option<EventView>,
                Seq<char>,
            >(Some(EventView::Error("P2P 메시지를 전송하지 못했습니다: "@ + error)))
        },
{
}

/// Of all actions, only leaving the room changes the link, once the server was told: it
/// gives up the peer.
pub proof fn law_only_leaving_gives_up_the_peer(
    p2p: P2pState,
    action: ActionView,
    outcome: Result<(), Seq<char>>,
)
    ensures
        action is WriteLeave && outcome is Ok ==> after_action(action, outcome, p2p)
            == p2p.after_reset(),
        !(action is WriteLeave) || outcome is Err ==> after_action(action, outcome, p2p) == p2p,
{
}

/// The report that PUNCH packets were not answered counts exactly if they were sent in
/// the present session, to the present peer, and no link stands; then the peer is given
/// up and the server is told. The same goes for the report as an input of the network
/// task.
pub proof fn law_failures_count_for_the_present_peer(
    p2p: P2pState,
    session_id: u64,
    addr: Endpoint,
    client_id: Seq<char>,
    server: Endpoint,
)
    ensures
        ({
            let counts = p2p.session_id == session_id && p2p.peer_addr == Some(addr)
                && !p2p.connected;
            let action = punch_failure_action(session_id, addr, p2p);
            let after = after_punch_failure(session_id, addr, p2p);
            let input = InputView::PunchFailed { session_id, failed_peer: addr };
            &&& counts ==> action == (ActionView::WriteFailure { line: "P2P_FAILED\n"@ })
            &&& counts ==> after == p2p.after_reset()
            &&& !counts ==> action is Idle
            &&& !counts ==> after == p2p
            &&& input_action(input, p2p, client_id, server) == Some(action)
            &&& after_input(input, p2p) == after
            &&& p2p.is_opening(session_id, addr) <==> counts
        }),
{
}

/// When the window or the server is gone, the link is left as it is.
pub proof fn law_ends_leave_the_link(p2p: P2pState)
    ensures
        after_input(InputView::CommandsClosed, p2p) == p2p,
        after_input(InputView::ServerClosed, p2p) == p2p,
{
}

/// The client learns its ID exactly if something was read and it starts with the words
/// `CLIENT_ID` and an ID, which may be any word; what is missing decides the error.
pub proof fn law_client_id_is_told(size: usize, line: Seq<char>, client_id: Seq<char>)
    ensures
        told_client_id(size, line) == Ok::<Seq<char>, StartError>(client_id) <==> size > 0 && words(
            line,
        ).len() >= 2 && words(line)[0] == "CLIENT_ID"@ && words(line)[1] == client_id,
        size == 0 ==> told_client_id(size, line) == Err::<Seq<char>, StartError>(
            StartError::ServerDisconnected,
        ),
        size > 0 && told_client_id(size, line) is Err ==> told_client_id(size, line) == Err::<
            Seq<char>,
            StartError,
        >(StartError::InvalidClientId),
        StartError::ServerDisconnected.text() == "server disconnected"@,
        StartError::InvalidClientId.text() == "invalid CLIENT_ID response"@,
        StartError::NoUdpServer.text() == "UDP server IPv4 address not found"@,
{
}

/// The address of the server for UDP is the first IPv4 address, wherever in the list it
/// stands; there is none exactly if no address of the list is an IPv4 address.
pub proof fn law_first_ipv4_address(addrs: Seq<Endpoint>, i: int, addr: Endpoint)
    ensures
        0 <= i < addrs.len() && addrs[i] is V4 && (forall|j: int|
            0 <= j < i ==> !(#[trigger] addrs[j] is V4)) ==> (is_first_ipv4(addrs, addr) <==> addr
            == addrs[i]) && has_ipv4(addrs),
        (forall|j: int| 0 <= j < addrs.len() ==> !(#[trigger] addrs[j] is V4)) ==> !has_ipv4(addrs)
            && !is_first_ipv4(addrs, addr),
{
    if 0 <= i < addrs.len() && addrs[i] is V4 && (forall|j: int|
        0 <= j < i ==> !(#[trigger] addrs[j] is V4)) {
        if is_first_ipv4(addrs, addr) {
            let k = choose|k: int|
                0 <= k < addrs.len() && #[trigger] addrs[k] == addr && addr is V4 && forall|j: int|
                    0 <= j < k ==> !(#[trigger] addrs[j] is V4);
            assert(addrs[i] is V4 && addrs[k] is V4);
        }
    }
}

/// The commands of the window and the reports of the network task are what they are
/// called, and carry the text that they hold.
pub proof fn law_commands_and_reports_are_seen(command: NetworkCommand, event: NetworkEvent)
    ensures
        command is CreateRoom <==> command@ is CreateRoom,
        command is LeaveRoom <==> command@ is LeaveRoom,
        command matches NetworkCommand::JoinRoom(code) ==> command@ == CommandView::JoinRoom(code@),
        command matches NetworkCommand::SendMessage(message) ==> command@
            == CommandView::SendMessage(message@),
        event is ServerConnected <==> event@ is ServerConnected,
        event is ServerDisconnected <==> event@ is ServerDisconnected,
        event is RoomFull <==> event@ is RoomFull,
        event is RoomNotFound <==> event@ is RoomNotFound,
        event is AlreadyInRoom <==> event@ is AlreadyInRoom,
        event is PeerConnected <==> event@ is PeerConnected,
        event is PeerDisconnected <==> event@ is PeerDisconnected,
        event is P2pFailed <==> event@ is P2pFailed,
        event matches NetworkEvent::RoomCreated(code) ==> event@ == EventView::RoomCreated(code@),
        event matches NetworkEvent::JoinedRoom(code) ==> event@ == EventView::JoinedRoom(code@),
        event matches NetworkEvent::MessageSent(text) ==> event@ == EventView::MessageSent(text@),
        event matches NetworkEvent::MessageReceived(text) ==> event@
            == EventView::MessageReceived(text@),
        event matches NetworkEvent::Error(text) ==> event@ == EventView::Error(text@),
{
}

/// The actions of the network task are what they are called, and carry what they hold.
pub proof fn law_actions_are_seen(action: ClientAction)
    ensures
        action is Idle <==> action@ is Idle,
        action matches ClientAction::Write { line } ==> action@ == (ActionView::Write {
            line: line@,
        }),
        action matches ClientAction::WriteLeave { line } ==> action@ == (ActionView::WriteLeave {
            line: line@,
        }),
        action matches ClientAction::WriteFailure { line } ==> action@ == (
        ActionView::WriteFailure { line: line@ }),
        action matches ClientAction::Register { packet, to, event } ==> action@ == (
        ActionView::Register { packet: packet@, to, event: event@ }),
        action matches ClientAction::SendMessage { packet, to, message } ==> action@ == (
        ActionView::SendMessage { packet: packet@, to, message: message@ }),
        action matches ClientAction::Punch(run) ==> action@ == ActionView::Punch(run),
        action matches ClientAction::Report(event) ==> action@ == ActionView::Report(event@),
{
}

/// The inputs of the network task and the lines of the server are what they are called,
/// and carry what they hold.
pub proof fn law_inputs_are_seen(input: ClientInput, message: ServerMessage)
    ensures
        input is CommandsClosed <==> input@ is CommandsClosed,
        input is ServerClosed <==> input@ is ServerClosed,
        input matches ClientInput::Command(command) ==> input@ == InputView::Command(command@),
        input matches ClientInput::ServerLine(line) ==> input@ == InputView::ServerLine(line@),
        input matches ClientInput::PunchFailed { session_id, failed_peer } ==> input@ == (
        InputView::PunchFailed { session_id, failed_peer }),
        message matches ServerMessage::Created(code) ==> message@ == ServerMessageView::Created(
            code@,
        ),
        message matches ServerMessage::Joined(code) ==> message@ == ServerMessageView::Joined(
            code@,
        ),
        message matches ServerMessage::Peer(addr) ==> message@ == ServerMessageView::Peer(addr@),
        message is PeerLeft <==> message@ is PeerLeft,
        message is RoomFull <==> message@ is RoomFull,
        message is RoomNotFound <==> message@ is RoomNotFound,
        message is AlreadyInRoom <==> message@ is AlreadyInRoom,
        message is P2pDisconnected <==> message@ is P2pDisconnected,
        message is Left <==> message@ is Left,
        message is Unknown <==> message@ is Unknown,
{
}

/// Packets and what is done about them are what they are called, and carry what they
/// hold.
pub proof fn law_packets_are_seen(datagram: Datagram, action: DatagramAction)
    ensures
        datagram is Punch <==> datagram@ is Punch,
        datagram is PunchAck <==> datagram@ is PunchAck,
        datagram matches Datagram::Chat(text) ==> datagram@ == DatagramView::Chat(text@),
        action is Ignore <==> action@ is Ignore,
        action matches DatagramAction::Answer { packet, to } ==> action@ == (
        DatagramActionView::Answer { packet: packet@, to }),
        action matches DatagramAction::Report(event) ==> action@ == DatagramActionView::Report(
            event@,
        ),
{
}

/// How an action ended, and what follows it, is seen as it is, with the text of the
/// error.
pub proof fn law_outcomes_are_seen(
    outcome: Result<(), String>,
    follows: Result<Option<NetworkEvent>, String>,
)
    ensures
        outcome is Ok <==> outcome_view(outcome) is Ok,
        outcome matches Err(error) ==> outcome_view(outcome) == Err::<(), Seq<char>>(error@),
        follows matches Ok(Some(event)) ==> completed_view(follows) == Ok::<
            Option<EventView>,
            Seq<char>,
        >(Some(event@)),
        follows matches Ok(None) ==> completed_view(follows) == Ok::<Option<EventView>, Seq<char>>(
            None,
        ),
        follows matches Err(error) ==> completed_view(follows) == Err::<
            Option<EventView>,
            Seq<char>,
        >(error@),
{
}

/// The packet that registers a client names it, and the line that asks for a room names
/// the room.
pub proof fn law_texts_to_the_server(client_id: Seq<char>, code: Seq<char>, error: Seq<char>)
    ensures
        registration(client_id) == "REGISTER "@ + client_id,
        join_line(code) == "JOIN "@ + code + "\n"@,
        send_error(error) == EventView::Error("P2P 메시지를 전송하지 못했습니다: "@ + error),
{
}

} // verus!
