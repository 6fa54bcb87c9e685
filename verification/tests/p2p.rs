use p2p_chat::network::p2p::{
    classify_datagram, classify_text, punch_packet, Datagram, DatagramAction, Endpoint, P2pState,
    PunchRun, PunchStep,
};
use p2p_chat::network::NetworkEvent;

const A: Endpoint = Endpoint::V4 { ip: 0x0a00_0001, port: 4000 };
const B: Endpoint = Endpoint::V4 { ip: 0x0a00_0002, port: 5000 };

fn linked(peer: Endpoint) -> P2pState {
    P2pState { peer_addr: Some(peer), connected: true, session_id: 3 }
}

fn opening(peer: Endpoint) -> P2pState {
    P2pState { peer_addr: Some(peer), connected: false, session_id: 3 }
}

#[test]
fn endpoints_differ_by_address_port_and_kind() {
    assert!(A != B);
    assert!(A != Endpoint::V4 { ip: 0x0a00_0001, port: 4001 });
    let v6 = Endpoint::V6 { ipv6: 1, port: 4000, flowinfo: 0, scope_id: 0 };
    assert!(v6 != Endpoint::V6 { ipv6: 1, port: 4000, flowinfo: 0, scope_id: 2 });
    assert!(A.is_ipv4());
    assert!(!v6.is_ipv4());
}

#[test]
fn state_starts_without_a_peer() {
    let p2p = P2pState::new();
    assert_eq!(p2p.get_peer(), None);
    assert!(!p2p.is_connected());
    assert!(p2p.is_current_session(0));
}

#[test]
fn sessions_are_numbered_and_start_over() {
    let mut p2p = P2pState::new();
    assert_eq!(p2p.start_session(), 1);
    assert_eq!(p2p.start_session(), 2);
    assert!(p2p.is_current_session(2));
    assert!(!p2p.is_current_session(1));
    p2p.session_id = u64::MAX;
    assert_eq!(p2p.start_session(), 0);
}

#[test]
fn reset_forgets_the_peer_and_ends_the_session() {
    let mut p2p = linked(A);
    p2p.reset();
    assert_eq!(p2p, P2pState { peer_addr: None, connected: false, session_id: 4 });
}

#[test]
fn naming_a_peer_starts_a_session_without_a_link() {
    let mut p2p = linked(A);
    assert_eq!(p2p.name_peer(B), 4);
    assert_eq!(p2p, P2pState { peer_addr: Some(B), connected: false, session_id: 4 });
}

#[test]
fn setters_change_one_thing() {
    let mut p2p = P2pState::new();
    p2p.set_peer(Some(A));
    assert_eq!(p2p.get_peer(), Some(A));
    assert!(p2p.is_peer(A));
    assert!(!p2p.is_peer(B));
    p2p.set_connected(true);
    assert!(p2p.is_connected());
    assert_eq!(p2p.session_id, 0);
}

#[test]
fn link_stands_only_by_the_first_answer_of_the_peer() {
    let mut p2p = opening(A);
    assert!(!p2p.mark_connected_if_peer(B, true));
    assert!(!p2p.mark_connected_if_peer(A, false));
    assert!(!p2p.is_connected());
    assert!(p2p.mark_connected_if_peer(A, true));
    assert!(p2p.is_connected());
    assert!(!p2p.mark_connected_if_peer(A, true));
    assert!(p2p.is_connected());
}

#[test]
fn unanswered_run_sends_ten_packets_and_fails() {
    let p2p = opening(A);
    let mut run = PunchRun::new(3, A);
    for attempt in 1..=10u32 {
        assert_eq!(run.step(&p2p), PunchStep::Send { attempt });
    }
    assert_eq!(run.step(&p2p), PunchStep::Failed);
    assert_eq!(run.attempt, 10);
}

#[test]
fn run_stops_when_the_link_stands() {
    let mut run = PunchRun::new(3, A);
    assert_eq!(run.step(&opening(A)), PunchStep::Send { attempt: 1 });
    assert_eq!(run.step(&linked(A)), PunchStep::AlreadyConnected);
    run.attempt = 10;
    assert_eq!(run.step(&linked(A)), PunchStep::Finished);
}

#[test]
fn run_stops_when_the_peer_changes() {
    let mut run = PunchRun::new(3, A);
    assert_eq!(run.step(&opening(B)), PunchStep::PeerChanged);
    let mut later = opening(A);
    later.reset();
    assert_eq!(run.step(&later), PunchStep::PeerChanged);
    later.set_peer(Some(A));
    assert_eq!(run.step(&later), PunchStep::PeerChanged);
    run.attempt = 10;
    assert_eq!(run.step(&later), PunchStep::Finished);
}

#[test]
fn packets_are_told_apart_by_their_whole_text() {
    assert_eq!(punch_packet(), b"PUNCH".to_vec());
    assert!(matches!(classify_datagram(b"PUNCH"), Datagram::Punch));
    assert!(matches!(classify_datagram(b"PUNCH_ACK"), Datagram::PunchAck));
    assert!(matches!(classify_datagram(b"PUNCH\n"), Datagram::Chat(m) if m == "PUNCH\n"));
    assert!(matches!(classify_datagram(b"punch"), Datagram::Chat(m) if m == "punch"));
    assert!(matches!(classify_datagram(b""), Datagram::Chat(m) if m.is_empty()));
    assert!(matches!(classify_text("PUNCH_ACK".to_string()), Datagram::PunchAck));
}

#[test]
fn packets_that_are_not_valid_text_are_read_with_replacements() {
    assert!(matches!(classify_datagram(b"a\xffb"), Datagram::Chat(m) if m == "a\u{fffd}b"));
    assert!(
        matches!(classify_datagram("안녕".as_bytes()), Datagram::Chat(m) if m == "안녕")
    );
}

#[test]
fn strangers_are_ignored() {
    let mut p2p = linked(A);
    for datagram in [Datagram::Punch, Datagram::PunchAck, Datagram::Chat("hi".to_string())] {
        assert!(matches!(p2p.handle_datagram(datagram, B, true), DatagramAction::Ignore));
    }
    assert_eq!(p2p, linked(A));
    let mut alone = P2pState::new();
    assert!(matches!(alone.handle_datagram(Datagram::Punch, A, true), DatagramAction::Ignore));
}

#[test]
fn punch_is_answered_and_the_answer_makes_the_link() {
    let mut a = opening(B);
    let mut b = opening(A);
    let answer = match b.handle_datagram(classify_datagram(&punch_packet()), A, true) {
        DatagramAction::Answer { packet, to } => {
            assert_eq!(to, A);
            packet
        }
        other => panic!("{:?}", other),
    };
    assert_eq!(answer, b"PUNCH_ACK".to_vec());
    assert_eq!(b, opening(A));
    assert!(matches!(
        a.handle_datagram(classify_datagram(&answer), B, true),
        DatagramAction::Report(NetworkEvent::PeerConnected)
    ));
    assert_eq!(a, linked(B));
    assert!(matches!(
        a.handle_datagram(classify_datagram(&answer), B, true),
        DatagramAction::Ignore
    ));
}

#[test]
fn chat_needs_a_link() {
    let mut p2p = opening(A);
    let chat = Datagram::Chat("hi".to_string());
    assert!(matches!(p2p.handle_datagram(chat, A, true), DatagramAction::Ignore));
    let mut p2p = linked(A);
    let chat = Datagram::Chat("hi".to_string());
    assert!(matches!(
        p2p.handle_datagram(chat, A, false),
        DatagramAction::Report(NetworkEvent::MessageReceived(m)) if m == "hi"
    ));
}
