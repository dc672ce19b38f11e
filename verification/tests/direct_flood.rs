use peer::addr::PeerAddr;
use peer::direct_flood::DirectFlood;
use peer::peer_store::{PeerEntry, PeerStore};
use peer::protocol::{EncodeError, Message, MessageKind, Protocol, Reaction};

fn port(port: u16) -> PeerAddr {
    PeerAddr::v4([127, 0, 0, 1], port)
}

#[test]
fn flood_sends_its_greeting() {
    let flood = DirectFlood::new(port(9001), 3);
    assert_eq!(flood.period(), 3);
    let message = flood.start();
    assert_eq!(message.ttl, 1);
    assert_eq!(message.from, port(9001));
    assert_eq!(message.payload, Some(String::from("Yo!")));
}

#[test]
fn message_is_sent_to_every_peer() {
    let flood = DirectFlood::new(port(9001), 1);
    let mut store = PeerStore::new();
    store.add_peer(port(9002), 2);
    store.add_peer(port(9003), 3);
    let sending = flood.send_message(&store, flood.start());
    assert_eq!(
        sending.line,
        "Sending message \"Yo!\" to [\"127.0.0.1:9002\", \"127.0.0.1:9003\"]"
    );
    let outbound = sending.outbound.unwrap();
    assert_eq!(
        outbound.targets,
        vec![PeerEntry { addr: port(9002), conn: 2 }, PeerEntry { addr: port(9003), conn: 3 }]
    );
    assert_eq!(outbound.frame, MessageKind::Direct(flood.start()).to_frame().unwrap());
}

#[test]
fn message_for_nobody_is_still_announced() {
    let flood = DirectFlood::new(port(9001), 1);
    let sending = flood.send_message(&PeerStore::new(), flood.start());
    assert_eq!(sending.line, "Sending message \"Yo!\" to [\"\"]");
    assert_eq!(sending.outbound.unwrap().targets, vec![]);
}

#[test]
fn message_that_does_not_fit_a_frame_is_not_sent() {
    let flood = DirectFlood::new(port(9001), 1);
    let mut store = PeerStore::new();
    store.add_peer(port(9002), 2);
    let message = Message::new(1, port(9001), Some("y".repeat(1007)));
    let sending = flood.send_message(&store, message);
    assert_eq!(sending.outbound.unwrap_err(), EncodeError::FrameTooLarge);
}

#[test]
fn direct_message_is_logged_and_nothing_more() {
    let flood = DirectFlood::new(port(9002), 1);
    let kind = MessageKind::Direct(Message::new(1, port(9001), Some(String::from("Yo!"))));
    let reactions = flood.handle_message(&kind);
    assert_eq!(reactions.len(), 1);
    match &reactions[0] {
        Reaction::Log(line) => {
            assert_eq!(line, "Recieved message \"Yo!\" from \"127.0.0.1:9001\"")
        }
        _ => unreachable!(),
    }
}

#[test]
fn direct_message_without_payload_is_passed_over() {
    let flood = DirectFlood::new(port(9002), 1);
    let kind = MessageKind::Direct(Message::new(1, port(9001), None));
    assert_eq!(flood.handle_message(&kind).len(), 0);
}

#[test]
fn flood_passes_over_other_envelopes() {
    let flood = DirectFlood::new(port(9002), 1);
    let message = Message::new(1, port(9001), Some(String::from("Yo!")));
    assert_eq!(flood.handle_message(&MessageKind::Broadcast(message.clone())).len(), 0);
    assert_eq!(flood.handle_message(&MessageKind::Handshake(message)).len(), 0);
    assert_eq!(flood.handle_message(&MessageKind::Ping).len(), 0);
}
