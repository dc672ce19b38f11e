use peer::addr::PeerAddr;
use peer::gossip_discovery::{GossipDiscovery, INITIAL_TTL};
use peer::peer_store::{PeerEntry, PeerStore};
use peer::protocol::{EncodeError, Message, MessageKind, Protocol, Reaction};

fn at(port: u16) -> PeerAddr {
    PeerAddr::v4([127, 0, 0, 1], port)
}

fn relayed(own: u16, kind: &MessageKind) -> Option<(PeerAddr, Message)> {
    let reactions = GossipDiscovery::new(at(own), 1).handle_message(kind);
    match reactions.as_slice() {
        [] => None,
        [Reaction::Connect(addr), Reaction::Broadcast(message)] => Some((*addr, message.clone())),
        _ => unreachable!(),
    }
}

#[test]
fn discovery_sends_word_of_its_own_node() {
    let discovery = GossipDiscovery::new(at(9001), 5);
    assert_eq!(discovery.period(), 5);
    let message = discovery.start();
    assert_eq!(INITIAL_TTL, 2);
    assert_eq!(message.ttl, 2);
    assert_eq!(message.from, at(9001));
    assert_eq!(message.payload, None);
}

#[test]
fn relayed_broadcast_has_one_hop_less() {
    for ttl in [1u8, 2, 3, 100, 255] {
        let kind = MessageKind::Broadcast(Message::new(ttl, at(9002), None));
        let (connect, message) = relayed(9001, &kind).unwrap();
        assert_eq!(connect, at(9002));
        assert_eq!(message.ttl, ttl - 1);
        assert_eq!(message.from, at(9002));
        assert_eq!(message.payload, None);
    }
}

#[test]
fn relayed_broadcast_carries_no_payload() {
    let kind = MessageKind::Broadcast(Message::new(2, at(9002), Some(String::from("extra"))));
    let (_, message) = relayed(9001, &kind).unwrap();
    assert_eq!(message.payload, None);
}

#[test]
fn broadcast_without_a_hop_left_is_not_relayed() {
    let kind = MessageKind::Broadcast(Message::new(0, at(9002), None));
    assert!(relayed(9001, &kind).is_none());
}

#[test]
fn word_of_the_node_itself_is_not_relayed() {
    let kind = MessageKind::Broadcast(Message::new(2, at(9001), None));
    assert!(relayed(9001, &kind).is_none());
}

#[test]
fn only_broadcasts_are_relayed() {
    let message = Message::new(2, at(9002), None);
    assert!(relayed(9001, &MessageKind::Handshake(message.clone())).is_none());
    assert!(relayed(9001, &MessageKind::Direct(message)).is_none());
    assert!(relayed(9001, &MessageKind::Ping).is_none());
}

#[test]
fn hop_budget_runs_out_along_a_chain_of_nodes() {
    let mut kind = MessageKind::Broadcast(GossipDiscovery::new(at(9000), 1).start());
    let mut hops = 0;
    let mut node = 9001;
    while let Some((_, message)) = relayed(node, &kind) {
        kind = MessageKind::Broadcast(message);
        hops += 1;
        node += 1;
    }
    assert_eq!(hops, 2);
}

#[test]
fn broadcast_goes_to_every_peer_but_the_origin() {
    let discovery = GossipDiscovery::new(at(9001), 1);
    let mut store = PeerStore::new();
    store.add_peer(at(9002), 2);
    store.add_peer(at(9003), 3);
    store.add_peer(at(9004), 4);
    let outbound = discovery.broadcast_message(&store, Message::new(1, at(9003), None)).unwrap();
    assert_eq!(
        outbound.targets,
        vec![PeerEntry { addr: at(9002), conn: 2 }, PeerEntry { addr: at(9004), conn: 4 }]
    );
    match MessageKind::from_frame(&outbound.frame).unwrap() {
        MessageKind::Broadcast(message) => {
            assert_eq!(message.ttl, 1);
            assert_eq!(message.from, at(9003));
            assert_eq!(message.payload, None);
        }
        _ => unreachable!(),
    }
    let own = discovery.broadcast_message(&store, discovery.start()).unwrap();
    assert_eq!(own.targets.len(), 3);
}

#[test]
fn broadcast_that_does_not_fit_a_frame_is_refused() {
    let discovery = GossipDiscovery::new(at(9001), 1);
    let mut store = PeerStore::new();
    store.add_peer(at(9002), 2);
    let message = Message::new(1, at(9003), Some("x".repeat(1024)));
    assert_eq!(
        discovery.broadcast_message(&store, message).unwrap_err(),
        EncodeError::FrameTooLarge
    );
}
