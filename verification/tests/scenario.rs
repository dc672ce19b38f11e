use peer::addr::PeerAddr;
use peer::direct_flood::DirectFlood;
use peer::gossip_discovery::GossipDiscovery;
use peer::peer::{ConnectPlan, Delivery, Peer, ReadStep};
use peer::peer_store::{PeerEntry, PeerStore};
use peer::protocol::{Message, MessageKind, Reaction, BUFFER_SIZE};

struct Node {
    peer: Peer,
    store: PeerStore,
    discovery: GossipDiscovery,
    flood: DirectFlood,
}

fn local(port: u16) -> PeerAddr {
    PeerAddr::v4([127, 0, 0, 1], port)
}

fn start_node(port: u16) -> Node {
    let addr = local(port);
    let mut peer = Peer::new(addr);
    peer.register_protocol(Box::new(GossipDiscovery::new(addr, 1)));
    peer.register_protocol(Box::new(DirectFlood::new(addr, 1)));
    Node {
        peer,
        store: PeerStore::new(),
        discovery: GossipDiscovery::new(addr, 1),
        flood: DirectFlood::new(addr, 1),
    }
}

fn deliver(node: &mut Node, conn: u64, frame: &[u8; BUFFER_SIZE]) -> Delivery {
    match node.peer.handle_frame(&mut node.store, conn, BUFFER_SIZE, frame) {
        ReadStep::Delivered(delivery) => delivery,
        _ => unreachable!(),
    }
}

/// B dials A over a link that A knows as connection 7 and B as connection 1.
fn connect_b_to_a(a: &mut Node, b: &mut Node) {
    assert_eq!(b.peer.connect_to_peer(&b.store, local(9001)), ConnectPlan::Dial(local(9001)));
    let established = b.peer.connected(&mut b.store, local(9001), 1);
    let handshake = established.handshake.unwrap();
    assert_eq!(handshake.targets, vec![PeerEntry { addr: local(9001), conn: 1 }]);
    let delivery = deliver(a, 7, &handshake.frame);
    match &delivery.kind {
        MessageKind::Handshake(message) => {
            assert_eq!(message.ttl, 0);
            assert_eq!(message.from, local(9002));
            assert_eq!(message.payload, None);
        }
        _ => unreachable!(),
    }
    assert!(delivery.registration.is_some());
    assert!(delivery.reactions.iter().all(|answer| answer.is_empty()));
}

#[test]
fn two_nodes_find_each_other() {
    let mut a = start_node(9001);
    let mut b = start_node(9002);
    connect_b_to_a(&mut a, &mut b);
    assert_eq!(a.store.get_peers(), vec![PeerEntry { addr: local(9002), conn: 7 }]);
    assert_eq!(b.store.get_peers(), vec![PeerEntry { addr: local(9001), conn: 1 }]);
}

#[test]
fn gossip_tick_does_not_make_a_known_peer_reconnect() {
    let mut a = start_node(9001);
    let mut b = start_node(9002);
    connect_b_to_a(&mut a, &mut b);

    let tick = a.discovery.broadcast_message(&a.store, a.discovery.start()).unwrap();
    assert_eq!(tick.targets, vec![PeerEntry { addr: local(9002), conn: 7 }]);

    let delivery = deliver(&mut b, 1, &tick.frame);
    assert!(delivery.registration.is_none());
    assert_eq!(delivery.reactions.len(), 2);
    assert_eq!(delivery.reactions[1].len(), 0);
    let relay = match delivery.reactions[0].as_slice() {
        [Reaction::Connect(addr), Reaction::Broadcast(message)] => {
            assert_eq!(*addr, local(9001));
            message.clone()
        }
        _ => unreachable!(),
    };
    assert_eq!(b.peer.connect_to_peer(&b.store, local(9001)), ConnectPlan::Nothing);
    assert_eq!(b.store.get_peers(), vec![PeerEntry { addr: local(9001), conn: 1 }]);

    assert_eq!(relay.ttl, 1);
    assert_eq!(relay.from, local(9001));
    assert_eq!(relay.payload, None);
    let nobody = b.discovery.broadcast_message(&b.store, relay).unwrap();
    assert_eq!(nobody.targets, vec![]);
}

#[test]
fn gossip_is_relayed_to_a_third_neighbour_with_one_hop_less() {
    let mut a = start_node(9001);
    let mut b = start_node(9002);
    let mut c = start_node(9003);
    connect_b_to_a(&mut a, &mut b);
    b.peer.connected(&mut b.store, local(9003), 2);

    let tick = a.discovery.broadcast_message(&a.store, a.discovery.start()).unwrap();
    let delivery = deliver(&mut b, 1, &tick.frame);
    let relay = match delivery.reactions[0].as_slice() {
        [Reaction::Connect(_), Reaction::Broadcast(message)] => message.clone(),
        _ => unreachable!(),
    };
    let onward = b.discovery.broadcast_message(&b.store, relay).unwrap();
    assert_eq!(onward.targets, vec![PeerEntry { addr: local(9003), conn: 2 }]);

    let delivery = deliver(&mut c, 5, &onward.frame);
    match &delivery.kind {
        MessageKind::Broadcast(message) => {
            assert_eq!(message.ttl, 1);
            assert_eq!(message.from, local(9001));
        }
        _ => unreachable!(),
    }
    match delivery.reactions[0].as_slice() {
        [Reaction::Connect(addr), Reaction::Broadcast(message)] => {
            assert_eq!(*addr, local(9001));
            assert_eq!(message.ttl, 0);
            assert_eq!(c.peer.connect_to_peer(&c.store, *addr), ConnectPlan::Dial(local(9001)));
            let last = MessageKind::Broadcast(message.clone()).to_frame().unwrap();
            let delivery = deliver(&mut a, 9, &last);
            assert!(delivery.reactions.iter().all(|answer| answer.is_empty()));
        }
        _ => unreachable!(),
    }
}

#[test]
fn direct_message_is_logged_once_by_its_receiver() {
    let mut a = start_node(9001);
    let mut b = start_node(9002);
    connect_b_to_a(&mut a, &mut b);

    let sending = a.flood.send_message(&a.store, a.flood.start());
    assert_eq!(sending.line, "Sending message \"Yo!\" to [\"127.0.0.1:9002\"]");
    let outbound = sending.outbound.unwrap();
    assert_eq!(outbound.targets, vec![PeerEntry { addr: local(9002), conn: 7 }]);

    let before = b.store.get_peers();
    let delivery = deliver(&mut b, 1, &outbound.frame);
    assert!(delivery.registration.is_none());
    assert_eq!(b.store.get_peers(), before);
    let all: Vec<&Reaction> = delivery.reactions.iter().flatten().collect();
    assert_eq!(all.len(), 1);
    match all[0] {
        Reaction::Log(line) => {
            assert!(line.contains("Yo!"));
            assert!(line.contains("127.0.0.1:9001"));
            assert_eq!(line, "Recieved message \"Yo!\" from \"127.0.0.1:9001\"");
        }
        _ => unreachable!(),
    }
}

#[test]
fn peer_that_cannot_be_written_to_is_skipped_from_then_on() {
    let mut a = start_node(9001);
    a.peer.connected(&mut a.store, local(9002), 2);
    a.peer.connected(&mut a.store, local(9003), 3);
    let tick = a.discovery.broadcast_message(&a.store, a.discovery.start()).unwrap();
    assert_eq!(tick.targets.len(), 2);
    assert_eq!(a.store.remove_peer(tick.targets[0].addr), Some(2));
    let tick = a.discovery.broadcast_message(&a.store, a.discovery.start()).unwrap();
    assert_eq!(tick.targets, vec![PeerEntry { addr: local(9003), conn: 3 }]);
}

#[test]
fn peer_whose_connection_ended_is_forgotten() {
    let mut a = start_node(9001);
    let mut b = start_node(9002);
    connect_b_to_a(&mut a, &mut b);
    let frame = [0u8; BUFFER_SIZE];
    assert!(matches!(a.peer.handle_frame(&mut a.store, 7, 0, &frame), ReadStep::Closed));
    assert_eq!(a.store.remove_conn(7), vec![local(9002)]);
    assert_eq!(a.store.get_peers(), vec![]);
    assert_eq!(a.peer.connect_to_peer(&a.store, local(9002)), ConnectPlan::Dial(local(9002)));
}

#[test]
fn oversized_envelope_reaches_no_peer() {
    let mut a = start_node(9001);
    a.peer.connected(&mut a.store, local(9002), 2);
    let message = Message::new(1, local(9001), Some("!".repeat(4096)));
    assert!(a.flood.send_message(&a.store, message.clone()).outbound.is_err());
    assert!(a.discovery.broadcast_message(&a.store, message).is_err());
}
