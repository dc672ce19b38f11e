//! Discovery by gossip: every period a node tells its peers where it is, and a node that
//! hears of a peer connects to it and passes the word on, with one hop less to go.
//!
//! The hop budget bounds how far the word travels: a message that arrives with no hop left
//! is not passed on. Nothing keeps a node from hearing the same word on several paths.

use crate::addr::PeerAddr;
use crate::peer::{outbound, plan_outbound, Outbound};
use crate::peer_store::{without_peer, PeerStore};
use crate::protocol::{
    reaction_views, result_view, EncodeError, Message, MessageKind, MessageKindView,
    MessageView, Protocol, Reaction, ReactionView,
};
use vstd::prelude::*;

verus! {

/// The hop budget with which a node sends word of itself.
pub const INITIAL_TTL: u8 = 2;

/// The message by which the node at `addr` sends word of itself.
pub open spec fn discovery_message(addr: PeerAddr) -> MessageView {
    MessageView { ttl: INITIAL_TTL, from: addr, payload: None }
}

/// Whether the node at `own` passes `message` on: it has a hop left and is word of another
/// node.
pub open spec fn relays(own: PeerAddr, message: MessageView) -> bool {
    message.ttl > 0 && message.from != own
}

/// `message` as it is passed on: one hop less, the same origin, no payload.
pub open spec fn relayed(message: MessageView) -> MessageView
    recommends
        message.ttl > 0,
{
    MessageView { ttl: (message.ttl - 1) as u8, from: message.from, payload: None }
}

/// What discovery at the node `own` asks for when `kind` arrives: for a broadcast that it
/// passes on, to connect to its origin and then to send it on; for anything else, nothing.
pub open spec fn discovery_reaction(own: PeerAddr, kind: MessageKindView) -> Seq<ReactionView> {
    match kind {
        MessageKindView::Broadcast(message) => if relays(own, message) {
            seq![ReactionView::Connect(message.from), ReactionView::Broadcast(relayed(message))]
        } else {
            Seq::empty()
        },
        _ => Seq::empty(),
    }
}

/// The discovery protocol of one node.
#[derive(Debug)]
pub struct GossipDiscovery {
    addr: PeerAddr,
    period: u64,
}

impl GossipDiscovery {
    /// The address of the node that the protocol runs on.
    pub closed spec fn spec_addr(&self) -> PeerAddr {
        self.addr
    }

    /// The seconds between two broadcasts.
    pub closed spec fn spec_period(&self) -> u64 {
        self.period
    }

    /// Discovery for the node at `addr`, with a broadcast every `period` seconds.
    pub fn new(addr: PeerAddr, period: u64) -> (discovery: GossipDiscovery)
        ensures
            discovery.spec_addr() == addr,
            discovery.spec_period() == period,
    {
        GossipDiscovery { addr, period }
    }

    pub fn period(&self) -> (period: u64)
        ensures
            period == self.spec_period(),
    {
        self.period
    }

    /// The message that is broadcast every period.
    pub fn start(&self) -> (message: Message)
        ensures
            message@ == discovery_message(self.spec_addr()),
    {
        Message::new(INITIAL_TTL, self.addr, None)
    }

    /// The broadcast of `message`: its frame, for every peer but the one that it set out
    /// from.
    pub fn broadcast_message(&self, store: &PeerStore, message: Message) -> (result: Result<
        Outbound,
        EncodeError,
    >)
        ensures
            result_view(result) == outbound(
                MessageKindView::Broadcast(message@),
                without_peer(store@, message.from),
            ),
    {
        let targets = store.peers_except(&message.from);
        plan_outbound(&MessageKind::Broadcast(message), targets)
    }
}

impl Protocol for GossipDiscovery {
    /// Asks for what `discovery_reaction` says: a broadcast with a hop left that is word of
    /// another node is passed on with one hop less, after a connection to its origin.
    open spec fn known_reaction(&self, kind: MessageKindView) -> Option<Seq<ReactionView>> {
        Some(discovery_reaction(self.spec_addr(), kind))
    }

    fn handle_message(&self, kind: &MessageKind) -> (reactions: Vec<Reaction>) {
        let mut reactions: Vec<Reaction> = Vec::new();
        if let MessageKind::Broadcast(message) = kind {
            if message.ttl > 0 && message.from != self.addr {
                reactions.push(Reaction::Connect(message.from));
                reactions.push(Reaction::Broadcast(Message::new(message.ttl - 1, message.from, None)));
            }
        }
        proof {
            assert(reaction_views(reactions@) =~= discovery_reaction(self.spec_addr(), kind@));
        }
        reactions
    }
}

/// A broadcast that is passed on has exactly one hop less than it arrived with and names
/// the same origin; a broadcast that arrives with no hop left is not passed on.
pub proof fn lemma_relay_spends_one_hop(own: PeerAddr, message: MessageView)
    ensures
        message.ttl == 0 ==> discovery_reaction(own, MessageKindView::Broadcast(message)).len()
            == 0,
        forall|i: int|
            0 <= i < discovery_reaction(own, MessageKindView::Broadcast(message)).len() ==> (
            #[trigger] discovery_reaction(own, MessageKindView::Broadcast(message))[i]
                matches ReactionView::Broadcast(sent) ==> sent.ttl + 1 == message.ttl && sent.from
                == message.from),
{
}

/// Only a broadcast is passed on.
pub proof fn lemma_only_broadcasts_are_relayed(own: PeerAddr, kind: MessageKindView)
    requires
        !(kind is Broadcast),
    ensures
        discovery_reaction(own, kind).len() == 0,
{
}

/// `message` after it was passed on by each of `nodes` in turn, or `None` if one of them did
/// not pass it on.
pub open spec fn passed_along(message: MessageView, nodes: Seq<PeerAddr>) -> Option<MessageView>
    decreases nodes.len(),
{
    if nodes.len() == 0 {
        Some(message)
    } else if relays(nodes[0], message) {
        passed_along(relayed(message), nodes.drop_first())
    } else {
        None
    }
}

/// The hop budget bounds how far word travels: a message is passed on by no more nodes in a
/// row than it has hops, and each of them takes one hop off it.
pub proof fn lemma_hop_budget_bounds_the_flood(message: MessageView, nodes: Seq<PeerAddr>)
    ensures
        passed_along(message, nodes) matches Some(last) ==> nodes.len() <= message.ttl && last.ttl
            == message.ttl - nodes.len() && last.from == message.from,
        nodes.len() > message.ttl ==> passed_along(message, nodes) is None,
    decreases nodes.len(),
{
    if nodes.len() > 0 && relays(nodes[0], message) {
        lemma_hop_budget_bounds_the_flood(relayed(message), nodes.drop_first());
    }
}

} // verus!
