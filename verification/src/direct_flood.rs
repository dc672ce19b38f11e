//! The direct flood: every period a node sends a text to each of its peers, and a node that
//! gets such a text writes it to its log. A direct message makes one hop and no more.

use crate::addr::{socket_addr_text, PeerAddr};
use crate::peer::{outbound, peer_list, peer_list_text, plan_outbound, Outbound};
use crate::peer_store::PeerStore;
use crate::protocol::{
    reaction_views, result_view, EncodeError, Message, MessageKind, MessageKindView,
    MessageView, Protocol, Reaction, ReactionView,
};
use vstd::prelude::*;
use vstd::string::*;

verus! {

/// The message that the node at `addr` sends to its peers.
pub open spec fn flood_message(addr: PeerAddr) -> MessageView {
    MessageView { ttl: 1, from: addr, payload: Some("Yo!"@) }
}

/// The line that tells what is sent and to whom.
pub open spec fn sending_line(payload: Seq<char>, entries: Seq<crate::peer_store::PeerEntry>)
    -> Seq<char> {
    "Sending message \""@ + payload + "\" to [\""@ + peer_list_text(entries) + "\"]"@
}

/// The line that tells what has arrived and from whom.
pub open spec fn received_line(payload: Seq<char>, from: PeerAddr) -> Seq<char> {
    "Recieved message \""@ + payload + "\" from \""@ + socket_addr_text(from) + "\""@
}

/// What the direct flood asks for when `kind` arrives: one line in the log for a direct
/// message with a payload, and nothing else.
pub open spec fn flood_reaction(kind: MessageKindView) -> Seq<ReactionView> {
    match kind {
        MessageKindView::Direct(MessageView { payload: Some(payload), from, .. }) => seq![
            ReactionView::Log(received_line(payload, from)),
        ],
        _ => Seq::empty(),
    }
}

/// A message to send, with the line that tells so.
#[derive(Debug)]
pub struct Sending {
    pub line: String,
    pub outbound: Result<Outbound, EncodeError>,
}

/// The direct flood protocol of one node.
#[derive(Debug)]
pub struct DirectFlood {
    addr: PeerAddr,
    period: u64,
}

impl DirectFlood {
    /// The address of the node that the protocol runs on.
    pub closed spec fn spec_addr(&self) -> PeerAddr {
        self.addr
    }

    /// The seconds between two messages.
    pub closed spec fn spec_period(&self) -> u64 {
        self.period
    }

    /// The direct flood for the node at `addr`, with a message every `period` seconds.
    pub fn new(addr: PeerAddr, period: u64) -> (flood: DirectFlood)
        ensures
            flood.spec_addr() == addr,
            flood.spec_period() == period,
    {
        DirectFlood { addr, period }
    }

    pub fn period(&self) -> (period: u64)
        ensures
            period == self.spec_period(),
    {
        self.period
    }

    /// The message that is sent every period.
    pub fn start(&self) -> (message: Message)
        ensures
            message@ == flood_message(self.spec_addr()),
    {
        Message::new(1, self.addr, Some(String::from_str("Yo!")))
    }

    /// Sends `message`, which has a payload, to every peer: the line for the log, and the
    /// frame with its targets.
    pub fn send_message(&self, store: &PeerStore, message: Message) -> (sending: Sending)
        requires
            message.payload is Some,
        ensures
            sending.line@ == sending_line(message@.payload->0, store@),
            result_view(sending.outbound) == outbound(MessageKindView::Direct(message@), store@),
    {
        let peers = store.get_peers();
        let mut line = String::from_str("Sending message \"");
        match &message.payload {
            Some(payload) => {
                line.append(payload.as_str());
            },
            None => {},
        }
        line.append("\" to [\"");
        line.append(peer_list(&peers).as_str());
        line.append("\"]");
        let outbound = plan_outbound(&MessageKind::Direct(message), peers);
        Sending { line, outbound }
    }
}

impl Protocol for DirectFlood {
    /// Asks for what `flood_reaction` says: a line in the log for a direct message.
    open spec fn known_reaction(&self, kind: MessageKindView) -> Option<Seq<ReactionView>> {
        Some(flood_reaction(kind))
    }

    fn handle_message(&self, kind: &MessageKind) -> (reactions: Vec<Reaction>) {
        let mut reactions: Vec<Reaction> = Vec::new();
        if let MessageKind::Direct(message) = kind {
            if let Some(payload) = &message.payload {
                let mut line = String::from_str("Recieved message \"");
                line.append(payload.as_str());
                line.append("\" from \"");
                line.append(message.from.to_text().as_str());
                line.append("\"");
                reactions.push(Reaction::Log(line));
            }
        }
        proof {
            assert(reaction_views(reactions@) =~= flood_reaction(kind@));
        }
        reactions
    }
}

/// A direct message is never passed on: all that the direct flood asks for is a line in the
/// log.
pub proof fn lemma_direct_is_terminal(kind: MessageKindView)
    ensures
        forall|i: int|
            0 <= i < flood_reaction(kind).len() ==> #[trigger] flood_reaction(kind)[i] is Log,
        flood_reaction(kind).len() <= 1,
{
}

} // verus!
