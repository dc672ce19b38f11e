//! Plain gossip: what a node hears from one peer it tells all the others.

use crate::addr::{socket_addr_text, PeerAddr};
use crate::message::{message_text, message_to_buffer, Message};
use crate::peer::Outbound;
use crate::peer_store::{without_peer, PeerStore};
use vstd::prelude::*;
use vstd::string::*;

verus! {

/// The line that tells what was heard and from whom.
pub open spec fn gossip_line(addr: PeerAddr, message: crate::message::MessageView) -> Seq<char> {
    "Gossip from "@ + socket_addr_text(addr) + ": "@ + message_text(message)
}

/// The gossip protocol. It keeps nothing between two messages.
#[derive(Clone, Copy, Debug)]
pub struct GossipProtocol;

/// A message to tell on, with the line that tells so.
#[derive(Debug)]
pub struct Gossip {
    pub line: String,
    pub outbound: Outbound,
}

impl GossipProtocol {
    /// Takes up `message`, which the peer at `addr` has sent: the line for the log, and the
    /// buffer of the message for every peer but that one.
    pub fn handle_message(&self, store: &PeerStore, addr: PeerAddr, message: Message) -> (gossip:
        Gossip)
        ensures
            gossip.line@ == gossip_line(addr, message@),
            gossip.outbound.frame@ == message_to_buffer(message@),
            gossip.outbound.targets@ == without_peer(store@, addr),
    {
        let mut line = String::from_str("Gossip from ");
        line.append(addr.to_text().as_str());
        line.append(": ");
        line.append(message.to_text().as_str());
        let outbound = Outbound { frame: message.to_buffer(), targets: store.peers_except(&addr) };
        Gossip { line, outbound }
    }
}

} // verus!
