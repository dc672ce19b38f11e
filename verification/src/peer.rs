//! The node: its own address, the protocols it runs, and what it decides when a peer is to
//! be dialled, a link has come up or a frame has arrived.
//!
//! The node does no input or output. Whoever owns the sockets reports what happened and
//! carries out what the node answers: it dials, writes the frames of an `Outbound` to its
//! targets, closes the connections that the registry hands back, and writes the log. A
//! target to which a frame cannot be written is removed from the registry with
//! `PeerStore::remove_peer`; a connection that has ended, with `PeerStore::remove_conn`.

use crate::addr::{socket_addr_text, PeerAddr};
use crate::peer_store::{
    has_addr, lemma_with_peer, replaced, with_peer, ConnId, PeerEntry, PeerStore,
};
use crate::protocol::{
    kind_from_bytes, kind_to_frame, reaction_views, result_view, DecodeError, EncodeError,
    Message, MessageKind, MessageKindView, MessageView, Protocol, Reaction, BUFFER_SIZE,
};
use crate::text::{join, joined, views_of};
use vstd::prelude::*;
use vstd::string::*;

verus! {

/// A frame and the peers that it is to be written to, in this order.
#[derive(Debug)]
pub struct Outbound {
    pub frame: [u8; BUFFER_SIZE],
    pub targets: Vec<PeerEntry>,
}

/// What an `Outbound` is to the contracts.
pub struct OutboundView {
    pub frame: Seq<u8>,
    pub targets: Seq<PeerEntry>,
}

impl View for Outbound {
    type V = OutboundView;

    open spec fn view(&self) -> OutboundView {
        OutboundView { frame: self.frame@, targets: self.targets@ }
    }
}

/// The frame of `kind` for `targets`, or why `kind` has no frame.
pub open spec fn outbound(kind: MessageKindView, targets: Seq<PeerEntry>) -> Result<
    OutboundView,
    EncodeError,
> {
    match kind_to_frame(kind) {
        Err(error) => Err(error),
        Ok(frame) => Ok(OutboundView { frame, targets }),
    }
}

/// Writes `kind` into a frame for `targets`.
pub fn plan_outbound(kind: &MessageKind, targets: Vec<PeerEntry>) -> (result: Result<
    Outbound,
    EncodeError,
>)
    ensures
        result_view(result) == outbound(kind@, targets@),
{
    match kind.to_frame() {
        Err(error) => Err(error),
        Ok(frame) => Ok(Outbound { frame, targets }),
    }
}

/// The address texts of `entries`, in order.
pub open spec fn addr_texts(entries: Seq<PeerEntry>) -> Seq<Seq<char>> {
    entries.map_values(|entry: PeerEntry| socket_addr_text(entry.addr))
}

/// The addresses of `entries` as they stand in a log line: `a", "b", "c`.
pub open spec fn peer_list_text(entries: Seq<PeerEntry>) -> Seq<char> {
    joined(addr_texts(entries), "\", \""@)
}

/// The line that tells which peers the node is connected to.
pub open spec fn connected_line(entries: Seq<PeerEntry>) -> Seq<char> {
    "Connected to the peers at [\""@ + peer_list_text(entries) + "\"]"@
}

/// The line that tells the node's own address.
pub open spec fn address_line(addr: PeerAddr) -> Seq<char> {
    "My address is \""@ + socket_addr_text(addr) + "\""@
}

/// The envelope by which the node at `addr` makes itself known.
pub open spec fn handshake_of(addr: PeerAddr) -> MessageKindView {
    MessageKindView::Handshake(MessageView { ttl: 0, from: addr, payload: None })
}

/// The addresses of `peers` as they stand in a log line.
pub fn peer_list(peers: &Vec<PeerEntry>) -> (text: String)
    ensures
        text@ == peer_list_text(peers@),
{
    let mut texts: Vec<String> = Vec::new();
    let mut i: usize = 0;
    while i < peers.len()
        invariant
            i <= peers@.len(),
            texts@.len() == i,
            views_of(texts@) == addr_texts(peers@.subrange(0, i as int)),
        decreases peers@.len() - i,
    {
        let ghost before = texts@;
        let ghost seen = peers@.subrange(0, i as int);
        texts.push(peers[i].addr.to_text());
        i += 1;
        proof {
            let now = peers@.subrange(0, i as int);
            assert forall|k: int| 0 <= k < now.len() implies views_of(texts@)[k] == addr_texts(
                now,
            )[k] by {
                if k < before.len() {
                    assert(views_of(before)[k] == addr_texts(seen)[k]);
                }
            }
            assert(views_of(texts@) =~= addr_texts(now));
        }
    }
    proof {
        assert(peers@.subrange(0, i as int) =~= peers@);
    }
    join(&texts, "\", \"")
}

/// What the node does about a request to connect.
#[derive(Clone, Copy, Debug, PartialEq, Eq, Structural)]
pub enum ConnectPlan {
    /// Nothing: the address is the node's own, or a peer's that is connected.
    Nothing,
    /// Open a connection to this address.
    Dial(PeerAddr),
}

/// What the node at `own` with the peers `entries` does when asked to connect to `addr`.
pub open spec fn connect_plan(own: PeerAddr, entries: Seq<PeerEntry>, addr: PeerAddr)
    -> ConnectPlan {
    if addr == own || has_addr(entries, addr) {
        ConnectPlan::Nothing
    } else {
        ConnectPlan::Dial(addr)
    }
}

/// What registering a peer brought about.
#[derive(Debug)]
pub struct Registration {
    /// The connection that served the address before, if it was another: to be closed.
    pub superseded: Option<ConnId>,
    /// The line for the log.
    pub line: String,
}

/// What follows a link that has come up.
#[derive(Debug)]
pub struct Established {
    pub registration: Registration,
    /// The handshake for every peer, the new one among them.
    pub handshake: Result<Outbound, EncodeError>,
}

/// An envelope that has arrived, with what it brought about.
#[derive(Debug)]
pub struct Delivery {
    pub kind: MessageKind,
    /// What registering the sender of a handshake brought about.
    pub registration: Option<Registration>,
    /// What each protocol asks for: one answer for each protocol, in the order in which
    /// they were registered.
    pub reactions: Vec<Vec<Reaction>>,
}

/// What the node makes of one read from a connection.
#[derive(Debug)]
pub enum ReadStep {
    /// Nothing was read: the peer has shut the connection down, and reading ends.
    Closed,
    /// What was read is no envelope. It is dropped; reading goes on.
    Dropped(DecodeError),
    /// An envelope has arrived; reading goes on.
    Delivered(Delivery),
}

/// Whether `answers` are what `protocols` answer to `kind`: one answer for each protocol, in
/// order, and for each protocol whose answer is known, that answer.
pub open spec fn answers_of(
    protocols: Seq<Box<dyn Protocol>>,
    kind: MessageKindView,
    answers: Seq<Vec<Reaction>>,
) -> bool {
    &&& answers.len() == protocols.len()
    &&& forall|i: int|
        0 <= i < protocols.len() ==> ((#[trigger] protocols[i]).known_reaction(kind) matches Some(
            views,
        ) ==> reaction_views(answers[i]@) == views)
}

/// A node of the network.
pub struct Peer {
    addr: PeerAddr,
    protocols: Vec<Box<dyn Protocol>>,
}

impl Peer {
    /// The size of the frames that the node reads and writes.
    pub const BUFFER_SIZE: usize = BUFFER_SIZE;

    /// The node's own address.
    pub closed spec fn spec_addr(&self) -> PeerAddr {
        self.addr
    }

    /// The protocols of the node, in the order in which they were registered.
    pub closed spec fn spec_protocols(&self) -> Seq<Box<dyn Protocol>> {
        self.protocols@
    }

    /// A node at `addr` that runs no protocol yet.
    pub fn new(addr: PeerAddr) -> (peer: Peer)
        ensures
            peer.spec_addr() == addr,
            peer.spec_protocols() == Seq::<Box<dyn Protocol>>::empty(),
    {
        Peer { addr, protocols: Vec::new() }
    }

    pub fn get_addr(&self) -> (addr: PeerAddr)
        ensures
            addr == self.spec_addr(),
    {
        self.addr
    }

    /// Adds `protocol` behind the protocols that the node runs.
    pub fn register_protocol(&mut self, protocol: Box<dyn Protocol>)
        ensures
            final(self).spec_addr() == old(self).spec_addr(),
            final(self).spec_protocols() == old(self).spec_protocols().push(protocol),
    {
        self.protocols.push(protocol);
    }

    /// The line with which the node announces itself when it starts to listen.
    pub fn start(&self) -> (line: String)
        ensures
            line@ == address_line(self.spec_addr()),
    {
        let mut line = String::from_str("My address is \"");
        line.append(self.addr.to_text().as_str());
        line.append("\"");
        line
    }

    /// Registers the connection `conn` for the peer at `addr`.
    pub fn add_peer(&self, store: &mut PeerStore, addr: PeerAddr, conn: ConnId) -> (registration:
        Registration)
        requires
            old(store).wf(),
        ensures
            final(store).wf(),
            final(store)@ == with_peer(old(store)@, addr, conn),
            registration.superseded == replaced(old(store)@, addr, conn),
            registration.line@ == connected_line(final(store)@),
    {
        let superseded = store.add_peer(addr, conn);
        let peers = store.get_peers();
        let mut line = String::from_str("Connected to the peers at [\"");
        line.append(peer_list(&peers).as_str());
        line.append("\"]");
        Registration { superseded, line }
    }

    /// Decides whether to dial `addr`: not where it is the node's own address, and not where
    /// a peer at `addr` is connected already.
    pub fn connect_to_peer(&self, store: &PeerStore, addr: PeerAddr) -> (plan: ConnectPlan)
        ensures
            plan == connect_plan(self.spec_addr(), store@, addr),
    {
        if addr == self.addr || store.has_peer(&addr) {
            ConnectPlan::Nothing
        } else {
            ConnectPlan::Dial(addr)
        }
    }

    /// The handshake for every peer in the registry.
    pub fn shake_hand(&self, store: &PeerStore) -> (result: Result<Outbound, EncodeError>)
        ensures
            result_view(result) == outbound(handshake_of(self.spec_addr()), store@),
    {
        let kind = MessageKind::Handshake(Message::new(0, self.addr, None));
        plan_outbound(&kind, store.get_peers())
    }

    /// Takes up the connection `conn` that was opened to `addr`: registers it, and makes
    /// the handshake for every peer, the new one among them.
    pub fn connected(&self, store: &mut PeerStore, addr: PeerAddr, conn: ConnId) -> (established:
        Established)
        requires
            old(store).wf(),
        ensures
            final(store).wf(),
            final(store)@ == with_peer(old(store)@, addr, conn),
            established.registration.superseded == replaced(old(store)@, addr, conn),
            established.registration.line@ == connected_line(final(store)@),
            result_view(established.handshake) == outbound(
                handshake_of(self.spec_addr()),
                final(store)@,
            ),
    {
        let registration = self.add_peer(store, addr, conn);
        let handshake = self.shake_hand(store);
        Established { registration, handshake }
    }

    /// Shows `kind` to every protocol, in the order in which they were registered, and
    /// gathers their answers, one for each protocol.
    pub fn dispatch(&self, kind: &MessageKind) -> (reactions: Vec<Vec<Reaction>>)
        ensures
            answers_of(self.spec_protocols(), kind@, reactions@),
    {
        let mut reactions: Vec<Vec<Reaction>> = Vec::new();
        let mut i: usize = 0;
        while i < self.protocols.len()
            invariant
                i <= self.protocols@.len(),
                answers_of(self.protocols@.subrange(0, i as int), kind@, reactions@),
            decreases self.protocols@.len() - i,
        {
            let ghost asked = self.protocols@.subrange(0, i as int);
            let ghost before = reactions@;
            reactions.push(self.protocols[i].handle_message(kind));
            i += 1;
            proof {
                let now = self.protocols@.subrange(0, i as int);
                assert forall|k: int| 0 <= k < now.len() implies ((#[trigger] now[k]).known_reaction(
                    kind@,
                ) matches Some(views) ==> reaction_views(reactions@[k]@) == views) by {
                    if k < asked.len() {
                        assert(now[k] == asked[k]);
                        assert(reactions@[k] == before[k]);
                    }
                }
            }
        }
        proof {
            assert(self.protocols@.subrange(0, i as int) =~= self.protocols@);
        }
        reactions
    }

    /// Makes of one read from the connection `conn` what the node does about it. `read` is
    /// the number of octets that the read returned, `buffer` the frame that it filled.
    ///
    /// The sender of a handshake is registered with `conn` under the address that the
    /// handshake states. Every envelope is then shown to each protocol.
    pub fn handle_frame(
        &self,
        store: &mut PeerStore,
        conn: ConnId,
        read: usize,
        buffer: &[u8; BUFFER_SIZE],
    ) -> (step: ReadStep)
        requires
            old(store).wf(),
        ensures
            final(store).wf(),
            match step {
                ReadStep::Closed => read == 0 && final(store)@ == old(store)@,
                ReadStep::Dropped(error) => {
                    &&& read != 0
                    &&& kind_from_bytes(buffer@) == Err::<MessageKindView, DecodeError>(error)
                    &&& final(store)@ == old(store)@
                },
                ReadStep::Delivered(delivery) => {
                    &&& read != 0
                    &&& kind_from_bytes(buffer@) == Ok::<MessageKindView, DecodeError>(
                        delivery.kind@,
                    )
                    &&& answers_of(self.spec_protocols(), delivery.kind@, delivery.reactions@)
                    &&& match delivery.kind@ {
                        MessageKindView::Handshake(message) => {
                            &&& final(store)@ == with_peer(old(store)@, message.from, conn)
                            &&& delivery.registration matches Some(registration)
                            &&& registration.superseded == replaced(old(store)@, message.from, conn)
                            &&& registration.line@ == connected_line(final(store)@)
                        },
                        _ => final(store)@ == old(store)@ && delivery.registration is None,
                    }
                },
            },
    {
        if read == 0 {
            return ReadStep::Closed;
        }
        match MessageKind::from_frame(buffer) {
            Err(error) => ReadStep::Dropped(error),
            Ok(kind) => {
                let registration = match &kind {
                    MessageKind::Handshake(message) => Some(
                        self.add_peer(store, message.from, conn),
                    ),
                    _ => None,
                };
                let reactions = self.dispatch(&kind);
                ReadStep::Delivered(Delivery { kind, registration, reactions })
            },
        }
    }
}

/// A node never dials its own address, whatever peers it has.
pub proof fn lemma_no_self_connect(own: PeerAddr, entries: Seq<PeerEntry>)
    ensures
        connect_plan(own, entries, own) == ConnectPlan::Nothing,
{
}

/// A node does not dial a peer that it has registered.
pub proof fn lemma_connect_once(
    own: PeerAddr,
    entries: Seq<PeerEntry>,
    addr: PeerAddr,
    conn: ConnId,
)
    requires
        crate::peer_store::distinct(entries),
    ensures
        connect_plan(own, with_peer(entries, addr, conn), addr) == ConnectPlan::Nothing,
{
    lemma_with_peer(entries, addr, conn);
    assert(crate::peer_store::as_map(with_peer(entries, addr, conn)).dom().contains(addr));
}

} // verus!
