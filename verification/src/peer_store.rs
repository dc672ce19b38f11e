//! The peer registry: which connection serves which peer address.
//!
//! The registry keeps its entries in the order in which their addresses were first seen, one
//! entry for each address. A connection is named by a `ConnId`; whoever owns the sockets
//! keeps them under these names and closes the one that the registry hands back.

use crate::addr::PeerAddr;
use vstd::prelude::*;

verus! {

/// The name of an open connection.
pub type ConnId = u64;

/// One entry of the registry: a peer's address and the connection that serves it.
#[derive(Clone, Copy, Debug, PartialEq, Eq, Structural)]
pub struct PeerEntry {
    pub addr: PeerAddr,
    pub conn: ConnId,
}

/// Where the first entry for `addr` stands in `entries`; their length if there is none.
pub open spec fn position(entries: Seq<PeerEntry>, addr: PeerAddr) -> int
    decreases entries.len(),
{
    if entries.len() == 0 {
        0
    } else if entries[0].addr == addr {
        0
    } else {
        1 + position(entries.drop_first(), addr)
    }
}

/// Whether `entries` hold an entry for `addr`.
pub open spec fn has_addr(entries: Seq<PeerEntry>, addr: PeerAddr) -> bool {
    position(entries, addr) < entries.len()
}

/// The connection that `entries` hold for `addr`.
pub open spec fn lookup(entries: Seq<PeerEntry>, addr: PeerAddr) -> Option<ConnId> {
    if has_addr(entries, addr) {
        Some(entries[position(entries, addr)].conn)
    } else {
        None
    }
}

/// Whether no two of `entries` have the same address.
pub open spec fn distinct(entries: Seq<PeerEntry>) -> bool {
    forall|i: int, j: int|
        0 <= i < j < entries.len() ==> (#[trigger] entries[i]).addr != (#[trigger] entries[j]).addr
}

/// `entries` after `conn` was registered for `addr`: it takes the place of the connection
/// that was there for `addr`, or comes last.
pub open spec fn with_peer(entries: Seq<PeerEntry>, addr: PeerAddr, conn: ConnId) -> Seq<
    PeerEntry,
> {
    if has_addr(entries, addr) {
        entries.update(position(entries, addr), PeerEntry { addr, conn })
    } else {
        entries.push(PeerEntry { addr, conn })
    }
}

/// The connection that leaves `entries` when `conn` is registered for `addr`: the one that
/// served `addr` before, unless that is `conn` itself.
pub open spec fn replaced(entries: Seq<PeerEntry>, addr: PeerAddr, conn: ConnId) -> Option<
    ConnId,
> {
    match lookup(entries, addr) {
        Some(before) => if before == conn {
            None
        } else {
            Some(before)
        },
        None => None,
    }
}

/// `entries` without the entry for `addr`.
pub open spec fn without_peer(entries: Seq<PeerEntry>, addr: PeerAddr) -> Seq<PeerEntry> {
    if has_addr(entries, addr) {
        entries.remove(position(entries, addr))
    } else {
        entries
    }
}

/// The table that `entries` spell out.
pub open spec fn as_map(entries: Seq<PeerEntry>) -> Map<PeerAddr, ConnId> {
    Map::new(
        |addr: PeerAddr| has_addr(entries, addr),
        |addr: PeerAddr| entries[position(entries, addr)].conn,
    )
}

/// `position` finds the first entry for the address, and all entries before it are for others.
pub proof fn lemma_position(entries: Seq<PeerEntry>, addr: PeerAddr)
    ensures
        0 <= position(entries, addr) <= entries.len(),
        has_addr(entries, addr) ==> entries[position(entries, addr)].addr == addr,
        forall|i: int| 0 <= i < position(entries, addr) ==> (#[trigger] entries[i]).addr != addr,
    decreases entries.len(),
{
    if entries.len() > 0 && entries[0].addr != addr {
        let rest = entries.drop_first();
        lemma_position(rest, addr);
        assert forall|i: int| 0 <= i < position(entries, addr) implies (#[trigger] entries[i]).addr
            != addr by {
            if i > 0 {
                assert(entries[i] == rest[i - 1]);
            }
        }
    }
}

/// An entry for the address at `at` puts the first one at `at` or before it; among distinct
/// entries, at `at`.
pub proof fn lemma_position_of_entry(entries: Seq<PeerEntry>, at: int)
    requires
        0 <= at < entries.len(),
    ensures
        position(entries, entries[at].addr) <= at,
        distinct(entries) ==> position(entries, entries[at].addr) == at,
{
    let addr = entries[at].addr;
    lemma_position(entries, addr);
    if position(entries, addr) > at {
        assert(entries[at].addr != addr);
    }
}

/// What registering does to the registry as a table: the address now leads to the new
/// connection, every other address to what it led to before, and no address is there twice.
pub proof fn lemma_with_peer(entries: Seq<PeerEntry>, addr: PeerAddr, conn: ConnId)
    requires
        distinct(entries),
    ensures
        distinct(with_peer(entries, addr, conn)),
        as_map(with_peer(entries, addr, conn)) == as_map(entries).insert(addr, conn),
{
    let after = with_peer(entries, addr, conn);
    lemma_position(entries, addr);
    assert forall|i: int, j: int| 0 <= i < j < after.len() implies (#[trigger] after[i]).addr != (
    #[trigger] after[j]).addr by {
        if has_addr(entries, addr) {
            assert(entries[i].addr != entries[j].addr);
        } else if j == entries.len() {
            lemma_position_of_entry(entries, i);
        } else {
            assert(entries[i].addr != entries[j].addr);
        }
    }
    assert forall|other: PeerAddr|
        has_addr(after, other) == (other == addr || has_addr(entries, other)) && (has_addr(
            after,
            other,
        ) ==> after[position(after, other)].conn == if other == addr {
            conn
        } else {
            entries[position(entries, other)].conn
        }) by {
        lemma_position(entries, other);
        lemma_position(after, other);
        if has_addr(entries, other) {
            let at = position(entries, other);
            assert(after[at].addr == other);
            lemma_position_of_entry(after, at);
        } else if other == addr {
            lemma_position_of_entry(after, entries.len() as int);
        } else if has_addr(after, other) {
            let at = position(after, other);
            assert(entries[at].addr == other);
            lemma_position_of_entry(entries, at);
        }
    }
    assert(as_map(after) =~= as_map(entries).insert(addr, conn));
}

/// What removing does to the registry as a table: the address leads nowhere, every other
/// address to what it led to before, and no address is there twice.
pub proof fn lemma_without_peer(entries: Seq<PeerEntry>, addr: PeerAddr)
    requires
        distinct(entries),
    ensures
        distinct(without_peer(entries, addr)),
        as_map(without_peer(entries, addr)) == as_map(entries).remove(addr),
{
    let after = without_peer(entries, addr);
    lemma_position(entries, addr);
    let gone = position(entries, addr);
    assert forall|i: int, j: int| 0 <= i < j < after.len() implies (#[trigger] after[i]).addr != (
    #[trigger] after[j]).addr by {
        if has_addr(entries, addr) {
            let from_i = if i < gone { i } else { i + 1 };
            let from_j = if j < gone { j } else { j + 1 };
            assert(entries[from_i].addr != entries[from_j].addr);
        } else {
            assert(entries[i].addr != entries[j].addr);
        }
    }
    assert forall|other: PeerAddr|
        has_addr(after, other) == (other != addr && has_addr(entries, other)) && (has_addr(
            after,
            other,
        ) ==> after[position(after, other)].conn == entries[position(entries, other)].conn) by {
        lemma_position(entries, other);
        lemma_position(after, other);
        if has_addr(entries, addr) {
            if has_addr(after, other) {
                let at = position(after, other);
                let from = if at < gone { at } else { at + 1 };
                assert(entries[from].addr == other);
                lemma_position_of_entry(entries, from);
                lemma_position_of_entry(entries, gone);
            } else if other != addr && has_addr(entries, other) {
                let from = position(entries, other);
                let at = if from < gone { from } else { from - 1 };
                assert(after[at].addr == other);
                lemma_position_of_entry(after, at);
            }
        }
    }
    assert(as_map(after) =~= as_map(entries).remove(addr));
}

/// `entries` without those that `conn` serves.
pub open spec fn without_conn(entries: Seq<PeerEntry>, conn: ConnId) -> Seq<PeerEntry>
    decreases entries.len(),
{
    if entries.len() == 0 {
        entries
    } else if entries.last().conn == conn {
        without_conn(entries.drop_last(), conn)
    } else {
        without_conn(entries.drop_last(), conn).push(entries.last())
    }
}

/// The addresses of those of `entries` that `conn` serves, in order.
pub open spec fn addrs_of_conn(entries: Seq<PeerEntry>, conn: ConnId) -> Seq<PeerAddr>
    decreases entries.len(),
{
    if entries.len() == 0 {
        Seq::empty()
    } else if entries.last().conn == conn {
        addrs_of_conn(entries.drop_last(), conn).push(entries.last().addr)
    } else {
        addrs_of_conn(entries.drop_last(), conn)
    }
}

/// Looking an address up behind one more entry: the entries before it are asked first.
pub proof fn lemma_lookup_push(entries: Seq<PeerEntry>, entry: PeerEntry, addr: PeerAddr)
    ensures
        lookup(entries.push(entry), addr) == if has_addr(entries, addr) {
            lookup(entries, addr)
        } else if entry.addr == addr {
            Some(entry.conn)
        } else {
            None
        },
        position(entries.push(entry), addr) == if has_addr(entries, addr) || entry.addr == addr {
            position(entries, addr)
        } else {
            entries.len() as int + 1
        },
    decreases entries.len(),
{
    let longer = entries.push(entry);
    if entries.len() == 0 {
        assert(longer.drop_first() =~= entries);
        assert(longer[0] == entry);
    } else {
        let rest = entries.drop_first();
        let longer_rest = rest.push(entry);
        assert(longer.drop_first() =~= longer_rest);
        assert(longer[0] == entries[0]);
        if entries[0].addr != addr {
            lemma_lookup_push(rest, entry, addr);
            lemma_position(rest, addr);
            lemma_position(longer_rest, addr);
            if has_addr(longer_rest, addr) {
                assert(longer[1 + position(longer_rest, addr)] == longer_rest[position(
                    longer_rest,
                    addr,
                )]);
            }
            if has_addr(rest, addr) {
                assert(entries[1 + position(rest, addr)] == rest[position(rest, addr)]);
            }
        }
    }
}

/// Among distinct entries, all but the last are distinct and none of them has its address.
pub proof fn lemma_distinct_front(entries: Seq<PeerEntry>)
    requires
        distinct(entries),
        entries.len() > 0,
    ensures
        distinct(entries.drop_last()),
        !has_addr(entries.drop_last(), entries.last().addr),
{
    let front = entries.drop_last();
    assert forall|i: int, j: int| 0 <= i < j < front.len() implies (#[trigger] front[i]).addr != (
    #[trigger] front[j]).addr by {
        assert(entries[i].addr != entries[j].addr);
    }
    lemma_position(front, entries.last().addr);
    if has_addr(front, entries.last().addr) {
        let at = position(front, entries.last().addr);
        assert(entries[at].addr != entries[entries.len() - 1].addr);
    }
}

/// Dropping the entries of a connection leaves exactly the entries of the others, each
/// address with the connection that it had, and no address twice.
pub proof fn lemma_without_conn(entries: Seq<PeerEntry>, conn: ConnId)
    requires
        distinct(entries),
    ensures
        distinct(without_conn(entries, conn)),
        forall|addr: PeerAddr|
            #[trigger] lookup(without_conn(entries, conn), addr) == if lookup(entries, addr)
                == Some(conn) {
                None
            } else {
                lookup(entries, addr)
            },
    decreases entries.len(),
{
    let after = without_conn(entries, conn);
    if entries.len() > 0 {
        let front = entries.drop_last();
        let last = entries.last();
        let kept = without_conn(front, conn);
        lemma_distinct_front(entries);
        lemma_without_conn(front, conn);
        assert(entries =~= front.push(last));
        assert(lookup(kept, last.addr) is None);
        assert forall|addr: PeerAddr|
            lookup(after, addr) == if lookup(entries, addr) == Some(conn) {
                None
            } else {
                lookup(entries, addr)
            } by {
            lemma_lookup_push(front, last, addr);
            lemma_lookup_push(kept, last, addr);
        }
        if last.conn != conn {
            assert forall|i: int, j: int| 0 <= i < j < after.len() implies (#[trigger] after[i]).addr
                != (#[trigger] after[j]).addr by {
                if j == kept.len() {
                    assert(after[i] == kept[i]);
                    lemma_position_of_entry(kept, i);
                } else {
                    assert(kept[i].addr != kept[j].addr);
                }
            }
        }
    }
}

/// The registry of the peers that a node is connected to.
#[derive(Debug)]
pub struct PeerStore {
    entries: Vec<PeerEntry>,
}

impl View for PeerStore {
    type V = Seq<PeerEntry>;

    closed spec fn view(&self) -> Seq<PeerEntry> {
        self.entries@
    }
}

impl PeerStore {
    /// Whether the registry holds at most one entry for each address. Every registry that
    /// `new` has made and the methods have changed does.
    pub open spec fn wf(&self) -> bool {
        distinct(self@)
    }

    /// A registry without entries.
    pub fn new() -> (store: PeerStore)
        ensures
            store@ == Seq::<PeerEntry>::empty(),
            store.wf(),
    {
        PeerStore { entries: Vec::new() }
    }

    /// Where the first entry for `addr` stands; the number of entries if there is none.
    fn find(&self, addr: &PeerAddr) -> (at: usize)
        ensures
            at == position(self@, *addr),
            at <= self@.len(),
    {
        let mut at: usize = 0;
        proof {
            assert(self.entries@.subrange(0, self.entries@.len() as int) =~= self.entries@);
        }
        while at < self.entries.len() && self.entries[at].addr != *addr
            invariant
                at <= self.entries@.len(),
                position(self.entries@, *addr) == at + position(
                    self.entries@.subrange(at as int, self.entries@.len() as int),
                    *addr,
                ),
            decreases self.entries@.len() - at,
        {
            proof {
                let rest = self.entries@.subrange(at as int, self.entries@.len() as int);
                assert(rest.drop_first() =~= self.entries@.subrange(
                    at + 1,
                    self.entries@.len() as int,
                ));
            }
            at += 1;
        }
        proof {
            let rest = self.entries@.subrange(at as int, self.entries@.len() as int);
            if at < self.entries@.len() {
                assert(rest[0] == self.entries@[at as int]);
            }
        }
        at
    }

    /// A snapshot of the registry: its entries, in the order in which their addresses were
    /// first registered, no address twice.
    pub fn get_peers(&self) -> (peers: Vec<PeerEntry>)
        ensures
            peers@ == self@,
    {
        let mut peers: Vec<PeerEntry> = Vec::new();
        let mut i: usize = 0;
        while i < self.entries.len()
            invariant
                i <= self.entries@.len(),
                peers@ == self.entries@.subrange(0, i as int),
            decreases self.entries@.len() - i,
        {
            peers.push(self.entries[i]);
            i += 1;
            proof {
                assert(peers@ =~= self.entries@.subrange(0, i as int));
            }
        }
        proof {
            assert(self.entries@.subrange(0, i as int) =~= self.entries@);
        }
        peers
    }

    /// Whether a connection is registered for `addr`.
    pub fn has_peer(&self, addr: &PeerAddr) -> (known: bool)
        ensures
            known == has_addr(self@, *addr),
    {
        self.find(addr) < self.entries.len()
    }

    /// The connection that is registered for `addr`.
    pub fn get_peer(&self, addr: &PeerAddr) -> (conn: Option<ConnId>)
        ensures
            conn == lookup(self@, *addr),
    {
        let at = self.find(addr);
        if at < self.entries.len() {
            Some(self.entries[at].conn)
        } else {
            None
        }
    }

    /// Registers `conn` for `addr`. Where another connection was registered for `addr`, the
    /// new one takes its place and the old one is handed back, to be closed.
    pub fn add_peer(&mut self, addr: PeerAddr, conn: ConnId) -> (superseded: Option<ConnId>)
        requires
            old(self).wf(),
        ensures
            final(self).wf(),
            final(self)@ == with_peer(old(self)@, addr, conn),
            superseded == replaced(old(self)@, addr, conn),
    {
        proof {
            lemma_with_peer(self.entries@, addr, conn);
        }
        let at = self.find(&addr);
        if at < self.entries.len() {
            let before = self.entries[at].conn;
            self.entries[at] = PeerEntry { addr, conn };
            if before == conn {
                None
            } else {
                Some(before)
            }
        } else {
            self.entries.push(PeerEntry { addr, conn });
            None
        }
    }

    /// Removes the entry for `addr` and hands its connection back, to be closed. Where there
    /// is no entry for `addr`, nothing changes.
    pub fn remove_peer(&mut self, addr: PeerAddr) -> (closed: Option<ConnId>)
        requires
            old(self).wf(),
        ensures
            final(self).wf(),
            final(self)@ == without_peer(old(self)@, addr),
            closed == lookup(old(self)@, addr),
    {
        proof {
            lemma_without_peer(self.entries@, addr);
        }
        let at = self.find(&addr);
        if at < self.entries.len() {
            let entry = self.entries.remove(at);
            Some(entry.conn)
        } else {
            None
        }
    }

    /// The entries of all peers but the one at `addr`.
    pub fn peers_except(&self, addr: &PeerAddr) -> (peers: Vec<PeerEntry>)
        ensures
            peers@ == without_peer(self@, *addr),
    {
        let mut peers = self.get_peers();
        let at = self.find(addr);
        if at < peers.len() {
            peers.remove(at);
        }
        peers
    }

    /// Removes the entries that `conn` serves, as when that connection has ended, and hands
    /// back their addresses.
    pub fn remove_conn(&mut self, conn: ConnId) -> (removed: Vec<PeerAddr>)
        requires
            old(self).wf(),
        ensures
            final(self).wf(),
            final(self)@ == without_conn(old(self)@, conn),
            removed@ == addrs_of_conn(old(self)@, conn),
    {
        proof {
            lemma_without_conn(self.entries@, conn);
        }
        let mut kept: Vec<PeerEntry> = Vec::new();
        let mut removed: Vec<PeerAddr> = Vec::new();
        let mut i: usize = 0;
        while i < self.entries.len()
            invariant
                i <= self.entries@.len(),
                kept@ == without_conn(self.entries@.subrange(0, i as int), conn),
                removed@ == addrs_of_conn(self.entries@.subrange(0, i as int), conn),
            decreases self.entries@.len() - i,
        {
            proof {
                assert(self.entries@.subrange(0, i + 1).drop_last() =~= self.entries@.subrange(
                    0,
                    i as int,
                ));
            }
            let entry = self.entries[i];
            if entry.conn == conn {
                removed.push(entry.addr);
            } else {
                kept.push(entry);
            }
            i += 1;
        }
        proof {
            assert(self.entries@.subrange(0, i as int) =~= self.entries@);
        }
        self.entries = kept;
        removed
    }
}

/// Once an address has been registered and then removed, the registry does not hold it.
pub proof fn lemma_register_then_remove(entries: Seq<PeerEntry>, addr: PeerAddr, conn: ConnId)
    requires
        distinct(entries),
    ensures
        !has_addr(without_peer(with_peer(entries, addr, conn), addr), addr),
        lookup(without_peer(with_peer(entries, addr, conn), addr), addr) is None,
{
    let registered = with_peer(entries, addr, conn);
    lemma_with_peer(entries, addr, conn);
    lemma_without_peer(registered, addr);
    assert(!as_map(without_peer(registered, addr)).dom().contains(addr));
}

/// Once two connections have been registered for one address, one after the other, the
/// registry holds the second for it and nothing of the first: it is as if the first had
/// never been registered, and the address is there once.
pub proof fn lemma_register_twice(
    entries: Seq<PeerEntry>,
    addr: PeerAddr,
    first: ConnId,
    second: ConnId,
)
    requires
        distinct(entries),
    ensures
        lookup(with_peer(with_peer(entries, addr, first), addr, second), addr) == Some(second),
        with_peer(with_peer(entries, addr, first), addr, second) == with_peer(
            entries,
            addr,
            second,
        ),
        distinct(with_peer(with_peer(entries, addr, first), addr, second)),
{
    let once = with_peer(entries, addr, first);
    let twice = with_peer(once, addr, second);
    lemma_with_peer(entries, addr, first);
    lemma_with_peer(once, addr, second);
    lemma_position(entries, addr);
    lemma_position(once, addr);
    assert(as_map(once).dom().contains(addr));
    assert(as_map(twice).dom().contains(addr) && as_map(twice)[addr] == second);
    if has_addr(entries, addr) {
        lemma_position_of_entry(once, position(entries, addr));
    } else {
        lemma_position_of_entry(once, entries.len() as int);
    }
    assert(twice =~= with_peer(entries, addr, second));
}

/// Removing an address twice is removing it once.
pub proof fn lemma_remove_twice(entries: Seq<PeerEntry>, addr: PeerAddr)
    requires
        distinct(entries),
    ensures
        without_peer(without_peer(entries, addr), addr) == without_peer(entries, addr),
{
    lemma_without_peer(entries, addr);
    assert(!as_map(without_peer(entries, addr)).dom().contains(addr));
}

impl Default for PeerStore {
    fn default() -> (store: PeerStore)
        ensures
            store@ == Seq::<PeerEntry>::empty(),
            store.wf(),
    {
        PeerStore::new()
    }
}

} // verus!
