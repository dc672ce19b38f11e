//! Peer addresses, and their rendering as text by the socket-address type of `async_std::net`.

use crate::bytes::{
    be_octets, be_value, from_be_octets, lemma_be_value_bound, octet_span, to_be_octets,
};
use vstd::prelude::*;

verus! {

/// The address of a peer: an IP address of either family with a port.
///
/// The address itself is kept as one number in network order: the first octet of an IPv4
/// address is the most significant of its 32 bits, the first segment of an IPv6 address the
/// most significant of its 128 bits. An IPv6 address also carries its flow information and
/// the scope it belongs to.
#[derive(Clone, Copy, Debug, PartialEq, Eq, Hash, Structural)]
#[allow(inconsistent_fields)]
pub enum PeerAddr {
    V4 { ip: u32, port: u16 },
    V6 { ip: u128, port: u16, flowinfo: u32, scope_id: u32 },
}

/// The text that `async_std::net::SocketAddr` renders for `addr`: `a.b.c.d:port` for IPv4, the
/// bracketed form with the port behind it for IPv6.
pub uninterp spec fn socket_addr_text(addr: PeerAddr) -> Seq<char>;

/// The address that `async_std::net::SocketAddr` reads from `text`, if it reads one.
pub uninterp spec fn socket_addr_parse(text: Seq<char>) -> Option<PeerAddr>;

/// Whether `addr` is read back from its own text.
pub open spec fn reads_back(addr: PeerAddr) -> bool {
    socket_addr_parse(socket_addr_text(addr)) == Some(addr)
}

/// Builds the `async_std::net::SocketAddr` that has the fields of `addr` and calls `to_string`
/// on it.
///
/// Trusted: the text depends on the address alone; `socket_addr_text` names it.
#[verifier::external_body]
fn render(addr: &PeerAddr) -> (text: String)
    ensures
        text@ == socket_addr_text(*addr),
{
    let std_addr = match *addr {
        PeerAddr::V4 { ip, port } => async_std::net::SocketAddr::V4(
            async_std::net::SocketAddrV4::new(async_std::net::Ipv4Addr::from(ip), port),
        ),
        PeerAddr::V6 { ip, port, flowinfo, scope_id } => async_std::net::SocketAddr::V6(
            async_std::net::SocketAddrV6::new(
                async_std::net::Ipv6Addr::from(ip),
                port,
                flowinfo,
                scope_id,
            ),
        ),
    };
    std_addr.to_string()
}

/// Calls `str::parse::<async_std::net::SocketAddr>` on `text` and moves the fields of what it
/// returns into a `PeerAddr`; an error becomes `None`.
///
/// Trusted: the outcome depends on the text alone; `socket_addr_parse` names it.
#[verifier::external_body]
fn parse(text: &str) -> (addr: Option<PeerAddr>)
    ensures
        addr == socket_addr_parse(text@),
{
    match text.parse::<async_std::net::SocketAddr>() {
        Ok(async_std::net::SocketAddr::V4(v4)) => Some(
            PeerAddr::V4 { ip: u32::from(*v4.ip()), port: v4.port() },
        ),
        Ok(async_std::net::SocketAddr::V6(v6)) => Some(
            PeerAddr::V6 {
                ip: u128::from(*v6.ip()),
                port: v6.port(),
                flowinfo: v6.flowinfo(),
                scope_id: v6.scope_id(),
            },
        ),
        Err(_) => None,
    }
}

impl PeerAddr {
    /// The port of the address.
    pub open spec fn spec_port(self) -> u16 {
        match self {
            PeerAddr::V4 { port, .. } => port,
            PeerAddr::V6 { port, .. } => port,
        }
    }

    /// The number of the address's family: 4 or 6.
    pub open spec fn family(self) -> u8 {
        match self {
            PeerAddr::V4 { .. } => 4,
            PeerAddr::V6 { .. } => 6,
        }
    }

    /// The octets of the IP address in network order: four for IPv4, sixteen for IPv6.
    pub open spec fn ip_octets(self) -> Seq<u8> {
        match self {
            PeerAddr::V4 { ip, .. } => be_octets(ip as nat, 4),
            PeerAddr::V6 { ip, .. } => be_octets(ip as nat, 16),
        }
    }

    /// The address that `octets` and `port` make: IPv4 from four octets, IPv6 (without flow
    /// information or scope) from sixteen, none from any other number of them.
    pub open spec fn of_octets(octets: Seq<u8>, port: u16) -> Option<PeerAddr> {
        if octets.len() == 4 {
            Some(PeerAddr::V4 { ip: be_value(octets) as u32, port })
        } else if octets.len() == 16 {
            Some(PeerAddr::V6 { ip: be_value(octets) as u128, port, flowinfo: 0, scope_id: 0 })
        } else {
            None
        }
    }

    /// The octets of the IP address in network order.
    pub fn octets(&self) -> (octets: Vec<u8>)
        ensures
            octets@ == self.ip_octets(),
    {
        match *self {
            PeerAddr::V4 { ip, .. } => to_be_octets(ip as u128, 4),
            PeerAddr::V6 { ip, .. } => to_be_octets(ip, 16),
        }
    }

    /// The address with the IP address that `octets` spell in network order.
    pub fn from_octets(octets: &[u8], port: u16) -> (addr: Option<PeerAddr>)
        ensures
            addr == PeerAddr::of_octets(octets@, port),
    {
        if octets.len() == 4 {
            proof {
                lemma_be_value_bound(octets@);
                reveal_with_fuel(octet_span, 5);
            }
            Some(PeerAddr::V4 { ip: from_be_octets(octets) as u32, port })
        } else if octets.len() == 16 {
            Some(PeerAddr::V6 { ip: from_be_octets(octets), port, flowinfo: 0, scope_id: 0 })
        } else {
            None
        }
    }

    /// The IPv4 address with these octets and this port.
    pub fn v4(octets: [u8; 4], port: u16) -> (addr: PeerAddr)
        ensures
            addr == (PeerAddr::V4 { ip: be_value(octets@) as u32, port }),
    {
        proof {
            lemma_be_value_bound(octets@);
            reveal_with_fuel(octet_span, 5);
        }
        PeerAddr::V4 { ip: from_be_octets(octets.as_slice()) as u32, port }
    }

    /// The IPv6 address with these octets and this port, without flow information or scope.
    pub fn v6(octets: [u8; 16], port: u16) -> (addr: PeerAddr)
        ensures
            addr == (PeerAddr::V6 { ip: be_value(octets@) as u128, port, flowinfo: 0, scope_id: 0 }),
    {
        PeerAddr::V6 { ip: from_be_octets(octets.as_slice()), port, flowinfo: 0, scope_id: 0 }
    }

    /// The port of the address.
    pub fn port(&self) -> (port: u16)
        ensures
            port == self.spec_port(),
    {
        match *self {
            PeerAddr::V4 { port, .. } => port,
            PeerAddr::V6 { port, .. } => port,
        }
    }

    /// The address as text.
    pub fn to_text(&self) -> (text: String)
        ensures
            text@ == socket_addr_text(*self),
    {
        render(self)
    }

    /// The address that `text` spells, if it spells one.
    pub fn from_text(text: &str) -> (addr: Option<PeerAddr>)
        ensures
            addr == socket_addr_parse(text@),
    {
        parse(text)
    }
}

} // verus!
