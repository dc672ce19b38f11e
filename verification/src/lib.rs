//! The core of a small peer-to-peer node: the wire format of its messages, the registry of
//! its peers, and the decisions of the node and of the two protocols that it runs, gossip
//! discovery and the direct flood.
//!
//! Nothing here opens a socket, waits or prints. Every function takes what has happened and
//! answers with what is to be done, and says in its contract exactly what that is.

pub mod addr;
pub mod bytes;
pub mod direct_flood;
pub mod gossip;
pub mod gossip_discovery;
pub mod message;
pub mod peer;
pub mod peer_store;
pub mod protocol;
pub mod text;
pub mod utils;
