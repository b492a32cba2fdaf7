//! The messages of the HTTP protocol, as values, and the compact form in
//! which an announce is answered with peers.

use crate::common::{AnnounceEvent, InfoHash, IpAddress, PeerId, SocketAddress, ValidUntil};
use crate::peers::PeerStatus;
use crate::scrape::StatsMap;
use vstd::prelude::*;

verus! {

/// Names one connection among those that a socket worker polls. Zero names
/// the listener, never a connection.
#[derive(Clone, Copy, Debug, PartialEq, Eq, Hash, Structural)]
pub struct Token(pub usize);

/// What travels with a request to the swarm logic, so that the answer finds
/// its way back: the socket worker, the connection, and the address of the
/// peer when the request was passed on.
#[derive(Clone, Copy, Debug, PartialEq, Eq, Hash, Structural)]
pub struct ConnectionMeta {
    pub worker_index: usize,
    pub poll_token: Token,
    pub peer_addr: SocketAddress,
}

/// One participant of a swarm, as a stream-oriented protocol knows it: by
/// the connection that it announced on.
#[derive(Clone, Copy, Debug)]
pub struct Peer {
    pub connection_meta: ConnectionMeta,
    pub port: u16,
    pub status: PeerStatus,
    pub valid_until: ValidUntil,
}

/// The form in which a peer is handed to other peers: where to reach it.
#[derive(Clone, Copy, Debug, PartialEq, Eq, Hash, Structural)]
pub struct ResponsePeer {
    pub ip_address: IpAddress,
    pub port: u16,
}

impl ResponsePeer {
    /// Where `peer` can be reached: at the address its connection comes
    /// from, on the port it announced.
    pub open spec fn spec_from_peer(peer: &Peer) -> ResponsePeer {
        ResponsePeer { ip_address: peer.connection_meta.peer_addr.ip, port: peer.port }
    }

    /// Where `peer` can be reached: at the address its connection comes
    /// from, on the port it announced.
    #[verifier::when_used_as_spec(spec_from_peer)]
    pub fn from_peer(peer: &Peer) -> (response_peer: ResponsePeer)
        ensures
            response_peer == ResponsePeer::spec_from_peer(peer),
    {
        let ip_address = peer.connection_meta.peer_addr.ip;
        ResponsePeer { ip_address, port: peer.port }
    }
}

/// Tells the tracker what a peer holds of a swarm's content, and asks for
/// other peers of that swarm.
#[derive(Clone, Copy, Debug)]
pub struct AnnounceRequest {
    pub info_hash: InfoHash,
    pub peer_id: PeerId,
    pub port: u16,
    pub bytes_left: usize,
    pub event: AnnounceEvent,
    /// Whether peers are wanted in the compact form: zero or one.
    pub compact: u8,
    /// The number of peers asked for.
    pub numwant: usize,
}

/// Answers an announce.
#[derive(Clone, Debug)]
pub struct AnnounceResponseSuccess {
    pub announce_interval: usize,
    pub tracker_id: String,
    pub complete: usize,
    pub incomplete: usize,
    pub peers: Vec<ResponsePeer>,
}

/// Tells a peer that its request failed, and why.
#[derive(Clone, Debug)]
pub struct AnnounceResponseFailure {
    pub failure_reason: String,
}

/// Asks for the statistics of some swarms.
#[derive(Clone, Debug)]
pub struct ScrapeRequest {
    pub info_hashes: Vec<InfoHash>,
}

/// Answers a scrape.
pub struct ScrapeResponse {
    pub files: StatsMap,
}

/// Any request of a peer.
#[derive(Clone, Debug)]
pub enum Request {
    Announce(AnnounceRequest),
    Scrape(ScrapeRequest),
}

/// Any answer of the tracker.
pub enum Response {
    AnnounceSuccess(AnnounceResponseSuccess),
    AnnounceFailure(AnnounceResponseFailure),
    Scrape(ScrapeResponse),
}

} // verus!
