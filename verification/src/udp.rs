//! The messages of the compact binary protocol, as values.

use crate::common::{AnnounceEvent, InfoHash, IpAddress, PeerId};
use crate::peers::{ConnectionId, Port, ResponsePeer};
use vstd::prelude::*;

verus! {

/// The number by which a client tells the answers to its requests apart.
#[derive(Clone, Copy, Debug, PartialEq, Eq, Hash, Structural)]
pub struct TransactionId(pub i32);

/// A number of peers.
#[derive(Clone, Copy, Debug, PartialEq, Eq, Hash, Structural)]
pub struct NumberOfPeers(pub i32);

/// A number of finished downloads.
#[derive(Clone, Copy, Debug, PartialEq, Eq, Hash, Structural)]
pub struct NumberOfDownloads(pub i32);

/// A number of bytes.
#[derive(Clone, Copy, Debug, PartialEq, Eq, Hash, Structural)]
pub struct NumberOfBytes(pub i64);

/// The seconds a client should wait before it announces again.
#[derive(Clone, Copy, Debug, PartialEq, Eq, Hash, Structural)]
pub struct AnnounceInterval(pub i32);

/// A number that a client sends along to be recognised by.
#[derive(Clone, Copy, Debug, PartialEq, Eq, Hash, Structural)]
pub struct PeerKey(pub u32);

/// Asks for a connection token.
#[derive(Clone, Copy, Debug, PartialEq, Eq, Structural)]
pub struct ConnectRequest {
    pub transaction_id: TransactionId,
}

/// Tells the tracker what a peer holds of a swarm's content, and asks for
/// other peers of that swarm.
#[derive(Clone, Copy, Debug)]
pub struct AnnounceRequest {
    pub connection_id: ConnectionId,
    pub transaction_id: TransactionId,
    pub info_hash: InfoHash,
    pub peer_id: PeerId,
    pub bytes_downloaded: NumberOfBytes,
    pub bytes_uploaded: NumberOfBytes,
    pub bytes_left: NumberOfBytes,
    pub event: AnnounceEvent,
    pub ip_address: Option<IpAddress>,
    pub key: PeerKey,
    pub peers_wanted: NumberOfPeers,
    pub port: Port,
}

/// Asks for the statistics of some swarms.
#[derive(Clone, Debug)]
pub struct ScrapeRequest {
    pub connection_id: ConnectionId,
    pub transaction_id: TransactionId,
    pub info_hashes: Vec<InfoHash>,
}

/// Hands out a connection token.
#[derive(Clone, Copy, Debug, PartialEq, Eq, Structural)]
pub struct ConnectResponse {
    pub connection_id: ConnectionId,
    pub transaction_id: TransactionId,
}

/// Answers an announce.
#[derive(Clone, Debug)]
pub struct AnnounceResponse {
    pub transaction_id: TransactionId,
    pub announce_interval: AnnounceInterval,
    pub leechers: NumberOfPeers,
    pub seeders: NumberOfPeers,
    pub peers: Vec<ResponsePeer>,
}

/// The statistics of one swarm.
#[derive(Clone, Copy, Debug, PartialEq, Eq, Structural)]
pub struct TorrentScrapeStatistics {
    pub seeders: NumberOfPeers,
    pub completed: NumberOfDownloads,
    pub leechers: NumberOfPeers,
}

/// Answers a scrape: one entry for each info hash asked for, in the order
/// asked.
#[derive(Clone, Debug)]
pub struct ScrapeResponse {
    pub transaction_id: TransactionId,
    pub torrent_stats: Vec<TorrentScrapeStatistics>,
}

/// Tells a client that its request failed, and why.
#[derive(Clone, Debug)]
pub struct ErrorResponse {
    pub transaction_id: TransactionId,
    pub message: String,
}

/// Any answer of the tracker.
#[derive(Clone, Debug)]
pub enum Response {
    Connect(ConnectResponse),
    Announce(AnnounceResponse),
    Scrape(ScrapeResponse),
    Error(ErrorResponse),
}

} // verus!
