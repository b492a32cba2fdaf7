//! The messages of the WebSocket protocol, as values.

use crate::common::{AnnounceEvent, InfoHash, PeerId, SocketAddress};
use crate::scrape::{PendingScrapeId, StatsMap};
use vstd::prelude::*;

verus! {

/// Names one live connection of a socket worker.
#[derive(Clone, Copy, Debug, PartialEq, Eq, Hash, Structural)]
pub struct ConnectionId(pub usize);

/// Names the socket worker that answers are sent back to.
#[derive(Clone, Copy, Debug, PartialEq, Eq, Hash, Structural)]
pub struct ConsumerId(pub usize);

/// What travels with a message between the workers, so that the answer
/// finds its way back: the connection, its socket worker, the address of the
/// peer when the message was passed on, and the scrape that is being
/// gathered, where the message belongs to one.
#[derive(Clone, Copy, Debug)]
pub struct ConnectionMeta {
    pub connection_id: ConnectionId,
    pub out_message_consumer_id: ConsumerId,
    pub peer_addr: SocketAddress,
    pub pending_scrape_id: Option<PendingScrapeId>,
}

/// Marks a message as an announce.
#[derive(Clone, Copy, Debug, PartialEq, Eq, Structural)]
pub struct AnnounceAction;

/// Marks a message as a scrape.
#[derive(Clone, Copy, Debug, PartialEq, Eq, Structural)]
pub struct ScrapeAction;

/// Tells the tracker what a peer holds of a swarm's content.
#[derive(Clone, Copy, Debug)]
pub struct AnnounceRequest {
    pub action: AnnounceAction,
    pub info_hash: InfoHash,
    pub peer_id: PeerId,
    /// Bytes left to download, where the peer says.
    pub bytes_left: Option<usize>,
    pub event: Option<AnnounceEvent>,
    /// The number of peers asked for, where the peer says.
    pub numwant: Option<usize>,
}

/// The info hashes of a scrape: one, or a list.
#[derive(Clone, Debug)]
pub enum ScrapeRequestInfoHashes {
    Single(InfoHash),
    Multiple(Vec<InfoHash>),
}

impl ScrapeRequestInfoHashes {
    /// The info hashes as a sequence.
    pub open spec fn spec_as_vec(&self) -> Seq<InfoHash> {
        match self {
            ScrapeRequestInfoHashes::Single(info_hash) => seq![*info_hash],
            ScrapeRequestInfoHashes::Multiple(info_hashes) => info_hashes@,
        }
    }

    /// The info hashes as a vector.
    pub fn as_vec(self) -> (info_hashes: Vec<InfoHash>)
        ensures
            info_hashes@ == self.spec_as_vec(),
    {
        match self {
            ScrapeRequestInfoHashes::Single(info_hash) => {
                let mut info_hashes: Vec<InfoHash> = Vec::new();
                info_hashes.push(info_hash);
                assert(info_hashes@ =~= seq![info_hash]);
                info_hashes
            },
            ScrapeRequestInfoHashes::Multiple(info_hashes) => info_hashes,
        }
    }
}

/// Asks for the statistics of the swarms named, or of all swarms where none
/// is named.
#[derive(Clone, Debug)]
pub struct ScrapeRequest {
    pub action: ScrapeAction,
    pub info_hashes: Option<ScrapeRequestInfoHashes>,
}

/// A message from a peer.
#[derive(Clone, Debug)]
pub enum InMessage {
    AnnounceRequest(AnnounceRequest),
    ScrapeRequest(ScrapeRequest),
}

/// The info hashes of a scrape, with a list as a sequence.
pub enum ScrapeRequestInfoHashesView {
    Single(InfoHash),
    Multiple(Seq<InfoHash>),
}

/// A message from a peer, with lists as sequences.
pub enum InMessageView {
    AnnounceRequest(AnnounceRequest),
    ScrapeRequest(Option<ScrapeRequestInfoHashesView>),
}

impl View for ScrapeRequestInfoHashes {
    type V = ScrapeRequestInfoHashesView;

    open spec fn view(&self) -> ScrapeRequestInfoHashesView {
        match self {
            ScrapeRequestInfoHashes::Single(info_hash) => ScrapeRequestInfoHashesView::Single(
                *info_hash,
            ),
            ScrapeRequestInfoHashes::Multiple(info_hashes) => ScrapeRequestInfoHashesView::Multiple(
                info_hashes@,
            ),
        }
    }
}

impl View for InMessage {
    type V = InMessageView;

    open spec fn view(&self) -> InMessageView {
        match self {
            InMessage::AnnounceRequest(request) => InMessageView::AnnounceRequest(*request),
            InMessage::ScrapeRequest(request) => InMessageView::ScrapeRequest(
                match request.info_hashes {
                    Some(info_hashes) => Some(info_hashes@),
                    None => None,
                },
            ),
        }
    }
}

/// Answers an announce.
#[derive(Clone, Copy, Debug)]
pub struct AnnounceResponse {
    pub action: AnnounceAction,
    pub info_hash: InfoHash,
    pub complete: usize,
    pub incomplete: usize,
    pub announce_interval: usize,
}

/// Answers a scrape.
pub struct ScrapeResponse {
    pub action: ScrapeAction,
    pub files: StatsMap,
}

/// The kind of request that an error answers.
#[derive(Clone, Copy, Debug, PartialEq, Eq, Structural)]
pub enum ErrorResponseAction {
    Announce,
    Scrape,
}

/// Tells a peer that its request failed, and why.
#[derive(Clone, Debug)]
pub struct ErrorResponse {
    pub action: Option<ErrorResponseAction>,
    pub failure_reason: String,
    pub info_hash: Option<InfoHash>,
}

/// A message to a peer.
pub enum OutMessage {
    AnnounceResponse(AnnounceResponse),
    ScrapeResponse(ScrapeResponse),
    ErrorResponse(ErrorResponse),
}

/// What a socket worker tells the swarm workers besides requests.
#[derive(Clone, Copy, Debug)]
pub enum SwarmControlMessage {
    /// The connection of a peer has closed: it leaves the swarm named.
    ConnectionClosed { info_hash: InfoHash, peer_id: PeerId, peer_addr: SocketAddress },
}

} // verus!
