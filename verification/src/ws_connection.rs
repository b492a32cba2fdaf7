//! The connections of one WebSocket socket worker: what is remembered of
//! each, when it is dropped for idleness, and what is decided for every
//! message that comes in from a peer or comes back from a swarm worker.

use crate::common::{InfoHash, PeerId, SocketAddress, Time, ValidUntil};
use crate::router::{
    calculate_in_message_consumer_index, group_views, is_split_by_shard, shard_for, split_by_shard,
};
use crate::common::ScrapeStatistics;
use crate::scrape::{spec_merge, MergeError, PendingScrapeId, ScrapeAggregator};
use crate::ws::{
    ConnectionId, ConnectionMeta, ConsumerId, ErrorResponse, ErrorResponseAction, InMessage,
    OutMessage, ScrapeAction, ScrapeRequest, ScrapeRequestInfoHashes, ScrapeResponse,
    SwarmControlMessage,
};
use vstd::prelude::*;

verus! {

/// A set of info hashes: a `hashbrown::HashSet`. Nothing of its inside is
/// looked into here; what it holds goes by the name `info_hash_members`.
#[verifier::external_body]
pub struct InfoHashSet {
    inner: hashbrown::HashSet<InfoHash>,
}

/// The info hashes that a set holds.
pub uninterp spec fn info_hash_members(set: InfoHashSet) -> Set<InfoHash>;

/// `HashSet::new` of hashbrown: the new set holds nothing.
#[verifier::external_body]
fn info_hash_set_new() -> (set: InfoHashSet)
    ensures
        info_hash_members(set) == Set::<InfoHash>::empty(),
{
    InfoHashSet { inner: hashbrown::HashSet::new() }
}

/// `HashSet::insert` of hashbrown: afterwards the set holds `info_hash`
/// besides what it held.
#[verifier::external_body]
fn info_hash_set_insert(set: &mut InfoHashSet, info_hash: InfoHash)
    ensures
        info_hash_members(*final(set)) == info_hash_members(*old(set)).insert(info_hash),
{
    set.inner.insert(info_hash);
}

/// `HashSet::iter` of hashbrown, collected: every info hash of the set
/// once, and nothing else. Their order is left open.
#[verifier::external_body]
fn info_hash_set_to_vec(set: &InfoHashSet) -> (info_hashes: Vec<InfoHash>)
    ensures
        info_hashes@.no_duplicates(),
        forall|info_hash: InfoHash|
            info_hashes@.contains(info_hash) <==> info_hash_members(*set).contains(info_hash),
{
    set.inner.iter().copied().collect()
}

/// What a socket worker remembers of one connection.
pub struct ConnectionReference {
    /// When the connection may be dropped for idleness; moved on with each
    /// message sent to the peer.
    pub valid_until: ValidUntil,
    /// The peer id that the first announce on the connection used.
    pub peer_id: Option<PeerId>,
    /// The swarms that the peer announced to on this connection.
    pub announced_info_hashes: InfoHashSet,
    pub peer_addr: SocketAddress,
}

/// What a socket worker remembers of one connection, with the announced
/// swarms as a set.
pub struct ConnectionReferenceView {
    pub valid_until: ValidUntil,
    pub peer_id: Option<PeerId>,
    pub announced_info_hashes: Set<InfoHash>,
    pub peer_addr: SocketAddress,
}

impl View for ConnectionReference {
    type V = ConnectionReferenceView;

    open spec fn view(&self) -> ConnectionReferenceView {
        ConnectionReferenceView {
            valid_until: self.valid_until,
            peer_id: self.peer_id,
            announced_info_hashes: info_hash_members(self.announced_info_hashes),
            peer_addr: self.peer_addr,
        }
    }
}

impl ConnectionReference {
    /// Whether the connection's deadline lies after `now`.
    pub open spec fn spec_is_valid(&self, now: Time) -> bool {
        self.valid_until.0.0 > now.0
    }

    /// Whether the connection's deadline lies after `now`.
    #[verifier::when_used_as_spec(spec_is_valid)]
    pub fn is_valid(&self, now: Time) -> (valid: bool)
        ensures
            valid == self.spec_is_valid(now),
    {
        self.valid_until.0.0 > now.0
    }
}

/// The connections that a slab holds, each under its key.
pub uninterp spec fn connection_entries(slab: slab::Slab<ConnectionReference>) -> Map<
    usize,
    ConnectionReference,
>;

/// `Slab::new`: the new slab holds nothing.
#[verifier::external_body]
fn connection_slab_new() -> (slab: slab::Slab<ConnectionReference>)
    ensures
        connection_entries(slab) == (Map::<usize, ConnectionReference>::empty()),
{
    slab::Slab::new()
}

/// `Slab::insert`: stores the value under a key that held nothing, and
/// returns that key; all else stays as it was. Which of the free keys is
/// taken is left open here. It gives up only where memory runs out.
#[verifier::external_body]
fn connection_slab_insert(slab: &mut slab::Slab<ConnectionReference>, value: ConnectionReference) -> (key:
    usize)
    ensures
        !connection_entries(*old(slab)).contains_key(key),
        connection_entries(*final(slab)) == connection_entries(*old(slab)).insert(key, value),
{
    slab.insert(value)
}

/// `Slab::contains`: whether a value is stored under `key`.
#[verifier::external_body]
fn connection_slab_contains(slab: &slab::Slab<ConnectionReference>, key: usize) -> (found: bool)
    ensures
        found == connection_entries(*slab).contains_key(key),
{
    slab.contains(key)
}

/// `Slab::get_mut`: the value under `key`, if there is one. What the caller
/// leaves behind the reference is what the slab then holds under `key`;
/// nothing else changes.
#[verifier::external_body]
fn connection_slab_get_mut(slab: &mut slab::Slab<ConnectionReference>, key: usize) -> (value: Option<
    &mut ConnectionReference,
>)
    ensures
        match value {
            Some(value) => {
                &&& connection_entries(*old(slab)).contains_key(key)
                &&& *value == connection_entries(*old(slab))[key]
                &&& connection_entries(*final(slab)) == connection_entries(*old(slab)).insert(
                    key,
                    *final(value),
                )
            },
            None => {
                &&& !connection_entries(*old(slab)).contains_key(key)
                &&& connection_entries(*final(slab)) == connection_entries(*old(slab))
            },
        },
{
    slab.get_mut(key)
}

/// `Slab::try_remove`: takes the value under `key` out of the slab and
/// returns it, if there is one; else nothing changes and nothing is returned.
#[verifier::external_body]
fn connection_slab_try_remove(slab: &mut slab::Slab<ConnectionReference>, key: usize) -> (value: Option<
    ConnectionReference,
>)
    ensures
        connection_entries(*final(slab)) == connection_entries(*old(slab)).remove(key),
        value == if connection_entries(*old(slab)).contains_key(key) {
            Some(connection_entries(*old(slab))[key])
        } else {
            None
        },
{
    slab.try_remove(key)
}

/// `Slab::retain`, keeping the connections whose deadline lies after `now`:
/// afterwards the slab holds exactly those, each unchanged under its key.
#[verifier::external_body]
fn connection_slab_retain_valid(slab: &mut slab::Slab<ConnectionReference>, now: Time)
    ensures
        connection_entries(*final(slab)) == valid_references(connection_entries(*old(slab)), now),
{
    slab.retain(|_, reference| reference.is_valid(now));
}

/// Those of `entries` whose deadline lies after `now`.
pub open spec fn valid_references(entries: Map<usize, ConnectionReference>, now: Time) -> Map<
    usize,
    ConnectionReference,
> {
    Map::new(
        |key: usize| entries.contains_key(key) && entries[key].spec_is_valid(now),
        |key: usize| entries[key],
    )
}

/// Those of `connections` whose deadline lies after `now`.
pub open spec fn live_connections(connections: Map<usize, ConnectionReferenceView>, now: Time) -> Map<
    usize,
    ConnectionReferenceView,
> {
    Map::new(
        |key: usize| connections.contains_key(key) && connections[key].valid_until.0.0 > now.0,
        |key: usize| connections[key],
    )
}

/// The message that tells the owner of the swarm `info_hash` that a peer's
/// connection has closed, with the worker it goes to.
pub open spec fn closed_message(
    info_hash: InfoHash,
    peer_id: PeerId,
    peer_addr: SocketAddress,
    swarm_workers: usize,
) -> (usize, SwarmControlMessage) {
    (
        shard_for(info_hash, swarm_workers) as usize,
        SwarmControlMessage::ConnectionClosed { info_hash, peer_id, peer_addr },
    )
}

/// The info hash that a control message speaks of.
pub open spec fn closed_info_hash(message: (usize, SwarmControlMessage)) -> InfoHash {
    match message.1 {
        SwarmControlMessage::ConnectionClosed { info_hash, .. } => info_hash,
    }
}

/// The live connections of one socket worker, each under a key of its own.
/// A key is free again once its connection is gone, and may then name
/// another connection.
pub struct ConnectionSlab {
    references: slab::Slab<ConnectionReference>,
}

impl View for ConnectionSlab {
    type V = Map<usize, ConnectionReferenceView>;

    /// What is remembered of each live connection, under its key.
    closed spec fn view(&self) -> Map<usize, ConnectionReferenceView> {
        Map::new(
            |key: usize| connection_entries(self.references).contains_key(key),
            |key: usize| connection_entries(self.references)[key]@,
        )
    }
}

impl ConnectionSlab {
    /// No connections.
    pub fn new() -> (slab: ConnectionSlab)
        ensures
            slab@ == Map::<usize, ConnectionReferenceView>::empty(),
    {
        let slab = ConnectionSlab { references: connection_slab_new() };
        assert(slab@ =~= Map::<usize, ConnectionReferenceView>::empty());
        slab
    }

    /// Takes in a connection that was accepted at `now` from `peer_addr`:
    /// it may stay idle for `max_connection_idle` seconds, has announced
    /// nothing and used no peer id yet. Returns the key it is known by.
    pub fn insert(&mut self, peer_addr: SocketAddress, now: Time, max_connection_idle: u64) -> (id:
        ConnectionId)
        ensures
            !old(self)@.contains_key(id.0),
            final(self)@ == old(self)@.insert(
                id.0,
                ConnectionReferenceView {
                    valid_until: ValidUntil::spec_new(now, max_connection_idle),
                    peer_id: None,
                    announced_info_hashes: Set::empty(),
                    peer_addr,
                },
            ),
    {
        let reference = ConnectionReference {
            valid_until: ValidUntil::new(now, max_connection_idle),
            peer_id: None,
            announced_info_hashes: info_hash_set_new(),
            peer_addr,
        };
        let key = connection_slab_insert(&mut self.references, reference);
        assert(self@ =~= old(self)@.insert(key, reference@));
        ConnectionId(key)
    }

    /// Whether a connection is known by `id`.
    pub fn contains(&self, id: ConnectionId) -> (found: bool)
        ensures
            found == self@.contains_key(id.0),
    {
        connection_slab_contains(&self.references, id.0)
    }

    /// Moves the deadline of the connection `id` to `max_connection_idle`
    /// seconds after `now`, and tells whether there is such a connection.
    pub fn refresh(&mut self, id: ConnectionId, now: Time, max_connection_idle: u64) -> (found:
        bool)
        ensures
            found == old(self)@.contains_key(id.0),
            found ==> final(self)@ == old(self)@.insert(
                id.0,
                ConnectionReferenceView {
                    valid_until: ValidUntil::spec_new(now, max_connection_idle),
                    ..old(self)@[id.0]
                },
            ),
            !found ==> final(self)@ == old(self)@,
    {
        match connection_slab_get_mut(&mut self.references, id.0) {
            Some(reference) => {
                reference.valid_until = ValidUntil::new(now, max_connection_idle);
                proof {
                    assert(self@ =~= old(self)@.insert(
                        id.0,
                        ConnectionReferenceView {
                            valid_until: ValidUntil::spec_new(now, max_connection_idle),
                            ..old(self)@[id.0]
                        },
                    ));
                }
                true
            },
            None => {
                proof {
                    assert(self@ =~= old(self)@);
                }
                false
            },
        }
    }

    /// Forgets the connection `id`, and returns what its end means for the
    /// swarm workers: where the peer has announced, one message for each
    /// swarm it announced to, addressed to the worker that owns the swarm.
    pub fn remove(&mut self, id: ConnectionId, swarm_workers: usize) -> (messages: Vec<
        (usize, SwarmControlMessage),
    >)
        requires
            swarm_workers > 0,
        ensures
            final(self)@ == old(self)@.remove(id.0),
            !old(self)@.contains_key(id.0) || old(self)@[id.0].peer_id.is_none()
                ==> messages@.len() == 0,
            old(self)@.contains_key(id.0) && old(self)@[id.0].peer_id.is_some() ==> {
                &&& forall|m: int|
                    0 <= m < messages@.len() ==> {
                        &&& old(self)@[id.0].announced_info_hashes.contains(
                            closed_info_hash(#[trigger] messages@[m]),
                        )
                        &&& messages@[m] == closed_message(
                            closed_info_hash(messages@[m]),
                            old(self)@[id.0].peer_id.unwrap(),
                            old(self)@[id.0].peer_addr,
                            swarm_workers,
                        )
                    }
                &&& forall|m: int, n: int|
                    0 <= m < n < messages@.len() ==> closed_info_hash(messages@[m])
                        != closed_info_hash(messages@[n])
                &&& forall|info_hash: InfoHash|
                    old(self)@[id.0].announced_info_hashes.contains(info_hash) ==> exists|m: int|
                        0 <= m < messages@.len() && closed_info_hash(#[trigger] messages@[m])
                            == info_hash
            },
    {
        let mut messages: Vec<(usize, SwarmControlMessage)> = Vec::new();
        let opt_reference = connection_slab_try_remove(&mut self.references, id.0);
        proof {
            assert(self@ =~= old(self)@.remove(id.0));
        }
        if let Some(reference) = opt_reference {
            if let Some(peer_id) = reference.peer_id {
                let info_hashes = info_hash_set_to_vec(&reference.announced_info_hashes);
                let mut i: usize = 0;
                while i < info_hashes.len()
                    invariant
                        i <= info_hashes.len(),
                        swarm_workers > 0,
                        messages@.len() == i,
                        forall|m: int|
                            0 <= m < i ==> #[trigger] messages@[m] == closed_message(
                                info_hashes@[m],
                                peer_id,
                                reference.peer_addr,
                                swarm_workers,
                            ),
                    decreases info_hashes.len() - i,
                {
                    let info_hash = info_hashes[i];
                    let consumer_index = calculate_in_message_consumer_index(
                        swarm_workers,
                        info_hash,
                    );
                    messages.push(
                        (
                            consumer_index,
                            SwarmControlMessage::ConnectionClosed {
                                info_hash,
                                peer_id,
                                peer_addr: reference.peer_addr,
                            },
                        ),
                    );
                    i += 1;
                }
                proof {
                    assert forall|m: int| 0 <= m < messages@.len() implies {
                        &&& old(self)@[id.0].announced_info_hashes.contains(
                            closed_info_hash(#[trigger] messages@[m]),
                        )
                        &&& messages@[m] == closed_message(
                            closed_info_hash(messages@[m]),
                            old(self)@[id.0].peer_id.unwrap(),
                            old(self)@[id.0].peer_addr,
                            swarm_workers,
                        )
                    } by {
                        assert(info_hashes@.contains(info_hashes@[m]));
                    }
                    assert forall|info_hash: InfoHash|
                        old(self)@[id.0].announced_info_hashes.contains(
                            info_hash,
                        ) implies exists|m: int|
                        0 <= m < messages@.len() && closed_info_hash(#[trigger] messages@[m])
                            == info_hash by {
                        assert(info_hashes@.contains(info_hash));
                        let m = choose|m: int| 0 <= m < info_hashes@.len() && info_hashes@[m] == info_hash;
                        assert(closed_info_hash(messages@[m]) == info_hash);
                    }
                }
            }
        }
        messages
    }
}

/// Drops every connection whose deadline does not lie after `now`, and no
/// other: what stays is what was there, unchanged.
pub fn clean_connections(connection_slab: &mut ConnectionSlab, now: Time)
    ensures
        final(connection_slab)@ == live_connections(old(connection_slab)@, now),
{
    connection_slab_retain_valid(&mut connection_slab.references, now);
    proof {
        assert(connection_slab@ =~= live_connections(old(connection_slab)@, now));
    }
}

/// What a socket worker that serves its peers in turn remembers of one of
/// them.
#[derive(Clone, Copy, Debug, PartialEq, Eq, Structural)]
pub struct PeerConnection {
    pub peer_socket_addr: SocketAddress,
    /// The moment up to which the connection is kept without a message
    /// from the peer.
    pub valid_until: Time,
}

impl PeerConnection {
    /// Whether the connection has idled past its deadline at `now`, and is
    /// to be closed.
    pub open spec fn spec_is_expired(&self, now: Time) -> bool {
        self.valid_until.0 < now.0
    }

    /// Whether the connection has idled past its deadline at `now`, and is
    /// to be closed.
    #[verifier::when_used_as_spec(spec_is_expired)]
    pub fn is_expired(&self, now: Time) -> (expired: bool)
        ensures
            expired == self.spec_is_expired(now),
    {
        self.valid_until.0 < now.0
    }

    /// Whether a message that travels with the given address is meant for
    /// the peer of this connection.
    pub fn is_for(&self, peer_socket_addr: SocketAddress) -> (same: bool)
        ensures
            same == (self.peer_socket_addr == peer_socket_addr),
    {
        self.peer_socket_addr == peer_socket_addr
    }
}

/// What came of reading from the socket of a peer.
pub enum PeerReadEvent {
    /// A frame was read: the message that it holds, where it holds one.
    Message(Option<InMessage>),
    /// Nothing more has arrived.
    WouldBlock,
    /// The peer has closed the connection.
    Closed,
    /// The read failed.
    Failed,
}

/// What follows from reading from the socket of a peer.
pub enum PeerReadAction {
    /// Pass the message on to the swarm workers with this meta, and read on.
    Forward(ConnectionMeta, InMessage),
    /// Read on: the frame held no message, and is passed over.
    ReadOn,
    /// Wait for the socket to be readable again.
    Wait,
    /// Forget the connection.
    Remove,
}

/// How writing to the socket of a peer ended.
#[derive(Clone, Copy, Debug, PartialEq, Eq, Structural)]
pub enum PeerWriteOutcome {
    Sent,
    /// The socket takes no more for now.
    WouldBlock,
    /// The connection is closed.
    Closed,
    Failed,
}

impl PeerConnection {
    /// The meta that travels with a message of this peer, read by the
    /// worker `socket_worker_index` on the connection it knows by
    /// `socket_worker_slab_index`.
    pub open spec fn spec_meta(
        &self,
        socket_worker_index: usize,
        socket_worker_slab_index: usize,
    ) -> ConnectionMeta {
        ConnectionMeta {
            connection_id: ConnectionId(socket_worker_slab_index),
            out_message_consumer_id: ConsumerId(socket_worker_index),
            peer_addr: self.peer_socket_addr,
            pending_scrape_id: None,
        }
    }

    /// Takes in what came of reading from the peer's socket. A frame that
    /// was read moves the deadline to `valid_until`, and its message, where
    /// it holds one, is passed on. A connection that the peer has closed, or
    /// that can no longer be read from, is forgotten. Where nothing more has
    /// arrived, nothing changes.
    pub fn handle_peer_read(
        &mut self,
        socket_worker_index: usize,
        socket_worker_slab_index: usize,
        event: PeerReadEvent,
        valid_until: Time,
    ) -> (action: PeerReadAction)
        ensures
            final(self).peer_socket_addr == old(self).peer_socket_addr,
            match event {
                PeerReadEvent::Message(Some(in_message)) => {
                    &&& final(self).valid_until == valid_until
                    &&& action == PeerReadAction::Forward(
                        old(self).spec_meta(socket_worker_index, socket_worker_slab_index),
                        in_message,
                    )
                },
                PeerReadEvent::Message(None) => {
                    &&& final(self).valid_until == valid_until
                    &&& action is ReadOn
                },
                PeerReadEvent::WouldBlock => {
                    &&& *final(self) == *old(self)
                    &&& action is Wait
                },
                PeerReadEvent::Closed | PeerReadEvent::Failed => {
                    &&& *final(self) == *old(self)
                    &&& action is Remove
                },
            },
    {
        match event {
            PeerReadEvent::Message(opt_in_message) => {
                self.valid_until = valid_until;
                match opt_in_message {
                    Some(in_message) => {
                        let meta = ConnectionMeta {
                            connection_id: ConnectionId(socket_worker_slab_index),
                            out_message_consumer_id: ConsumerId(socket_worker_index),
                            peer_addr: self.peer_socket_addr,
                            pending_scrape_id: None,
                        };
                        PeerReadAction::Forward(meta, in_message)
                    },
                    None => PeerReadAction::ReadOn,
                }
            },
            PeerReadEvent::WouldBlock => PeerReadAction::Wait,
            PeerReadEvent::Closed | PeerReadEvent::Failed => PeerReadAction::Remove,
        }
    }

    /// Takes note of how writing to the peer's socket ended, and tells
    /// whether the connection is kept: a write that went through moves the
    /// deadline to `valid_until`; one that has to wait changes nothing; after
    /// any other the connection is forgotten.
    pub fn handle_peer_write(&mut self, outcome: PeerWriteOutcome, valid_until: Time) -> (keep:
        bool)
        ensures
            final(self).peer_socket_addr == old(self).peer_socket_addr,
            keep == (outcome == PeerWriteOutcome::Sent || outcome == PeerWriteOutcome::WouldBlock),
            outcome == PeerWriteOutcome::Sent ==> final(self).valid_until == valid_until,
            outcome != PeerWriteOutcome::Sent ==> *final(self) == *old(self),
    {
        match outcome {
            PeerWriteOutcome::Sent => {
                self.valid_until = valid_until;
                true
            },
            PeerWriteOutcome::WouldBlock => true,
            PeerWriteOutcome::Closed | PeerWriteOutcome::Failed => false,
        }
    }
}

/// What to do with a message that came in from a peer.
pub enum InMessageAction {
    /// Pass each message on to the swarm worker named with it.
    Forward(Vec<(usize, InMessage)>),
    /// Tell the peer what is wrong with its message, and go on.
    Reject(ErrorResponse),
    /// Tell the peer what is wrong with its message, and close the
    /// connection.
    RejectAndClose(ErrorResponse),
    /// Close the connection: the worker no longer knows it.
    Close,
}

/// What to do with a message that came in from a peer, and the meta that
/// travels with whatever is sent on its account.
pub struct InMessagePlan {
    pub meta: ConnectionMeta,
    pub action: InMessageAction,
}

/// An error response with the given parts.
pub fn make_error_response(
    failure_reason: &str,
    action: Option<ErrorResponseAction>,
    info_hash: Option<InfoHash>,
) -> (response: ErrorResponse)
    ensures
        response.failure_reason@ == failure_reason@,
        response.action == action,
        response.info_hash == info_hash,
{
    ErrorResponse { action, failure_reason: failure_reason.to_owned(), info_hash }
}

/// Whether `response` has the given parts.
pub open spec fn is_error_response(
    response: ErrorResponse,
    failure_reason: Seq<char>,
    action: Option<ErrorResponseAction>,
    info_hash: Option<InfoHash>,
) -> bool {
    &&& response.failure_reason@ == failure_reason
    &&& response.action == action
    &&& response.info_hash == info_hash
}

/// The info hashes that a message asks one worker to scrape, where it is
/// such a message.
pub open spec fn scrape_part_hashes(message: InMessage) -> Option<Seq<InfoHash>> {
    match message {
        InMessage::ScrapeRequest(request) => match request.info_hashes {
            Some(ScrapeRequestInfoHashes::Multiple(info_hashes)) => Some(info_hashes@),
            _ => None,
        },
        _ => None,
    }
}

/// The workers that `messages` go to, each with the info hashes it is asked
/// to scrape.
pub open spec fn scatter_views(messages: Seq<(usize, InMessage)>) -> Seq<(usize, Seq<InfoHash>)> {
    Seq::new(
        messages.len(),
        |g: int| (messages[g].0, scrape_part_hashes(messages[g].1).unwrap()),
    )
}

/// Whether `messages` scatter a scrape of `info_hashes`: each asks one
/// worker for the swarms it owns, and together they split the hashes among
/// the workers that own them.
pub open spec fn is_scatter(
    messages: Seq<(usize, InMessage)>,
    info_hashes: Seq<InfoHash>,
    swarm_workers: usize,
) -> bool {
    &&& forall|g: int|
        0 <= g < messages.len() ==> scrape_part_hashes((#[trigger] messages[g]).1).is_some()
    &&& is_split_by_shard(scatter_views(messages), info_hashes, swarm_workers)
}

/// One scrape request for each group, in the order of the groups, each
/// addressed to its group's worker.
fn scrape_parts(groups: Vec<(usize, Vec<InfoHash>)>) -> (messages: Vec<(usize, InMessage)>)
    ensures
        messages@.len() == groups@.len(),
        forall|g: int|
            0 <= g < groups@.len() ==> scrape_part_hashes((#[trigger] messages@[g]).1).is_some(),
        scatter_views(messages@) == group_views(groups@),
{
    let ghost given = groups@;
    let mut groups = groups;
    let mut stack: Vec<(usize, InMessage)> = Vec::new();
    while groups.len() > 0
        invariant
            groups@.len() + stack@.len() == given.len(),
            groups@ == given.take(groups@.len() as int),
            forall|r: int|
                0 <= r < stack@.len() ==> {
                    &&& (#[trigger] stack@[r]).0 == given[given.len() - 1 - r].0
                    &&& scrape_part_hashes(stack@[r].1) == Some(
                        given[given.len() - 1 - r].1@,
                    )
                },
        decreases groups@.len(),
    {
        let group = groups.pop().unwrap();
        let in_message = InMessage::ScrapeRequest(
            ScrapeRequest {
                action: ScrapeAction,
                info_hashes: Some(ScrapeRequestInfoHashes::Multiple(group.1)),
            },
        );
        stack.push((group.0, in_message));
        proof {
            assert(groups@ =~= given.take(groups@.len() as int));
        }
    }
    let ghost reversed = stack@;
    let mut messages: Vec<(usize, InMessage)> = Vec::new();
    while stack.len() > 0
        invariant
            stack@.len() + messages@.len() == reversed.len(),
            stack@ == reversed.take(stack@.len() as int),
            forall|g: int|
                0 <= g < messages@.len() ==> #[trigger] messages@[g] == reversed[reversed.len() - 1
                    - g],
        decreases stack@.len(),
    {
        let message = stack.pop().unwrap();
        messages.push(message);
        proof {
            assert(stack@ =~= reversed.take(stack@.len() as int));
        }
    }
    proof {
        assert forall|g: int| 0 <= g < given.len() implies scrape_part_hashes(
            (#[trigger] messages@[g]).1,
        ) == Some(given[g].1@) && messages@[g].0 == given[g].0 by {
            assert(messages@[g] == reversed[reversed.len() - 1 - g]);
        }
        assert(scatter_views(messages@) =~= group_views(given));
    }
    messages
}

/// The connections with the deadline of the connection `id` moved to
/// `deadline`, where there is such a connection.
pub open spec fn refreshed_connections(
    connections: Map<usize, ConnectionReferenceView>,
    id: ConnectionId,
    deadline: ValidUntil,
) -> Map<usize, ConnectionReferenceView> {
    if connections.contains_key(id.0) {
        connections.insert(
            id.0,
            ConnectionReferenceView { valid_until: deadline, ..connections[id.0] },
        )
    } else {
        connections
    }
}

/// The part of a connection that takes messages from the peer.
pub struct ConnectionReader {
    /// The number of swarm workers; at least one.
    pub swarm_workers: usize,
    /// The seconds for which the connection may stay idle.
    pub max_connection_idle: u64,
    pub out_message_consumer_id: ConsumerId,
    pub peer_addr: SocketAddress,
    pub connection_id: ConnectionId,
}

impl ConnectionReader {
    /// The meta for what is sent on this connection's account.
    pub open spec fn spec_make_connection_meta(
        &self,
        pending_scrape_id: Option<PendingScrapeId>,
    ) -> ConnectionMeta {
        ConnectionMeta {
            connection_id: self.connection_id,
            out_message_consumer_id: self.out_message_consumer_id,
            peer_addr: self.peer_addr,
            pending_scrape_id,
        }
    }

    /// The meta for what is sent on this connection's account.
    #[verifier::when_used_as_spec(spec_make_connection_meta)]
    pub fn make_connection_meta(&self, pending_scrape_id: Option<PendingScrapeId>) -> (meta:
        ConnectionMeta)
        ensures
            meta == self.spec_make_connection_meta(pending_scrape_id),
    {
        ConnectionMeta {
            connection_id: self.connection_id,
            out_message_consumer_id: self.out_message_consumer_id,
            peer_addr: self.peer_addr,
            pending_scrape_id,
        }
    }

    /// The connections after a message was read on this connection at
    /// `now`: its deadline has moved on.
    pub open spec fn after_read(
        &self,
        connections: Map<usize, ConnectionReferenceView>,
        now: Time,
    ) -> Map<usize, ConnectionReferenceView> {
        refreshed_connections(
            connections,
            self.connection_id,
            ValidUntil::spec_new(now, self.max_connection_idle),
        )
    }

    /// Decides what to do with a message that was read from the peer at
    /// `now`.
    ///
    /// The read moves the deadline of the connection on, whatever the
    /// message is.
    /// An announce for a swarm that is not allowed is rejected. An allowed
    /// one binds the connection to its peer id, if none is bound yet, is
    /// remembered by its info hash, and goes to the worker that owns the
    /// swarm; an announce under another peer id than the bound one is
    /// rejected and ends the connection. A scrape that names no swarm is
    /// rejected. Any other is split among the workers that own the swarms it
    /// names, and a record is begun that gathers one part from each.
    /// `info_hash_allowed` is read for announces only.
    pub fn handle_in_message(
        &self,
        connection_slab: &mut ConnectionSlab,
        pending_scrapes: &mut ScrapeAggregator,
        info_hash_allowed: bool,
        in_message: InMessage,
        now: Time,
    ) -> (plan: InMessagePlan)
        requires
            self.swarm_workers > 0,
        ensures
            match in_message {
                InMessage::AnnounceRequest(request) => {
                    &&& final(pending_scrapes)@ == old(pending_scrapes)@
                    &&& plan.meta == self.spec_make_connection_meta(None)
                    &&& if !info_hash_allowed {
                        &&& final(connection_slab)@ == self.after_read(old(connection_slab)@, now)
                        &&& match plan.action {
                            InMessageAction::Reject(response) => is_error_response(
                                response,
                                "Info hash not allowed"@,
                                Some(ErrorResponseAction::Announce),
                                Some(request.info_hash),
                            ),
                            _ => false,
                        }
                    } else if !self.after_read(old(connection_slab)@, now).contains_key(self.connection_id.0) {
                        &&& final(connection_slab)@ == self.after_read(old(connection_slab)@, now)
                        &&& plan.action is Close
                    } else if self.after_read(old(connection_slab)@, now)[self.connection_id.0].peer_id.is_some() && self.after_read(old(connection_slab)@, now)[self.connection_id.0].peer_id != Some(request.peer_id) {
                        &&& final(connection_slab)@ == self.after_read(old(connection_slab)@, now)
                        &&& match plan.action {
                            InMessageAction::RejectAndClose(response) => is_error_response(
                                response,
                                "Only one peer id can be used per connection"@,
                                Some(ErrorResponseAction::Announce),
                                Some(request.info_hash),
                            ),
                            _ => false,
                        }
                    } else {
                        &&& final(connection_slab)@ == self.after_read(old(connection_slab)@, now).insert(
                            self.connection_id.0,
                            ConnectionReferenceView {
                                peer_id: Some(request.peer_id),
                                announced_info_hashes: self.after_read(old(connection_slab)@, now)[self.connection_id.0].announced_info_hashes.insert(
                                    request.info_hash,
                                ),
                                ..self.after_read(old(connection_slab)@, now)[self.connection_id.0]
                            },
                        )
                        &&& match plan.action {
                            InMessageAction::Forward(messages) => {
                                &&& messages@.len() == 1
                                &&& messages@[0].0 == shard_for(
                                    request.info_hash,
                                    self.swarm_workers,
                                )
                                &&& messages@[0].1 == InMessage::AnnounceRequest(request)
                            },
                            _ => false,
                        }
                    }
                },
                InMessage::ScrapeRequest(request) => {
                    &&& final(connection_slab)@ == self.after_read(old(connection_slab)@, now)
                    &&& match request.info_hashes {
                        None => {
                            &&& final(pending_scrapes)@ == old(pending_scrapes)@
                            &&& plan.meta == self.spec_make_connection_meta(None)
                            &&& match plan.action {
                                InMessageAction::Reject(response) => is_error_response(
                                    response,
                                    "Full scrapes are not allowed"@,
                                    Some(ErrorResponseAction::Scrape),
                                    None,
                                ),
                                _ => false,
                            }
                        },
                        Some(info_hashes) => match (plan.meta.pending_scrape_id, plan.action) {
                            (Some(id), InMessageAction::Forward(messages)) => {
                                &&& plan.meta == self.spec_make_connection_meta(Some(id))
                                &&& is_scatter(
                                    messages@,
                                    info_hashes.spec_as_vec(),
                                    self.swarm_workers,
                                )
                                &&& !old(pending_scrapes)@.contains_key(id.0)
                                &&& final(pending_scrapes)@ == old(pending_scrapes)@.insert(
                                    id.0,
                                    (
                                        messages@.len() as usize,
                                        Map::<InfoHash, ScrapeStatistics>::empty(),
                                    ),
                                )
                            },
                            _ => false,
                        },
                    }
                },
            },
    {
        connection_slab.refresh(self.connection_id, now, self.max_connection_idle);
        let ghost base = connection_slab@;
        match in_message {
            InMessage::AnnounceRequest(announce_request) => {
                let info_hash = announce_request.info_hash;
                if !info_hash_allowed {
                    return InMessagePlan {
                        meta: self.make_connection_meta(None),
                        action: InMessageAction::Reject(
                            make_error_response(
                                "Info hash not allowed",
                                Some(ErrorResponseAction::Announce),
                                Some(info_hash),
                            ),
                        ),
                    };
                }
                match connection_slab_get_mut(
                    &mut connection_slab.references,
                    self.connection_id.0,
                ) {
                    None => {
                        proof {
                            assert(connection_slab@ =~= base);
                        }
                        return InMessagePlan {
                            meta: self.make_connection_meta(None),
                            action: InMessageAction::Close,
                        };
                    },
                    Some(connection_reference) => {
                        // Store peer id / check if stored peer id matches
                        match connection_reference.peer_id {
                            Some(peer_id) => {
                                if !(peer_id == announce_request.peer_id) {
                                    proof {
                                        assert(connection_slab@ =~= base);
                                    }
                                    return InMessagePlan {
                                        meta: self.make_connection_meta(None),
                                        action: InMessageAction::RejectAndClose(
                                            make_error_response(
                                                "Only one peer id can be used per connection",
                                                Some(ErrorResponseAction::Announce),
                                                Some(info_hash),
                                            ),
                                        ),
                                    };
                                }
                            },
                            None => {
                                connection_reference.peer_id = Some(announce_request.peer_id);
                            },
                        }
                        // Remember info hash for later
                        info_hash_set_insert(
                            &mut connection_reference.announced_info_hashes,
                            info_hash,
                        );
                    },
                }
                proof {
                    assert(connection_slab@ =~= base.insert(
                        self.connection_id.0,
                        ConnectionReferenceView {
                            peer_id: Some(announce_request.peer_id),
                            announced_info_hashes: base[self.connection_id.0].announced_info_hashes.insert(info_hash),
                            ..base[self.connection_id.0]
                        },
                    ));
                }
                let consumer_index = calculate_in_message_consumer_index(
                    self.swarm_workers,
                    info_hash,
                );
                let mut messages: Vec<(usize, InMessage)> = Vec::new();
                messages.push((consumer_index, InMessage::AnnounceRequest(announce_request)));
                InMessagePlan {
                    meta: self.make_connection_meta(None),
                    action: InMessageAction::Forward(messages),
                }
            },
            InMessage::ScrapeRequest(scrape_request) => {
                let info_hashes = match scrape_request.info_hashes {
                    Some(info_hashes) => info_hashes,
                    None => {
                        // A scrape of all swarms costs too much to answer.
                        return InMessagePlan {
                            meta: self.make_connection_meta(None),
                            action: InMessageAction::Reject(
                                make_error_response(
                                    "Full scrapes are not allowed",
                                    Some(ErrorResponseAction::Scrape),
                                    None,
                                ),
                            ),
                        };
                    },
                };
                let all = info_hashes.as_vec();
                let info_hashes_by_worker = split_by_shard(&all, self.swarm_workers);
                let pending_worker_out_messages = info_hashes_by_worker.len();
                let pending_scrape_id = pending_scrapes.begin(pending_worker_out_messages);
                let meta = self.make_connection_meta(Some(pending_scrape_id));
                let messages = scrape_parts(info_hashes_by_worker);
                InMessagePlan { meta, action: InMessageAction::Forward(messages) }
            },
        }
    }
}

/// Why the writing part of a connection gives up.
#[derive(Clone, Copy, Debug, PartialEq, Eq, Structural)]
pub enum WriterError {
    /// The answer to a scrape came without the id of the scrape it is a
    /// part of.
    MissingPendingScrapeId,
    /// The answer to a scrape came for a scrape that is not being gathered.
    PendingScrape(MergeError),
    /// The worker no longer knows the connection.
    ConnectionNotFound,
    /// The message could not be sent.
    SendFailed,
}

/// What to do with a message that came back from a swarm worker.
pub enum OutMessageAction {
    /// Send this message to the peer.
    Send(OutMessage),
    /// Send nothing yet: parts of the answer are missing.
    Wait,
    /// Send nothing and go on: the message was meant for a peer at another
    /// address, whose connection is gone and whose key names this one now.
    Discard,
    /// Close the connection.
    Close(WriterError),
}

/// How an attempt to send a message to the peer ended.
#[derive(Clone, Copy, Debug, PartialEq, Eq, Structural)]
pub enum SendOutcome {
    Sent,
    Failed,
    /// The attempt was given up after the time allowed for it.
    TimedOut,
}

/// The part of a connection that sends messages to the peer.
pub struct ConnectionWriter {
    /// The seconds for which the connection may stay idle.
    pub max_connection_idle: u64,
    pub peer_addr: SocketAddress,
    pub connection_id: ConnectionId,
}

impl ConnectionWriter {
    /// Decides what to do with a message that came back from a swarm worker.
    ///
    /// A message that was meant for a peer at another address is discarded,
    /// and the connection goes on. A part of a scrape's answer is merged into
    /// the scrape it
    /// belongs to, and the whole answer is sent once no part is missing;
    /// before that nothing is sent. Any other message is sent as it is.
    pub fn handle_out_message(
        &self,
        pending_scrapes: &mut ScrapeAggregator,
        meta: ConnectionMeta,
        out_message: OutMessage,
    ) -> (action: OutMessageAction)
        ensures
            if meta.peer_addr != self.peer_addr {
                &&& final(pending_scrapes)@ == old(pending_scrapes)@
                &&& action is Discard
            } else {
                match out_message {
                    OutMessage::ScrapeResponse(part) => match meta.pending_scrape_id {
                        None => {
                            &&& final(pending_scrapes)@ == old(pending_scrapes)@
                            &&& action == OutMessageAction::Close(
                                WriterError::MissingPendingScrapeId,
                            )
                        },
                        Some(id) => {
                            &&& final(pending_scrapes)@ == spec_merge(
                                old(pending_scrapes)@,
                                id,
                                part.files@,
                            ).0
                            &&& match spec_merge(old(pending_scrapes)@, id, part.files@).1 {
                                Ok(Some(stats)) => match action {
                                    OutMessageAction::Send(OutMessage::ScrapeResponse(response)) => response.files@ == stats,
                                    _ => false,
                                },
                                Ok(None) => action is Wait,
                                Err(error) => action == OutMessageAction::Close(
                                    WriterError::PendingScrape(error),
                                ),
                            }
                        },
                    },
                    _ => {
                        &&& final(pending_scrapes)@ == old(pending_scrapes)@
                        &&& action == OutMessageAction::Send(out_message)
                    },
                }
            },
    {
        if meta.peer_addr != self.peer_addr {
            return OutMessageAction::Discard;
        }
        match out_message {
            OutMessage::ScrapeResponse(out_message) => {
                let pending_scrape_id = match meta.pending_scrape_id {
                    Some(id) => id,
                    None => {
                        return OutMessageAction::Close(WriterError::MissingPendingScrapeId);
                    },
                };
                match pending_scrapes.merge(pending_scrape_id, out_message.files) {
                    Ok(Some(stats)) => OutMessageAction::Send(
                        OutMessage::ScrapeResponse(
                            ScrapeResponse { action: ScrapeAction, files: stats },
                        ),
                    ),
                    Ok(None) => OutMessageAction::Wait,
                    Err(error) => OutMessageAction::Close(WriterError::PendingScrape(error)),
                }
            },
            out_message => OutMessageAction::Send(out_message),
        }
    }

    /// Takes note of how an attempt to send a message to the peer ended, at
    /// `now`. A message that was sent moves the connection's deadline on; it
    /// is an error if the worker no longer knows the connection. A failure
    /// is an error. An attempt that took too long is given up without one.
    pub fn handle_send_outcome(
        &self,
        connection_slab: &mut ConnectionSlab,
        outcome: SendOutcome,
        now: Time,
    ) -> (result: Result<(), WriterError>)
        ensures
            match outcome {
                SendOutcome::Sent => if old(connection_slab)@.contains_key(self.connection_id.0) {
                    &&& result == Ok::<(), WriterError>(())
                    &&& final(connection_slab)@ == old(connection_slab)@.insert(
                        self.connection_id.0,
                        ConnectionReferenceView {
                            valid_until: ValidUntil::spec_new(now, self.max_connection_idle),
                            ..old(connection_slab)@[self.connection_id.0]
                        },
                    )
                } else {
                    &&& result == Err::<(), WriterError>(WriterError::ConnectionNotFound)
                    &&& final(connection_slab)@ == old(connection_slab)@
                },
                SendOutcome::Failed => {
                    &&& result == Err::<(), WriterError>(WriterError::SendFailed)
                    &&& final(connection_slab)@ == old(connection_slab)@
                },
                SendOutcome::TimedOut => {
                    &&& result == Ok::<(), WriterError>(())
                    &&& final(connection_slab)@ == old(connection_slab)@
                },
            },
    {
        match outcome {
            SendOutcome::Sent => {
                if connection_slab.refresh(self.connection_id, now, self.max_connection_idle) {
                    Ok(())
                } else {
                    Err(WriterError::ConnectionNotFound)
                }
            },
            SendOutcome::Failed => Err(WriterError::SendFailed),
            SendOutcome::TimedOut => Ok(()),
        }
    }
}

/// After a sweep at `now`, the live connections are exactly those connections
/// from before whose deadline lay after `now`: a connection that has idled
/// past its deadline is gone, and one that has not is still there, as it
/// was.
pub proof fn lemma_idle_sweep(
    connections: Map<usize, ConnectionReferenceView>,
    now: Time,
    key: usize,
)
    requires
        connections.contains_key(key),
    ensures
        connections[key].valid_until.0.0 <= now.0 ==> !live_connections(
            connections,
            now,
        ).contains_key(key),
        connections[key].valid_until.0.0 > now.0 ==> live_connections(connections, now).contains_key(
            key,
        ) && live_connections(connections, now)[key] == connections[key],
{
}

/// A connection that was active at `active_at` outlives every sweep up to
/// `max_connection_idle` seconds later, and none after that unless it is
/// active again: where the clock does not run out, its deadline is that many
/// seconds after its last activity.
pub proof fn lemma_deadline_after_activity(
    active_at: Time,
    max_connection_idle: u64,
    swept_at: Time,
)
    requires
        active_at.0 + max_connection_idle <= u64::MAX,
    ensures
        ValidUntil::spec_new(active_at, max_connection_idle).0.0 > swept_at.0 <==> swept_at.0
            - active_at.0 < max_connection_idle,
{
}

} // verus!
