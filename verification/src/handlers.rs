//! What the tracker does with the requests of the compact binary protocol:
//! hand out connection tokens, take in announces, answer scrapes.

use crate::common::{AnnounceEvent, InfoHash, IpAddress, SocketAddress, Time};
use crate::connection_tokens::{token_valid, ConnectionKey, ConnectionTokenStore};
use crate::peers::{
    count_status, entries_after_announce, Peer, PeerMapKey, PeerStatus,
};
use crate::sampler::is_sample_of;
use crate::swarm::TorrentMap;
use crate::udp::{
    AnnounceInterval, AnnounceRequest, AnnounceResponse, ConnectRequest, ConnectResponse,
    NumberOfBytes, NumberOfDownloads, NumberOfPeers, Response, ScrapeRequest, ScrapeResponse,
    TorrentScrapeStatistics,
};
use vstd::prelude::*;

verus! {

/// The most peers that one announce is answered with.
pub const MAX_RESPONSE_PEERS: usize = 255;

/// The seconds that clients are told to wait between announces.
pub const ANNOUNCE_INTERVAL: i32 = 600;

/// All that the handlers of one shard work on.
pub struct State {
    pub connections: ConnectionTokenStore,
    pub torrents: TorrentMap,
}

impl PeerStatus {
    /// The status that an announce reports: stopped where it says so, else
    /// seeding where nothing is left to download, else leeching.
    pub open spec fn spec_from_event_and_bytes_left(
        event: AnnounceEvent,
        bytes_left: NumberOfBytes,
    ) -> PeerStatus {
        if event == AnnounceEvent::Stopped {
            PeerStatus::Stopped
        } else if bytes_left.0 == 0 {
            PeerStatus::Seeding
        } else {
            PeerStatus::Leeching
        }
    }

    /// The status that an announce reports: stopped where it says so, else
    /// seeding where nothing is left to download, else leeching.
    #[verifier::when_used_as_spec(spec_from_event_and_bytes_left)]
    pub fn from_event_and_bytes_left(event: AnnounceEvent, bytes_left: NumberOfBytes) -> (status:
        PeerStatus)
        ensures
            status == PeerStatus::spec_from_event_and_bytes_left(event, bytes_left),
    {
        if event == AnnounceEvent::Stopped {
            PeerStatus::Stopped
        } else if bytes_left.0 == 0 {
            PeerStatus::Seeding
        } else {
            PeerStatus::Leeching
        }
    }
}

impl Peer {
    /// The peer that an announce from `ip_address` at `now` describes.
    pub open spec fn spec_from_announce_and_ip(
        announce_request: &AnnounceRequest,
        ip_address: IpAddress,
        now: Time,
    ) -> Peer {
        Peer {
            connection_id: announce_request.connection_id,
            ip_address,
            id: announce_request.peer_id,
            port: announce_request.port,
            status: PeerStatus::spec_from_event_and_bytes_left(
                announce_request.event,
                announce_request.bytes_left,
            ),
            last_announce: now,
        }
    }

    /// The peer that an announce from `ip_address` at `now` describes.
    #[verifier::when_used_as_spec(spec_from_announce_and_ip)]
    pub fn from_announce_and_ip(
        announce_request: &AnnounceRequest,
        ip_address: IpAddress,
        now: Time,
    ) -> (peer: Peer)
        ensures
            peer == Peer::spec_from_announce_and_ip(announce_request, ip_address, now),
    {
        Peer {
            connection_id: announce_request.connection_id,
            ip_address,
            id: announce_request.peer_id,
            port: announce_request.port,
            status: PeerStatus::from_event_and_bytes_left(
                announce_request.event,
                announce_request.bytes_left,
            ),
            last_announce: now,
        }
    }
}

/// The statistics of a swarm with the given seeders and leechers. Finished
/// downloads are not tracked: their number is zero.
pub fn create_torrent_scrape_statistics(seeders: i32, leechers: i32) -> (statistics:
    TorrentScrapeStatistics)
    ensures
        statistics == (TorrentScrapeStatistics {
            seeders: NumberOfPeers(seeders),
            completed: NumberOfDownloads(0),
            leechers: NumberOfPeers(leechers),
        }),
{
    TorrentScrapeStatistics {
        seeders: NumberOfPeers(seeders),
        completed: NumberOfDownloads(0),
        leechers: NumberOfPeers(leechers),
    }
}

/// The records after every token that `responses` hand out has been recorded
/// at `now`, each for the address that its response goes to.
pub open spec fn recorded(
    entries: Map<ConnectionKey, Time>,
    responses: Seq<(Response, SocketAddress)>,
    now: Time,
) -> Map<ConnectionKey, Time>
    decreases responses.len(),
{
    if responses.len() == 0 {
        entries
    } else {
        let earlier = recorded(entries, responses.drop_last(), now);
        match responses.last().0 {
            Response::Connect(response) => earlier.insert(
                ConnectionKey {
                    connection_id: response.connection_id,
                    socket_addr: responses.last().1,
                },
                now,
            ),
            _ => earlier,
        }
    }
}

/// Each of `responses` hands a token to the sender of the request at its
/// position, under that request's transaction id.
pub open spec fn connect_responses_match(
    responses: Seq<(Response, SocketAddress)>,
    requests: Seq<(ConnectRequest, SocketAddress)>,
) -> bool {
    &&& responses.len() == requests.len()
    &&& forall|i: int|
        0 <= i < requests.len() ==> {
            &&& (#[trigger] responses[i]).1 == requests[i].1
            &&& match responses[i].0 {
                Response::Connect(response) => response.transaction_id
                    == requests[i].0.transaction_id,
                _ => false,
            }
        }
}

/// Answers each connect request, in order: issues a fresh token to its
/// sender, records it with the time `now`, and appends the response that
/// hands it out. Swarms are not touched.
pub fn handle_connect_requests(
    state: &mut State,
    responses: &mut Vec<(Response, SocketAddress)>,
    requests: &Vec<(ConnectRequest, SocketAddress)>,
    now: Time,
)
    ensures
        final(state).torrents == old(state).torrents,
        final(state).connections.spec_ttl() == old(state).connections.spec_ttl(),
        final(responses)@.len() == old(responses)@.len() + requests@.len(),
        final(responses)@.take(old(responses)@.len() as int) == old(responses)@,
        connect_responses_match(final(responses)@.skip(old(responses)@.len() as int), requests@),
        final(state).connections@ == recorded(
            old(state).connections@,
            final(responses)@.skip(old(responses)@.len() as int),
            now,
        ),
{
    let ghost start = responses@.len() as int;
    let mut i: usize = 0;
    proof {
        assert(responses@.skip(start) =~= Seq::<(Response, SocketAddress)>::empty());
        assert(responses@.take(start) =~= responses@);
    }
    while i < requests.len()
        invariant
            i <= requests.len(),
            start == old(responses)@.len(),
            state.torrents == old(state).torrents,
            state.connections.spec_ttl() == old(state).connections.spec_ttl(),
            responses@.len() == start + i,
            responses@.take(start) == old(responses)@,
            connect_responses_match(responses@.skip(start), requests@.take(i as int)),
            state.connections@ == recorded(old(state).connections@, responses@.skip(start), now),
        decreases requests.len() - i,
    {
        let src = requests[i].1;
        let connection_id = state.connections.issue(src, now);
        let response = Response::Connect(
            ConnectResponse { connection_id, transaction_id: requests[i].0.transaction_id },
        );
        let ghost before = responses@;
        responses.push((response, src));
        proof {
            assert(responses@.skip(start).drop_last() =~= before.skip(start));
            assert(responses@.take(start) =~= before.take(start));
            assert(responses@.skip(start).last() == (response, src));
            let grown = responses@.skip(start);
            assert forall|j: int| 0 <= j < i + 1 implies {
                &&& (#[trigger] grown[j]).1 == requests@.take(i + 1)[j].1
                &&& match grown[j].0 {
                    Response::Connect(r) => r.transaction_id == requests@.take(
                        i + 1,
                    )[j].0.transaction_id,
                    _ => false,
                }
            } by {
                if j < i {
                    assert(grown[j] == before.skip(start)[j]);
                    assert(requests@.take(i + 1)[j] == requests@.take(i as int)[j]);
                }
            }
        }
        i += 1;
    }
    proof {
        assert(requests@.take(i as int) =~= requests@);
    }
}

/// The identity under which an announce from `ip` is stored.
pub open spec fn key_of_announce(request: AnnounceRequest, ip: IpAddress) -> PeerMapKey {
    PeerMapKey { ip, peer_id: request.peer_id }
}

/// The stored pairs of the swarm `info_hash` among `swarms`; none where
/// they have no entry for it.
pub open spec fn stored_in(
    swarms: Map<InfoHash, Seq<(PeerMapKey, Peer)>>,
    info_hash: InfoHash,
) -> Seq<(PeerMapKey, Peer)> {
    if swarms.contains_key(info_hash) {
        swarms[info_hash]
    } else {
        Seq::empty()
    }
}

/// The swarms after one announce from `source` at `now` was taken in: the
/// swarm that it names has an entry then, and no other entry has changed.
pub open spec fn swarms_after_announce(
    swarms: Map<InfoHash, Seq<(PeerMapKey, Peer)>>,
    request: AnnounceRequest,
    source: SocketAddress,
    now: Time,
) -> Map<InfoHash, Seq<(PeerMapKey, Peer)>> {
    swarms.insert(
        request.info_hash,
        entries_after_announce(
            stored_in(swarms, request.info_hash),
            key_of_announce(request, source.ip),
            Peer::spec_from_announce_and_ip(&request, source.ip, now),
        ),
    )
}

/// The swarms after each of `requests` that came with a valid token was
/// taken in, in order. A request without one changes nothing: no pair is
/// stored or removed for it, and no entry is made.
pub open spec fn replay_announces(
    swarms: Map<InfoHash, Seq<(PeerMapKey, Peer)>>,
    requests: Seq<(AnnounceRequest, SocketAddress)>,
    tokens: Map<ConnectionKey, Time>,
    ttl: u64,
    now: Time,
) -> Map<InfoHash, Seq<(PeerMapKey, Peer)>>
    decreases requests.len(),
{
    if requests.len() == 0 {
        swarms
    } else {
        let earlier = replay_announces(swarms, requests.drop_last(), tokens, ttl, now);
        let (request, source) = requests.last();
        if token_valid(tokens, request.connection_id, source, now, ttl) {
            swarms_after_announce(earlier, request, source, now)
        } else {
            earlier
        }
    }
}

/// Whether none of `requests` came with a valid token.
pub open spec fn none_valid(
    requests: Seq<(AnnounceRequest, SocketAddress)>,
    tokens: Map<ConnectionKey, Time>,
    ttl: u64,
    now: Time,
) -> bool {
    forall|i: int|
        0 <= i < requests.len() ==> !token_valid(
            tokens,
            (#[trigger] requests[i]).0.connection_id,
            requests[i].1,
            now,
            ttl,
        )
}

/// Whether `response` answers `request` for a swarm that holds `entries`
/// once the announce is taken in: it echoes the transaction id, names the
/// fixed interval, reports the swarm's seeders and leechers, and carries a
/// sample of its members.
pub open spec fn announce_response_ok(
    response: AnnounceResponse,
    entries: Seq<(PeerMapKey, Peer)>,
    request: AnnounceRequest,
) -> bool {
    &&& response.transaction_id == request.transaction_id
    &&& response.announce_interval == AnnounceInterval(ANNOUNCE_INTERVAL)
    &&& response.seeders == NumberOfPeers(
        (count_status(entries, PeerStatus::Seeding) as usize) as i32,
    )
    &&& response.leechers == NumberOfPeers(
        (count_status(entries, PeerStatus::Leeching) as usize) as i32,
    )
    &&& is_sample_of(response.peers@, entries, MAX_RESPONSE_PEERS)
}

/// Whether `responses` answer exactly those of `requests` that came with a
/// valid token, in order, each as the swarms stood once it was taken in.
pub open spec fn announce_responses_match(
    responses: Seq<(Response, SocketAddress)>,
    requests: Seq<(AnnounceRequest, SocketAddress)>,
    swarms: Map<InfoHash, Seq<(PeerMapKey, Peer)>>,
    tokens: Map<ConnectionKey, Time>,
    ttl: u64,
    now: Time,
) -> bool
    decreases requests.len(),
{
    if requests.len() == 0 {
        responses.len() == 0
    } else {
        let (request, source) = requests.last();
        if token_valid(tokens, request.connection_id, source, now, ttl) {
            &&& responses.len() > 0
            &&& responses.last().1 == source
            &&& match responses.last().0 {
                Response::Announce(response) => announce_response_ok(
                    response,
                    replay_announces(swarms, requests, tokens, ttl, now)[request.info_hash],
                    request,
                ),
                _ => false,
            }
            &&& announce_responses_match(
                responses.drop_last(),
                requests.drop_last(),
                swarms,
                tokens,
                ttl,
                now,
            )
        } else {
            announce_responses_match(responses, requests.drop_last(), swarms, tokens, ttl, now)
        }
    }
}

/// Takes in one announce from `source`. Without a valid token nothing
/// happens and nothing is answered. With one, the peer it describes joins,
/// stays in or leaves its swarm, and the answer reports the swarm as it
/// stands after that.
pub fn handle_announce_request(
    state: &mut State,
    request: &AnnounceRequest,
    source: SocketAddress,
    now: Time,
) -> (response: Option<AnnounceResponse>)
    requires
        old(state).torrents.wf(),
    ensures
        final(state).torrents.wf(),
        final(state).connections == old(state).connections,
        !old(state).connections.spec_validate(request.connection_id, source, now) ==> {
            &&& response.is_none()
            &&& final(state).torrents == old(state).torrents
        },
        old(state).connections.spec_validate(request.connection_id, source, now) ==> {
            &&& final(state).torrents.swarms() == swarms_after_announce(
                old(state).torrents.swarms(),
                *request,
                source,
                now,
            )
            &&& match response {
                Some(response) => announce_response_ok(
                    response,
                    final(state).torrents.stored(request.info_hash),
                    *request,
                ),
                None => false,
            }
        },
{
    if !state.connections.validate(request.connection_id, source, now) {
        return None;
    }
    let peer_key = PeerMapKey { ip: source.ip, peer_id: request.peer_id };
    let peer = Peer::from_announce_and_ip(request, source.ip, now);
    let counts = state.torrents.announce(request.info_hash, peer_key, peer);
    let response_peers = state.torrents.sample_peers(&request.info_hash, MAX_RESPONSE_PEERS);
    proof {
        assert(state.torrents.swarms() =~= swarms_after_announce(
            old(state).torrents.swarms(),
            *request,
            source,
            now,
        ));
    }
    Some(
        AnnounceResponse {
            transaction_id: request.transaction_id,
            announce_interval: AnnounceInterval(ANNOUNCE_INTERVAL),
            leechers: NumberOfPeers(#[verifier::truncate] (counts.1 as i32)),
            seeders: NumberOfPeers(#[verifier::truncate] (counts.0 as i32)),
            peers: response_peers,
        },
    )
}

/// Takes in each announce, in order, and appends an answer for each that
/// came with a valid token; the others are dropped without a word. Tokens
/// are not touched.
pub fn handle_announce_requests(
    state: &mut State,
    responses: &mut Vec<(Response, SocketAddress)>,
    requests: &Vec<(AnnounceRequest, SocketAddress)>,
    now: Time,
)
    requires
        old(state).torrents.wf(),
    ensures
        final(state).torrents.wf(),
        final(state).connections == old(state).connections,
        final(state).torrents.swarms() == replay_announces(
            old(state).torrents.swarms(),
            requests@,
            old(state).connections@,
            old(state).connections.spec_ttl(),
            now,
        ),
        none_valid(requests@, old(state).connections@, old(state).connections.spec_ttl(), now)
            ==> final(state).torrents == old(state).torrents && final(responses)@ == old(
            responses,
        )@,
        old(responses)@.len() <= final(responses)@.len() <= old(responses)@.len() + requests@.len(),
        final(responses)@.take(old(responses)@.len() as int) == old(responses)@,
        announce_responses_match(
            final(responses)@.skip(old(responses)@.len() as int),
            requests@,
            old(state).torrents.swarms(),
            old(state).connections@,
            old(state).connections.spec_ttl(),
            now,
        ),
{
    let ghost start = responses@.len() as int;
    let ghost swarms = state.torrents.swarms();
    let ghost tokens = state.connections@;
    let ghost ttl = state.connections.spec_ttl();
    let mut i: usize = 0;
    proof {
        assert(responses@.skip(start) =~= Seq::<(Response, SocketAddress)>::empty());
        assert(responses@.take(start) =~= responses@);
    }
    while i < requests.len()
        invariant
            i <= requests.len(),
            start == old(responses)@.len(),
            swarms == old(state).torrents.swarms(),
            tokens == old(state).connections@,
            ttl == old(state).connections.spec_ttl(),
            state.torrents.wf(),
            state.connections == old(state).connections,
            start <= responses@.len() <= start + i,
            responses@.take(start) == old(responses)@,
            none_valid(requests@.take(i as int), tokens, ttl, now) ==> state.torrents == old(
                state,
            ).torrents && responses@ == old(responses)@,
            state.torrents.swarms() == replay_announces(
                swarms,
                requests@.take(i as int),
                tokens,
                ttl,
                now,
            ),
            announce_responses_match(
                responses@.skip(start),
                requests@.take(i as int),
                swarms,
                tokens,
                ttl,
                now,
            ),
        decreases requests.len() - i,
    {
        let request = requests[i].0;
        let source = requests[i].1;
        let ghost before = responses@;
        proof {
            assert(requests@.take(i + 1).drop_last() =~= requests@.take(i as int));
            assert(requests@.take(i + 1).last() == requests@[i as int]);
            if none_valid(requests@.take(i + 1), tokens, ttl, now) {
                assert forall|j: int| 0 <= j < i implies !token_valid(
                    tokens,
                    (#[trigger] requests@.take(i as int)[j]).0.connection_id,
                    requests@.take(i as int)[j].1,
                    now,
                    ttl,
                ) by {
                    assert(requests@.take(i + 1)[j] == requests@.take(i as int)[j]);
                }
                assert(requests@.take(i + 1)[i as int] == requests@[i as int]);
            }
        }
        match handle_announce_request(state, &request, source, now) {
            Some(response) => {
                responses.push((Response::Announce(response), source));
                proof {
                    assert(state.torrents.swarms().contains_key(request.info_hash));
                    assert(state.torrents.swarms()[request.info_hash] == state.torrents.stored(
                        request.info_hash,
                    ));
                    assert(responses@.skip(start).drop_last() =~= before.skip(start));
                    assert(responses@.take(start) =~= before.take(start));
                    assert(responses@.skip(start).last() == (Response::Announce(response), source));
                }
            },
            None => {},
        }
        i += 1;
    }
    proof {
        assert(requests@.take(i as int) =~= requests@);
    }
}

/// The statistics that a scrape reports of the swarm `info_hash`.
pub open spec fn scrape_statistics_of(torrents: TorrentMap, info_hash: InfoHash) -> TorrentScrapeStatistics {
    TorrentScrapeStatistics {
        seeders: NumberOfPeers((torrents.count(info_hash, PeerStatus::Seeding) as usize) as i32),
        completed: NumberOfDownloads(0),
        leechers: NumberOfPeers((torrents.count(info_hash, PeerStatus::Leeching) as usize) as i32),
    }
}

/// The statistics of each of `info_hashes`, in order.
pub open spec fn scrape_statistics(torrents: TorrentMap, info_hashes: Seq<InfoHash>) -> Seq<
    TorrentScrapeStatistics,
> {
    Seq::new(info_hashes.len(), |i: int| scrape_statistics_of(torrents, info_hashes[i]))
}

/// Whether `responses` answer exactly those of `requests` that came with a
/// valid token, in order, each with the statistics of the swarms it names.
pub open spec fn scrape_responses_match(
    responses: Seq<(Response, SocketAddress)>,
    requests: Seq<(ScrapeRequest, SocketAddress)>,
    torrents: TorrentMap,
    tokens: Map<ConnectionKey, Time>,
    ttl: u64,
    now: Time,
) -> bool
    decreases requests.len(),
{
    if requests.len() == 0 {
        responses.len() == 0
    } else {
        let (request, source) = requests.last();
        if token_valid(tokens, request.connection_id, source, now, ttl) {
            &&& responses.len() > 0
            &&& responses.last().1 == source
            &&& match responses.last().0 {
                Response::Scrape(response) => {
                    &&& response.transaction_id == request.transaction_id
                    &&& response.torrent_stats@ == scrape_statistics(torrents, request.info_hashes@)
                },
                _ => false,
            }
            &&& scrape_responses_match(
                responses.drop_last(),
                requests.drop_last(),
                torrents,
                tokens,
                ttl,
                now,
            )
        } else {
            scrape_responses_match(responses, requests.drop_last(), torrents, tokens, ttl, now)
        }
    }
}

/// Answers one scrape from `source`: nothing without a valid token; with
/// one, the statistics of each swarm asked for, in the order asked, all zero
/// for a swarm that was never announced to.
pub fn handle_scrape_request(
    state: &State,
    request: &ScrapeRequest,
    source: SocketAddress,
    now: Time,
) -> (response: Option<ScrapeResponse>)
    requires
        state.torrents.wf(),
    ensures
        !state.connections.spec_validate(request.connection_id, source, now)
            ==> response.is_none(),
        state.connections.spec_validate(request.connection_id, source, now) ==> match response {
            Some(response) => {
                &&& response.transaction_id == request.transaction_id
                &&& response.torrent_stats@ == scrape_statistics(
                    state.torrents,
                    request.info_hashes@,
                )
            },
            None => false,
        },
{
    if !state.connections.validate(request.connection_id, source, now) {
        return None;
    }
    let mut stats: Vec<TorrentScrapeStatistics> = Vec::new();
    let mut i: usize = 0;
    while i < request.info_hashes.len()
        invariant
            i <= request.info_hashes.len(),
            state.torrents.wf(),
            stats@.len() == i,
            forall|j: int|
                0 <= j < i ==> #[trigger] stats@[j] == scrape_statistics_of(
                    state.torrents,
                    request.info_hashes@[j],
                ),
        decreases request.info_hashes.len() - i,
    {
        let found = state.torrents.scrape(&request.info_hashes[i]);
        stats.push(
            create_torrent_scrape_statistics(
                #[verifier::truncate] (found.complete as i32),
                #[verifier::truncate] (found.incomplete as i32),
            ),
        );
        i += 1;
    }
    proof {
        assert(stats@ =~= scrape_statistics(state.torrents, request.info_hashes@));
    }
    Some(ScrapeResponse { transaction_id: request.transaction_id, torrent_stats: stats })
}

/// Answers each scrape, in order, and appends an answer for each that came
/// with a valid token; the others are dropped without a word. Nothing in the
/// state changes.
pub fn handle_scrape_requests(
    state: &State,
    responses: &mut Vec<(Response, SocketAddress)>,
    requests: &Vec<(ScrapeRequest, SocketAddress)>,
    now: Time,
)
    requires
        state.torrents.wf(),
    ensures
        old(responses)@.len() <= final(responses)@.len() <= old(responses)@.len() + requests@.len(),
        final(responses)@.take(old(responses)@.len() as int) == old(responses)@,
        scrape_responses_match(
            final(responses)@.skip(old(responses)@.len() as int),
            requests@,
            state.torrents,
            state.connections@,
            state.connections.spec_ttl(),
            now,
        ),
{
    let ghost start = responses@.len() as int;
    let mut i: usize = 0;
    proof {
        assert(responses@.skip(start) =~= Seq::<(Response, SocketAddress)>::empty());
        assert(responses@.take(start) =~= responses@);
    }
    while i < requests.len()
        invariant
            i <= requests.len(),
            start == old(responses)@.len(),
            state.torrents.wf(),
            start <= responses@.len() <= start + i,
            responses@.take(start) == old(responses)@,
            scrape_responses_match(
                responses@.skip(start),
                requests@.take(i as int),
                state.torrents,
                state.connections@,
                state.connections.spec_ttl(),
                now,
            ),
        decreases requests.len() - i,
    {
        let source = requests[i].1;
        let ghost before = responses@;
        proof {
            assert(requests@.take(i + 1).drop_last() =~= requests@.take(i as int));
            assert(requests@.take(i + 1).last() == requests@[i as int]);
        }
        match handle_scrape_request(state, &requests[i].0, source, now) {
            Some(response) => {
                responses.push((Response::Scrape(response), source));
                proof {
                    assert(responses@.skip(start).drop_last() =~= before.skip(start));
                    assert(responses@.take(start) =~= before.take(start));
                    assert(responses@.skip(start).last() == (Response::Scrape(response), source));
                }
            },
            None => {},
        }
        i += 1;
    }
    proof {
        assert(requests@.take(i as int) =~= requests@);
    }
}

} // verus!
