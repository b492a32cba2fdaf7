use aquatic::common::{AnnounceEvent, InfoHash, IpAddress, PeerId, ScrapeStatistics, SocketAddress, Time};
use aquatic::peers::{ConnectionId as TokenId, Peer, PeerMapKey, PeerStatus, Port};
use aquatic::router::calculate_in_message_consumer_index;
use aquatic::scrape::{MergeError, PendingScrapeId, ScrapeAggregator, StatsMap};
use aquatic::swarm::TorrentMap;
use aquatic::ws::{
    AnnounceAction, AnnounceRequest, AnnounceResponse, ConnectionId, ConnectionMeta, ConsumerId,
    ErrorResponse, ErrorResponseAction, InMessage, OutMessage, ScrapeAction, ScrapeRequest,
    ScrapeRequestInfoHashes, ScrapeResponse, SwarmControlMessage,
};
use aquatic::ws_connection::{
    clean_connections, make_error_response, ConnectionReader, ConnectionSlab, ConnectionWriter,
    InMessageAction, OutMessageAction, PeerConnection, PeerReadAction, PeerReadEvent,
    PeerWriteOutcome, SendOutcome, WriterError,
};

fn addr(last_octet: u32, port: u16) -> SocketAddress {
    SocketAddress {
        ip: IpAddress::V4(0x0a00_0000 + last_octet),
        port,
    }
}

fn hash(first: u8) -> InfoHash {
    let mut bytes = [7u8; 20];
    bytes[0] = first;
    InfoHash(bytes)
}

fn announce(info_hash: InfoHash, peer: u8) -> AnnounceRequest {
    AnnounceRequest {
        action: AnnounceAction,
        info_hash,
        peer_id: PeerId([peer; 20]),
        bytes_left: Some(0),
        event: Some(AnnounceEvent::Started),
        numwant: Some(10),
    }
}

fn reader(id: ConnectionId, peer_addr: SocketAddress, swarm_workers: usize) -> ConnectionReader {
    ConnectionReader {
        swarm_workers,
        max_connection_idle: 60,
        out_message_consumer_id: ConsumerId(3),
        peer_addr,
        connection_id: id,
    }
}

fn writer(id: ConnectionId, peer_addr: SocketAddress) -> ConnectionWriter {
    ConnectionWriter {
        max_connection_idle: 60,
        peer_addr,
        connection_id: id,
    }
}

fn is_error(response: &ErrorResponse, reason: &str, action: Option<ErrorResponseAction>, info_hash: Option<InfoHash>) -> bool {
    response.failure_reason == reason && response.action == action && response.info_hash == info_hash
}

#[test]
fn error_response_has_the_given_parts() {
    let response = make_error_response("Invalid request", None, None);
    assert!(is_error(&response, "Invalid request", None, None));
    let response = make_error_response(
        "x",
        Some(ErrorResponseAction::Scrape),
        Some(hash(1)),
    );
    assert!(is_error(&response, "x", Some(ErrorResponseAction::Scrape), Some(hash(1))));
}

#[test]
fn accepted_connections_get_keys_of_their_own() {
    let mut slab = ConnectionSlab::new();
    let a = slab.insert(addr(1, 1), Time(0), 60);
    let b = slab.insert(addr(2, 2), Time(0), 60);
    assert_ne!(a, b);
    assert!(slab.contains(a));
    assert!(slab.contains(b));
    assert!(!slab.contains(ConnectionId(a.0.max(b.0) + 1)));
}

#[test]
fn idle_sweep_drops_connections_past_their_deadline_only() {
    let mut slab = ConnectionSlab::new();
    let old = slab.insert(addr(1, 1), Time(0), 60);
    let recent = slab.insert(addr(2, 2), Time(50), 60);
    clean_connections(&mut slab, Time(59));
    assert!(slab.contains(old));
    assert!(slab.contains(recent));
    clean_connections(&mut slab, Time(60));
    assert!(!slab.contains(old));
    assert!(slab.contains(recent));
    clean_connections(&mut slab, Time(109));
    assert!(slab.contains(recent));
    clean_connections(&mut slab, Time(110));
    assert!(!slab.contains(recent));
}

#[test]
fn activity_moves_the_deadline_on() {
    let mut slab = ConnectionSlab::new();
    let id = slab.insert(addr(1, 1), Time(0), 60);
    assert!(slab.refresh(id, Time(40), 60));
    clean_connections(&mut slab, Time(99));
    assert!(slab.contains(id));
    clean_connections(&mut slab, Time(100));
    assert!(!slab.contains(id));
    assert!(!slab.refresh(id, Time(100), 60));
    assert!(!slab.contains(id));
}

#[test]
fn deadline_stops_at_the_end_of_the_clock() {
    let mut slab = ConnectionSlab::new();
    let id = slab.insert(addr(1, 1), Time(u64::MAX - 5), 60);
    clean_connections(&mut slab, Time(u64::MAX - 1));
    assert!(slab.contains(id));
    clean_connections(&mut slab, Time(u64::MAX));
    assert!(!slab.contains(id));
}

#[test]
fn key_of_a_closed_connection_may_name_a_new_one() {
    let mut slab = ConnectionSlab::new();
    let first = slab.insert(addr(1, 1), Time(0), 60);
    assert!(slab.remove(first, 4).is_empty());
    assert!(!slab.contains(first));
    let second = slab.insert(addr(2, 2), Time(0), 60);
    assert!(slab.contains(second));
    assert_eq!(first, second);
}

#[test]
fn announce_for_a_swarm_that_is_not_allowed_is_rejected() {
    let mut slab = ConnectionSlab::new();
    let mut pending = ScrapeAggregator::new();
    let id = slab.insert(addr(1, 1), Time(0), 60);
    let reader = reader(id, addr(1, 1), 4);
    let plan = reader.handle_in_message(
        &mut slab,
        &mut pending,
        false,
        InMessage::AnnounceRequest(announce(hash(5), 1)),
        Time(5),
    );
    assert_eq!(plan.meta.connection_id, id);
    assert_eq!(plan.meta.out_message_consumer_id, ConsumerId(3));
    assert_eq!(plan.meta.peer_addr, addr(1, 1));
    assert_eq!(plan.meta.pending_scrape_id, None);
    match plan.action {
        InMessageAction::Reject(response) => assert!(is_error(
            &response,
            "Info hash not allowed",
            Some(ErrorResponseAction::Announce),
            Some(hash(5))
        )),
        _ => panic!("not rejected"),
    }
    // Nothing was remembered of the announce.
    assert!(slab.remove(id, 4).is_empty());
}

#[test]
fn announce_goes_to_the_owner_of_the_swarm() {
    let mut slab = ConnectionSlab::new();
    let mut pending = ScrapeAggregator::new();
    let id = slab.insert(addr(1, 1), Time(0), 60);
    let reader = reader(id, addr(1, 1), 4);
    let request = announce(hash(6), 1);
    let plan = reader.handle_in_message(
        &mut slab,
        &mut pending,
        true,
        InMessage::AnnounceRequest(request),
        Time(5),
    );
    assert_eq!(plan.meta.pending_scrape_id, None);
    match plan.action {
        InMessageAction::Forward(messages) => {
            assert_eq!(messages.len(), 1);
            assert_eq!(messages[0].0, 2);
            match &messages[0].1 {
                InMessage::AnnounceRequest(forwarded) => {
                    assert_eq!(forwarded.info_hash, hash(6));
                    assert_eq!(forwarded.peer_id, PeerId([1; 20]));
                    assert_eq!(forwarded.bytes_left, Some(0));
                    assert_eq!(forwarded.event, Some(AnnounceEvent::Started));
                    assert_eq!(forwarded.numwant, Some(10));
                }
                _ => panic!("not an announce"),
            }
        }
        _ => panic!("not forwarded"),
    }
}

#[test]
fn announce_on_an_unknown_connection_closes() {
    let mut slab = ConnectionSlab::new();
    let mut pending = ScrapeAggregator::new();
    let reader = reader(ConnectionId(4), addr(1, 1), 4);
    let plan = reader.handle_in_message(
        &mut slab,
        &mut pending,
        true,
        InMessage::AnnounceRequest(announce(hash(6), 1)),
        Time(5),
    );
    assert!(matches!(plan.action, InMessageAction::Close));
    assert!(!slab.contains(ConnectionId(4)));
}

#[test]
fn only_one_peer_id_per_connection() {
    let mut slab = ConnectionSlab::new();
    let mut pending = ScrapeAggregator::new();
    let id = slab.insert(addr(1, 1), Time(0), 60);
    let reader = reader(id, addr(1, 1), 4);
    let first = reader.handle_in_message(
        &mut slab,
        &mut pending,
        true,
        InMessage::AnnounceRequest(announce(hash(1), 1)),
        Time(5),
    );
    assert!(matches!(first.action, InMessageAction::Forward(_)));
    let same = reader.handle_in_message(
        &mut slab,
        &mut pending,
        true,
        InMessage::AnnounceRequest(announce(hash(2), 1)),
        Time(5),
    );
    assert!(matches!(same.action, InMessageAction::Forward(_)));
    let other = reader.handle_in_message(
        &mut slab,
        &mut pending,
        true,
        InMessage::AnnounceRequest(announce(hash(3), 2)),
        Time(5),
    );
    match other.action {
        InMessageAction::RejectAndClose(response) => assert!(is_error(
            &response,
            "Only one peer id can be used per connection",
            Some(ErrorResponseAction::Announce),
            Some(hash(3))
        )),
        _ => panic!("not rejected"),
    }
    // The rejected announce was not remembered; the two before it were,
    // under the first peer id.
    let mut messages = slab.remove(id, 4);
    messages.sort_by_key(|(worker, _)| *worker);
    assert_eq!(messages.len(), 2);
    for ((worker, message), info_hash) in messages.iter().zip([hash(1), hash(2)]) {
        assert_eq!(*worker, calculate_in_message_consumer_index(4, info_hash));
        match message {
            SwarmControlMessage::ConnectionClosed {
                info_hash: closed,
                peer_id,
                peer_addr,
            } => {
                assert_eq!(*closed, info_hash);
                assert_eq!(*peer_id, PeerId([1; 20]));
                assert_eq!(*peer_addr, addr(1, 1));
            }
        }
    }
    assert!(!slab.contains(id));
}

#[test]
fn closing_tells_each_announced_swarm_once() {
    let mut slab = ConnectionSlab::new();
    let mut pending = ScrapeAggregator::new();
    let id = slab.insert(addr(1, 1), Time(0), 60);
    let reader = reader(id, addr(1, 1), 3);
    for first in [1u8, 2, 3, 2, 1, 1] {
        reader.handle_in_message(
            &mut slab,
            &mut pending,
            true,
            InMessage::AnnounceRequest(announce(hash(first), 9)),
            Time(5),
        );
    }
    let messages = slab.remove(id, 3);
    let mut firsts: Vec<u8> = messages
        .iter()
        .map(|(_, message)| match message {
            SwarmControlMessage::ConnectionClosed { info_hash, .. } => info_hash.0[0],
        })
        .collect();
    firsts.sort();
    assert_eq!(firsts, vec![1, 2, 3]);
    assert!(slab.remove(id, 3).is_empty());
}

#[test]
fn full_scrape_is_rejected() {
    let mut slab = ConnectionSlab::new();
    let mut pending = ScrapeAggregator::new();
    let id = slab.insert(addr(1, 1), Time(0), 60);
    let reader = reader(id, addr(1, 1), 4);
    let plan = reader.handle_in_message(
        &mut slab,
        &mut pending,
        true,
        InMessage::ScrapeRequest(ScrapeRequest {
            action: ScrapeAction,
            info_hashes: None,
        }),
        Time(5),
    );
    assert_eq!(plan.meta.pending_scrape_id, None);
    match plan.action {
        InMessageAction::Reject(response) => assert!(is_error(
            &response,
            "Full scrapes are not allowed",
            Some(ErrorResponseAction::Scrape),
            None
        )),
        _ => panic!("not rejected"),
    }
}

#[test]
fn scrape_is_split_among_the_owners() {
    let mut slab = ConnectionSlab::new();
    let mut pending = ScrapeAggregator::new();
    let id = slab.insert(addr(1, 1), Time(0), 60);
    let reader = reader(id, addr(1, 1), 2);
    let plan = reader.handle_in_message(
        &mut slab,
        &mut pending,
        false,
        InMessage::ScrapeRequest(ScrapeRequest {
            action: ScrapeAction,
            info_hashes: Some(ScrapeRequestInfoHashes::Multiple(vec![
                hash(1),
                hash(2),
                hash(3),
            ])),
        }),
        Time(5),
    );
    let scrape_id = plan.meta.pending_scrape_id.expect("scrape id");
    match plan.action {
        InMessageAction::Forward(messages) => {
            assert_eq!(messages.len(), 2);
            let parts: Vec<(usize, Vec<InfoHash>)> = messages
                .into_iter()
                .map(|(worker, message)| match message {
                    InMessage::ScrapeRequest(ScrapeRequest {
                        info_hashes: Some(ScrapeRequestInfoHashes::Multiple(hashes)),
                        ..
                    }) => (worker, hashes),
                    _ => panic!("not a scrape of a list"),
                })
                .collect();
            assert_eq!(
                parts,
                vec![(0, vec![hash(2)]), (1, vec![hash(1), hash(3)])]
            );
        }
        _ => panic!("not forwarded"),
    }
    // Two parts are due.
    assert!(pending.merge(scrape_id, StatsMap::new()).unwrap().is_none());
    assert!(pending.merge(scrape_id, StatsMap::new()).unwrap().is_some());
}

#[test]
fn scrape_of_a_single_hash_goes_to_one_worker() {
    let mut slab = ConnectionSlab::new();
    let mut pending = ScrapeAggregator::new();
    let id = slab.insert(addr(1, 1), Time(0), 60);
    let reader = reader(id, addr(1, 1), 5);
    let plan = reader.handle_in_message(
        &mut slab,
        &mut pending,
        true,
        InMessage::ScrapeRequest(ScrapeRequest {
            action: ScrapeAction,
            info_hashes: Some(ScrapeRequestInfoHashes::Single(hash(13))),
        }),
        Time(5),
    );
    let scrape_id = plan.meta.pending_scrape_id.unwrap();
    match plan.action {
        InMessageAction::Forward(messages) => {
            assert_eq!(messages.len(), 1);
            assert_eq!(messages[0].0, 3);
        }
        _ => panic!("not forwarded"),
    }
    assert!(pending.merge(scrape_id, StatsMap::new()).unwrap().is_some());
}

#[test]
fn scrape_of_an_empty_list_sends_nothing_and_expects_nothing() {
    let mut slab = ConnectionSlab::new();
    let mut pending = ScrapeAggregator::new();
    let id = slab.insert(addr(1, 1), Time(0), 60);
    let reader = reader(id, addr(1, 1), 5);
    let plan = reader.handle_in_message(
        &mut slab,
        &mut pending,
        true,
        InMessage::ScrapeRequest(ScrapeRequest {
            action: ScrapeAction,
            info_hashes: Some(ScrapeRequestInfoHashes::Multiple(vec![])),
        }),
        Time(5),
    );
    let scrape_id = plan.meta.pending_scrape_id.unwrap();
    match plan.action {
        InMessageAction::Forward(messages) => assert!(messages.is_empty()),
        _ => panic!("not forwarded"),
    }
    assert_eq!(
        pending.merge(scrape_id, StatsMap::new()).err(),
        Some(MergeError::NothingExpected)
    );
}

#[test]
fn message_for_a_peer_at_another_address_is_discarded() {
    let mut pending = ScrapeAggregator::new();
    let writer = writer(ConnectionId(1), addr(1, 1));
    let meta = ConnectionMeta {
        connection_id: ConnectionId(1),
        out_message_consumer_id: ConsumerId(0),
        peer_addr: addr(2, 1),
        pending_scrape_id: None,
    };
    let action = writer.handle_out_message(
        &mut pending,
        meta,
        OutMessage::AnnounceResponse(AnnounceResponse {
            action: AnnounceAction,
            info_hash: hash(1),
            complete: 1,
            incomplete: 0,
            announce_interval: 120,
        }),
    );
    assert!(matches!(action, OutMessageAction::Discard));
}

#[test]
fn stale_part_of_a_scrape_leaves_the_scrape_as_it_is() {
    let mut pending = ScrapeAggregator::new();
    let id = pending.begin(1);
    let writer = writer(ConnectionId(1), addr(1, 1));
    let stale = ConnectionMeta {
        connection_id: ConnectionId(1),
        out_message_consumer_id: ConsumerId(0),
        peer_addr: addr(2, 1),
        pending_scrape_id: Some(id),
    };
    let action = writer.handle_out_message(
        &mut pending,
        stale,
        OutMessage::ScrapeResponse(ScrapeResponse {
            action: ScrapeAction,
            files: StatsMap::new(),
        }),
    );
    assert!(matches!(action, OutMessageAction::Discard));
    // The part that is due is still due, and the connection goes on.
    let live = ConnectionMeta {
        peer_addr: addr(1, 1),
        ..stale
    };
    let action = writer.handle_out_message(
        &mut pending,
        live,
        OutMessage::ScrapeResponse(ScrapeResponse {
            action: ScrapeAction,
            files: StatsMap::new(),
        }),
    );
    assert!(matches!(action, OutMessageAction::Send(OutMessage::ScrapeResponse(_))));
}

#[test]
fn other_messages_are_sent_as_they_are() {
    let mut pending = ScrapeAggregator::new();
    let writer = writer(ConnectionId(1), addr(1, 1));
    let meta = ConnectionMeta {
        connection_id: ConnectionId(1),
        out_message_consumer_id: ConsumerId(0),
        peer_addr: addr(1, 1),
        pending_scrape_id: None,
    };
    let action = writer.handle_out_message(
        &mut pending,
        meta,
        OutMessage::AnnounceResponse(AnnounceResponse {
            action: AnnounceAction,
            info_hash: hash(1),
            complete: 4,
            incomplete: 5,
            announce_interval: 120,
        }),
    );
    match action {
        OutMessageAction::Send(OutMessage::AnnounceResponse(response)) => {
            assert_eq!(response.info_hash, hash(1));
            assert_eq!(response.complete, 4);
            assert_eq!(response.incomplete, 5);
            assert_eq!(response.announce_interval, 120);
        }
        _ => panic!("not sent"),
    }
    let action = writer.handle_out_message(
        &mut pending,
        meta,
        OutMessage::ErrorResponse(make_error_response("why", None, None)),
    );
    match action {
        OutMessageAction::Send(OutMessage::ErrorResponse(response)) => {
            assert_eq!(response.failure_reason, "why");
        }
        _ => panic!("not sent"),
    }
}

#[test]
fn scrape_part_without_a_scrape_id_closes() {
    let mut pending = ScrapeAggregator::new();
    let writer = writer(ConnectionId(1), addr(1, 1));
    let meta = ConnectionMeta {
        connection_id: ConnectionId(1),
        out_message_consumer_id: ConsumerId(0),
        peer_addr: addr(1, 1),
        pending_scrape_id: None,
    };
    let action = writer.handle_out_message(
        &mut pending,
        meta,
        OutMessage::ScrapeResponse(ScrapeResponse {
            action: ScrapeAction,
            files: StatsMap::new(),
        }),
    );
    assert!(matches!(
        action,
        OutMessageAction::Close(WriterError::MissingPendingScrapeId)
    ));
}

#[test]
fn scrape_part_for_an_unknown_scrape_closes() {
    let mut pending = ScrapeAggregator::new();
    let writer = writer(ConnectionId(1), addr(1, 1));
    let meta = ConnectionMeta {
        connection_id: ConnectionId(1),
        out_message_consumer_id: ConsumerId(0),
        peer_addr: addr(1, 1),
        pending_scrape_id: Some(PendingScrapeId(5)),
    };
    let action = writer.handle_out_message(
        &mut pending,
        meta,
        OutMessage::ScrapeResponse(ScrapeResponse {
            action: ScrapeAction,
            files: StatsMap::new(),
        }),
    );
    assert!(matches!(
        action,
        OutMessageAction::Close(WriterError::PendingScrape(MergeError::UnknownAggregation))
    ));
}

#[test]
fn end_to_end_scrape_of_three_hashes_over_two_shards() {
    // Two swarm workers, each with the swarms it owns.
    let swarm_workers = 2;
    let mut shards = vec![TorrentMap::new(), TorrentMap::new()];
    let announced = [(hash(1), PeerStatus::Seeding), (hash(2), PeerStatus::Leeching)];
    for (i, (info_hash, status)) in announced.iter().enumerate() {
        let ip = IpAddress::V4(100 + i as u32);
        let peer_id = PeerId([i as u8; 20]);
        let shard = calculate_in_message_consumer_index(swarm_workers, *info_hash);
        shards[shard].announce(
            *info_hash,
            PeerMapKey { ip, peer_id },
            Peer {
                connection_id: TokenId(0),
                ip_address: ip,
                id: peer_id,
                port: Port(1),
                status: *status,
                last_announce: Time(0),
            },
        );
    }

    let mut slab = ConnectionSlab::new();
    let mut pending = ScrapeAggregator::new();
    let id = slab.insert(addr(1, 1), Time(0), 60);
    let plan = reader(id, addr(1, 1), swarm_workers).handle_in_message(
        &mut slab,
        &mut pending,
        true,
        InMessage::ScrapeRequest(ScrapeRequest {
            action: ScrapeAction,
            info_hashes: Some(ScrapeRequestInfoHashes::Multiple(vec![
                hash(1),
                hash(2),
                hash(3),
            ])),
        }),
        Time(5),
    );
    let messages = match plan.action {
        InMessageAction::Forward(messages) => messages,
        _ => panic!("not forwarded"),
    };
    assert_eq!(messages.len(), 2);

    let writer = writer(id, addr(1, 1));
    let mut sent = Vec::new();
    for (worker, message) in messages {
        let hashes = match message {
            InMessage::ScrapeRequest(ScrapeRequest {
                info_hashes: Some(info_hashes),
                ..
            }) => info_hashes.as_vec(),
            _ => panic!("not a scrape"),
        };
        let mut files = StatsMap::new();
        for info_hash in hashes {
            files.insert(info_hash, shards[worker].scrape(&info_hash));
        }
        let action = writer.handle_out_message(
            &mut pending,
            plan.meta,
            OutMessage::ScrapeResponse(ScrapeResponse {
                action: ScrapeAction,
                files,
            }),
        );
        match action {
            OutMessageAction::Wait => {}
            OutMessageAction::Send(OutMessage::ScrapeResponse(response)) => sent.push(response),
            _ => panic!("neither waiting nor sent"),
        }
    }
    assert_eq!(sent.len(), 1);
    let mut pairs = sent[0].files.pairs();
    pairs.sort_by_key(|(info_hash, _)| info_hash.0);
    assert_eq!(
        pairs,
        vec![
            (
                hash(1),
                ScrapeStatistics {
                    complete: 1,
                    incomplete: 0,
                    downloaded: 0
                }
            ),
            (
                hash(2),
                ScrapeStatistics {
                    complete: 0,
                    incomplete: 1,
                    downloaded: 0
                }
            ),
            (
                hash(3),
                ScrapeStatistics {
                    complete: 0,
                    incomplete: 0,
                    downloaded: 0
                }
            ),
        ]
    );
}

#[test]
fn sent_message_moves_the_deadline_on() {
    let mut slab = ConnectionSlab::new();
    let id = slab.insert(addr(1, 1), Time(0), 60);
    let writer = writer(id, addr(1, 1));
    assert_eq!(
        writer.handle_send_outcome(&mut slab, SendOutcome::Sent, Time(30)),
        Ok(())
    );
    clean_connections(&mut slab, Time(89));
    assert!(slab.contains(id));
    clean_connections(&mut slab, Time(90));
    assert!(!slab.contains(id));
    assert_eq!(
        writer.handle_send_outcome(&mut slab, SendOutcome::Sent, Time(30)),
        Err(WriterError::ConnectionNotFound)
    );
}

#[test]
fn failed_send_is_an_error_and_a_timeout_is_not() {
    let mut slab = ConnectionSlab::new();
    let id = slab.insert(addr(1, 1), Time(0), 60);
    let writer = writer(id, addr(1, 1));
    assert_eq!(
        writer.handle_send_outcome(&mut slab, SendOutcome::Failed, Time(30)),
        Err(WriterError::SendFailed)
    );
    assert_eq!(
        writer.handle_send_outcome(&mut slab, SendOutcome::TimedOut, Time(30)),
        Ok(())
    );
    // Neither moved the deadline.
    clean_connections(&mut slab, Time(60));
    assert!(!slab.contains(id));
}

#[test]
fn meta_names_the_connection() {
    let reader = reader(ConnectionId(8), addr(4, 4), 2);
    let meta = reader.make_connection_meta(Some(PendingScrapeId(3)));
    assert_eq!(meta.connection_id, ConnectionId(8));
    assert_eq!(meta.out_message_consumer_id, ConsumerId(3));
    assert_eq!(meta.peer_addr, addr(4, 4));
    assert_eq!(meta.pending_scrape_id, Some(PendingScrapeId(3)));
}

#[test]
fn peer_connection_expires_after_its_deadline() {
    let connection = aquatic::ws_connection::PeerConnection {
        peer_socket_addr: addr(1, 1),
        valid_until: Time(100),
    };
    assert!(!connection.is_expired(Time(99)));
    assert!(!connection.is_expired(Time(100)));
    assert!(connection.is_expired(Time(101)));
    assert!(connection.is_for(addr(1, 1)));
    assert!(!connection.is_for(addr(1, 2)));
}

#[test]
fn message_read_moves_the_deadline_on() {
    for allowed in [true, false] {
        let mut slab = ConnectionSlab::new();
        let mut pending = ScrapeAggregator::new();
        let id = slab.insert(addr(1, 1), Time(0), 60);
        let reader = reader(id, addr(1, 1), 4);
        reader.handle_in_message(
            &mut slab,
            &mut pending,
            allowed,
            InMessage::AnnounceRequest(announce(hash(5), 1)),
            Time(40),
        );
        clean_connections(&mut slab, Time(99));
        assert!(slab.contains(id));
        clean_connections(&mut slab, Time(100));
        assert!(!slab.contains(id));
    }
    let mut slab = ConnectionSlab::new();
    let mut pending = ScrapeAggregator::new();
    let id = slab.insert(addr(1, 1), Time(0), 60);
    reader(id, addr(1, 1), 4).handle_in_message(
        &mut slab,
        &mut pending,
        true,
        InMessage::ScrapeRequest(ScrapeRequest {
            action: ScrapeAction,
            info_hashes: None,
        }),
        Time(40),
    );
    clean_connections(&mut slab, Time(99));
    assert!(slab.contains(id));
}

#[test]
fn peer_read_forwards_messages_and_refreshes() {
    let mut connection = PeerConnection {
        peer_socket_addr: addr(1, 1),
        valid_until: Time(100),
    };
    let action = connection.handle_peer_read(
        2,
        7,
        PeerReadEvent::Message(Some(InMessage::AnnounceRequest(announce(hash(1), 1)))),
        Time(700),
    );
    match action {
        PeerReadAction::Forward(meta, InMessage::AnnounceRequest(request)) => {
            assert_eq!(meta.connection_id, ConnectionId(7));
            assert_eq!(meta.out_message_consumer_id, ConsumerId(2));
            assert_eq!(meta.peer_addr, addr(1, 1));
            assert_eq!(meta.pending_scrape_id, None);
            assert_eq!(request.info_hash, hash(1));
        }
        _ => panic!("not forwarded"),
    }
    assert_eq!(connection.valid_until, Time(700));
    let action = connection.handle_peer_read(2, 7, PeerReadEvent::Message(None), Time(800));
    assert!(matches!(action, PeerReadAction::ReadOn));
    assert_eq!(connection.valid_until, Time(800));
}

#[test]
fn peer_read_waits_or_removes_without_a_change() {
    let start = PeerConnection {
        peer_socket_addr: addr(1, 1),
        valid_until: Time(100),
    };
    let mut connection = start;
    let action = connection.handle_peer_read(2, 7, PeerReadEvent::WouldBlock, Time(700));
    assert!(matches!(action, PeerReadAction::Wait));
    assert_eq!(connection, start);
    let action = connection.handle_peer_read(2, 7, PeerReadEvent::Closed, Time(700));
    assert!(matches!(action, PeerReadAction::Remove));
    assert_eq!(connection, start);
    let action = connection.handle_peer_read(2, 7, PeerReadEvent::Failed, Time(700));
    assert!(matches!(action, PeerReadAction::Remove));
    assert_eq!(connection, start);
}

#[test]
fn peer_write_keeps_or_forgets_the_connection() {
    let start = PeerConnection {
        peer_socket_addr: addr(1, 1),
        valid_until: Time(100),
    };
    let mut connection = start;
    assert!(connection.handle_peer_write(PeerWriteOutcome::Sent, Time(700)));
    assert_eq!(connection.valid_until, Time(700));
    assert_eq!(connection.peer_socket_addr, addr(1, 1));
    let mut connection = start;
    assert!(connection.handle_peer_write(PeerWriteOutcome::WouldBlock, Time(700)));
    assert_eq!(connection, start);
    assert!(!connection.handle_peer_write(PeerWriteOutcome::Closed, Time(700)));
    assert_eq!(connection, start);
    assert!(!connection.handle_peer_write(PeerWriteOutcome::Failed, Time(700)));
    assert_eq!(connection, start);
}
