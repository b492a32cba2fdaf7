use aquatic::common::{AnnounceEvent, InfoHash, IpAddress, PeerId, SocketAddress, Time};
use aquatic::connection_tokens::ConnectionTokenStore;
use aquatic::handlers::{
    create_torrent_scrape_statistics, handle_announce_request, handle_announce_requests,
    handle_connect_requests, handle_scrape_request, handle_scrape_requests, State,
    ANNOUNCE_INTERVAL, MAX_RESPONSE_PEERS,
};
use aquatic::peers::{ConnectionId, Peer, PeerStatus, Port, ResponsePeer};
use aquatic::swarm::TorrentMap;
use aquatic::udp::{
    AnnounceInterval, AnnounceRequest, ConnectRequest, NumberOfBytes, NumberOfDownloads,
    NumberOfPeers, PeerKey, Response, ScrapeRequest, TorrentScrapeStatistics, TransactionId,
};

fn new_state() -> State {
    State {
        connections: ConnectionTokenStore::new(120),
        torrents: TorrentMap::new(),
    }
}

fn addr(last_octet: u32, port: u16) -> SocketAddress {
    SocketAddress {
        ip: IpAddress::V4(0x0a00_0000 + last_octet),
        port,
    }
}

fn announce(
    connection_id: ConnectionId,
    transaction: i32,
    info_hash: InfoHash,
    peer: u8,
    event: AnnounceEvent,
    bytes_left: i64,
    port: u16,
) -> AnnounceRequest {
    AnnounceRequest {
        connection_id,
        transaction_id: TransactionId(transaction),
        info_hash,
        peer_id: PeerId([peer; 20]),
        bytes_downloaded: NumberOfBytes(0),
        bytes_uploaded: NumberOfBytes(0),
        bytes_left: NumberOfBytes(bytes_left),
        event,
        ip_address: None,
        key: PeerKey(0),
        peers_wanted: NumberOfPeers(50),
        port: Port(port),
    }
}

fn connect(state: &mut State, source: SocketAddress, now: Time) -> ConnectionId {
    let mut responses = Vec::new();
    handle_connect_requests(
        state,
        &mut responses,
        &vec![(
            ConnectRequest {
                transaction_id: TransactionId(1),
            },
            source,
        )],
        now,
    );
    match &responses[0].0 {
        Response::Connect(response) => response.connection_id,
        _ => panic!("no connect response"),
    }
}

#[test]
fn constants_are_as_the_protocol_answers() {
    assert_eq!(MAX_RESPONSE_PEERS, 255);
    assert_eq!(ANNOUNCE_INTERVAL, 600);
}

#[test]
fn statistics_never_report_downloads() {
    assert_eq!(
        create_torrent_scrape_statistics(3, 4),
        TorrentScrapeStatistics {
            seeders: NumberOfPeers(3),
            completed: NumberOfDownloads(0),
            leechers: NumberOfPeers(4),
        }
    );
}

#[test]
fn status_comes_from_event_and_bytes_left() {
    assert_eq!(
        PeerStatus::from_event_and_bytes_left(AnnounceEvent::Stopped, NumberOfBytes(0)),
        PeerStatus::Stopped
    );
    assert_eq!(
        PeerStatus::from_event_and_bytes_left(AnnounceEvent::Stopped, NumberOfBytes(10)),
        PeerStatus::Stopped
    );
    assert_eq!(
        PeerStatus::from_event_and_bytes_left(AnnounceEvent::Completed, NumberOfBytes(0)),
        PeerStatus::Seeding
    );
    assert_eq!(
        PeerStatus::from_event_and_bytes_left(AnnounceEvent::Empty, NumberOfBytes(0)),
        PeerStatus::Seeding
    );
    assert_eq!(
        PeerStatus::from_event_and_bytes_left(AnnounceEvent::Started, NumberOfBytes(1)),
        PeerStatus::Leeching
    );
}

#[test]
fn peer_is_built_from_announce_and_address() {
    let request = announce(
        ConnectionId(5),
        1,
        InfoHash([1; 20]),
        7,
        AnnounceEvent::Started,
        100,
        6881,
    );
    let peer = Peer::from_announce_and_ip(&request, IpAddress::V4(9), Time(33));
    assert_eq!(peer.connection_id, ConnectionId(5));
    assert_eq!(peer.ip_address, IpAddress::V4(9));
    assert_eq!(peer.id, PeerId([7; 20]));
    assert_eq!(peer.port, Port(6881));
    assert_eq!(peer.status, PeerStatus::Leeching);
    assert_eq!(peer.last_announce, Time(33));
    assert_eq!(
        peer.to_response_peer(),
        ResponsePeer {
            ip_address: IpAddress::V4(9),
            port: Port(6881)
        }
    );
}

#[test]
fn connect_answers_each_request_in_order_with_a_valid_token() {
    let mut state = new_state();
    let mut responses = vec![(
        Response::Connect(aquatic::udp::ConnectResponse {
            connection_id: ConnectionId(0),
            transaction_id: TransactionId(0),
        }),
        addr(9, 9),
    )];
    let requests: Vec<(ConnectRequest, SocketAddress)> = (0..5)
        .map(|i| {
            (
                ConnectRequest {
                    transaction_id: TransactionId(100 + i),
                },
                addr(i as u32, 2000 + i as u16),
            )
        })
        .collect();
    handle_connect_requests(&mut state, &mut responses, &requests, Time(10));
    assert_eq!(responses.len(), 6);
    for i in 0..5usize {
        let (response, to) = &responses[i + 1];
        assert_eq!(*to, requests[i].1);
        match response {
            Response::Connect(response) => {
                assert_eq!(response.transaction_id, TransactionId(100 + i as i32));
                assert!(state
                    .connections
                    .validate(response.connection_id, *to, Time(10)));
                assert!(!state
                    .connections
                    .validate(response.connection_id, *to, Time(130)));
            }
            _ => panic!("no connect response"),
        }
    }
}

#[test]
fn announce_without_a_valid_token_is_dropped_silently() {
    let mut state = new_state();
    let a = addr(1, 1000);
    let h = InfoHash([1; 20]);
    let request = announce(ConnectionId(12345), 1, h, 1, AnnounceEvent::Started, 0, 6881);
    assert!(handle_announce_request(&mut state, &request, a, Time(0)).is_none());
    let mut responses = Vec::new();
    handle_announce_requests(&mut state, &mut responses, &vec![(request, a)], Time(0));
    assert!(responses.is_empty());
    assert_eq!(state.torrents.scrape(&h).complete, 0);
    assert!(state.torrents.sample_peers(&h, 10).is_empty());
}

#[test]
fn announce_with_a_token_of_another_address_is_dropped() {
    let mut state = new_state();
    let a = addr(1, 1000);
    let b = addr(2, 1000);
    let token = connect(&mut state, a, Time(0));
    let h = InfoHash([1; 20]);
    let request = announce(token, 1, h, 1, AnnounceEvent::Started, 0, 6881);
    assert!(handle_announce_request(&mut state, &request, b, Time(0)).is_none());
    assert_eq!(state.torrents.scrape(&h).complete, 0);
}

#[test]
fn announce_with_an_expired_token_is_dropped() {
    let mut state = new_state();
    let a = addr(1, 1000);
    let token = connect(&mut state, a, Time(0));
    let h = InfoHash([1; 20]);
    let request = announce(token, 1, h, 1, AnnounceEvent::Started, 0, 6881);
    assert!(handle_announce_request(&mut state, &request, a, Time(120)).is_none());
    assert!(handle_announce_request(&mut state, &request, a, Time(119)).is_some());
}

#[test]
fn end_to_end_announces() {
    let mut state = new_state();
    let a = addr(1, 1000);
    let token = connect(&mut state, a, Time(0));
    let h = InfoHash([0xab; 20]);

    let first = handle_announce_request(
        &mut state,
        &announce(token, 11, h, 1, AnnounceEvent::Started, 0, 6881),
        a,
        Time(1),
    )
    .unwrap();
    assert_eq!(first.transaction_id, TransactionId(11));
    assert_eq!(first.announce_interval, AnnounceInterval(600));
    assert_eq!(first.seeders, NumberOfPeers(1));
    assert_eq!(first.leechers, NumberOfPeers(0));
    assert_eq!(
        first.peers,
        vec![ResponsePeer {
            ip_address: a.ip,
            port: Port(6881)
        }]
    );

    let second = handle_announce_request(
        &mut state,
        &announce(token, 12, h, 2, AnnounceEvent::Started, 500, 6882),
        a,
        Time(2),
    )
    .unwrap();
    assert_eq!(second.seeders, NumberOfPeers(1));
    assert_eq!(second.leechers, NumberOfPeers(1));
    assert_eq!(second.peers.len(), 2);

    let third = handle_announce_request(
        &mut state,
        &announce(token, 13, h, 1, AnnounceEvent::Stopped, 0, 6881),
        a,
        Time(3),
    )
    .unwrap();
    assert_eq!(third.seeders, NumberOfPeers(0));
    assert_eq!(third.leechers, NumberOfPeers(1));
    assert_eq!(
        third.peers,
        vec![ResponsePeer {
            ip_address: a.ip,
            port: Port(6882)
        }]
    );
    assert_eq!(
        state.torrents.sample_peers(&h, 50),
        vec![ResponsePeer {
            ip_address: a.ip,
            port: Port(6882)
        }]
    );
}

#[test]
fn announce_batch_answers_valid_requests_in_order() {
    let mut state = new_state();
    let a = addr(1, 1000);
    let b = addr(2, 1000);
    let token_a = connect(&mut state, a, Time(0));
    let h = InfoHash([1; 20]);
    let requests = vec![
        (announce(token_a, 1, h, 1, AnnounceEvent::Started, 0, 1), a),
        (announce(token_a, 2, h, 2, AnnounceEvent::Started, 9, 2), b),
        (announce(token_a, 3, h, 3, AnnounceEvent::Started, 9, 3), a),
        (announce(token_a, 4, h, 1, AnnounceEvent::Stopped, 0, 1), a),
    ];
    let mut responses = Vec::new();
    handle_announce_requests(&mut state, &mut responses, &requests, Time(5));
    assert_eq!(responses.len(), 3);
    let expected = [(1, 1, 0, 1usize), (3, 1, 1, 2), (4, 0, 1, 1)];
    for (i, (transaction, seeders, leechers, peers)) in expected.iter().enumerate() {
        assert_eq!(responses[i].1, a);
        match &responses[i].0 {
            Response::Announce(response) => {
                assert_eq!(response.transaction_id, TransactionId(*transaction));
                assert_eq!(response.seeders, NumberOfPeers(*seeders));
                assert_eq!(response.leechers, NumberOfPeers(*leechers));
                assert_eq!(response.peers.len(), *peers);
                assert_eq!(response.announce_interval, AnnounceInterval(600));
            }
            _ => panic!("no announce response"),
        }
    }
}

#[test]
fn announce_hands_out_at_most_the_fixed_number_of_peers() {
    let mut state = new_state();
    let a = addr(1, 1000);
    let token = connect(&mut state, a, Time(0));
    let h = InfoHash([1; 20]);
    let mut last = None;
    for i in 0..300u32 {
        let mut request = announce(token, i as i32, h, 0, AnnounceEvent::Started, 1, 1);
        request.peer_id = PeerId({
            let mut id = [0u8; 20];
            id[0] = (i % 256) as u8;
            id[1] = (i / 256) as u8;
            id
        });
        last = handle_announce_request(&mut state, &request, a, Time(1));
    }
    let last = last.unwrap();
    assert_eq!(last.leechers, NumberOfPeers(300));
    assert_eq!(last.peers.len(), 255);
}

#[test]
fn scrape_reports_each_hash_in_order() {
    let mut state = new_state();
    let a = addr(1, 1000);
    let token = connect(&mut state, a, Time(0));
    let h1 = InfoHash([1; 20]);
    let h2 = InfoHash([2; 20]);
    let h3 = InfoHash([3; 20]);
    handle_announce_request(
        &mut state,
        &announce(token, 1, h1, 1, AnnounceEvent::Started, 0, 1),
        a,
        Time(1),
    );
    handle_announce_request(
        &mut state,
        &announce(token, 2, h1, 2, AnnounceEvent::Started, 5, 2),
        a,
        Time(1),
    );
    handle_announce_request(
        &mut state,
        &announce(token, 3, h3, 3, AnnounceEvent::Started, 5, 3),
        a,
        Time(1),
    );
    let request = ScrapeRequest {
        connection_id: token,
        transaction_id: TransactionId(77),
        info_hashes: vec![h1, h2, h3, h1],
    };
    let response = handle_scrape_request(&state, &request, a, Time(2)).unwrap();
    assert_eq!(response.transaction_id, TransactionId(77));
    assert_eq!(
        response.torrent_stats,
        vec![
            create_torrent_scrape_statistics(1, 1),
            create_torrent_scrape_statistics(0, 0),
            create_torrent_scrape_statistics(0, 1),
            create_torrent_scrape_statistics(1, 1),
        ]
    );
}

#[test]
fn scrape_without_a_valid_token_is_dropped_silently() {
    let mut state = new_state();
    let a = addr(1, 1000);
    let token = connect(&mut state, a, Time(0));
    let request = ScrapeRequest {
        connection_id: token,
        transaction_id: TransactionId(77),
        info_hashes: vec![InfoHash([1; 20])],
    };
    assert!(handle_scrape_request(&state, &request, addr(2, 1000), Time(2)).is_none());
    assert!(handle_scrape_request(&state, &request, a, Time(200)).is_none());
    let mut responses = Vec::new();
    handle_scrape_requests(
        &state,
        &mut responses,
        &vec![(request.clone(), addr(2, 1000)), (request, a)],
        Time(2),
    );
    assert_eq!(responses.len(), 1);
    assert_eq!(responses[0].1, a);
    match &responses[0].0 {
        Response::Scrape(response) => {
            assert_eq!(
                response.torrent_stats,
                vec![create_torrent_scrape_statistics(0, 0)]
            );
        }
        _ => panic!("no scrape response"),
    }
}

#[test]
fn scrape_of_no_hashes_answers_with_no_statistics() {
    let mut state = new_state();
    let a = addr(1, 1000);
    let token = connect(&mut state, a, Time(0));
    let request = ScrapeRequest {
        connection_id: token,
        transaction_id: TransactionId(1),
        info_hashes: vec![],
    };
    let response = handle_scrape_request(&state, &request, a, Time(0)).unwrap();
    assert!(response.torrent_stats.is_empty());
}

#[test]
fn dropped_announce_makes_no_entry() {
    let mut state = new_state();
    let a = addr(1, 1000);
    let b = addr(2, 1000);
    let token = connect(&mut state, a, Time(0));
    let h = InfoHash([1; 20]);
    let other = InfoHash([2; 20]);
    let mut responses = Vec::new();
    // A token of another address, a token that was never issued, and an
    // expired token whose record was not swept.
    handle_announce_requests(
        &mut state,
        &mut responses,
        &vec![
            (announce(token, 1, h, 1, AnnounceEvent::Started, 0, 1), b),
            (announce(ConnectionId(token.0.wrapping_add(1)), 2, other, 1, AnnounceEvent::Started, 0, 1), a),
        ],
        Time(5),
    );
    handle_announce_requests(
        &mut state,
        &mut responses,
        &vec![(announce(token, 3, h, 1, AnnounceEvent::Started, 0, 1), a)],
        Time(120),
    );
    assert!(responses.is_empty());
    assert!(!state.torrents.contains(&h));
    assert!(!state.torrents.contains(&other));
    handle_announce_requests(
        &mut state,
        &mut responses,
        &vec![
            (announce(token, 4, other, 1, AnnounceEvent::Started, 0, 1), b),
            (announce(token, 5, h, 1, AnnounceEvent::Started, 0, 1), a),
        ],
        Time(5),
    );
    assert_eq!(responses.len(), 1);
    assert!(state.torrents.contains(&h));
    assert!(!state.torrents.contains(&other));
}
