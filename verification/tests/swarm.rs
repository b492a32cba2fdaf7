use aquatic::common::{InfoHash, IpAddress, PeerId, ScrapeStatistics, Time};
use aquatic::peers::{ConnectionId, Peer, PeerMapKey, PeerStatus, Port, ResponsePeer};
use aquatic::swarm::{TorrentData, TorrentMap};

fn peer(i: u8, status: PeerStatus) -> (PeerMapKey, Peer) {
    let ip = IpAddress::V4(0x0a00_0000 + i as u32);
    let peer_id = PeerId([i; 20]);
    (
        PeerMapKey { ip, peer_id },
        Peer {
            connection_id: ConnectionId(0),
            ip_address: ip,
            id: peer_id,
            port: Port(6000 + i as u16),
            status,
            last_announce: Time(0),
        },
    )
}

fn scan(data: &TorrentData) -> (usize, usize) {
    let seeders = data
        .peers
        .values()
        .filter(|peer| peer.status == PeerStatus::Seeding)
        .count();
    let leechers = data
        .peers
        .values()
        .filter(|peer| peer.status == PeerStatus::Leeching)
        .count();
    (seeders, leechers)
}

#[test]
fn default_swarm_is_empty() {
    let data = TorrentData::default();
    assert_eq!(data.peers.len(), 0);
    assert_eq!(data.num_seeders, 0);
    assert_eq!(data.num_leechers, 0);
}

#[test]
fn announce_inserts_and_counts() {
    let mut data = TorrentData::default();
    let (k1, p1) = peer(1, PeerStatus::Seeding);
    assert_eq!(data.announce(k1, p1), (1, 0));
    let (k2, p2) = peer(2, PeerStatus::Leeching);
    assert_eq!(data.announce(k2, p2), (1, 1));
    let (k3, p3) = peer(3, PeerStatus::Leeching);
    assert_eq!(data.announce(k3, p3), (1, 2));
    assert_eq!(data.peers.len(), 3);
    assert_eq!(data.num_seeders, 1);
    assert_eq!(data.num_leechers, 2);
}

#[test]
fn announce_is_idempotent() {
    let mut data = TorrentData::default();
    let (k1, p1) = peer(1, PeerStatus::Seeding);
    assert_eq!(data.announce(k1, p1), (1, 0));
    assert_eq!(data.announce(k1, p1), (1, 0));
    assert_eq!(data.announce(k1, p1), (1, 0));
    assert_eq!(data.peers.len(), 1);
}

#[test]
fn leecher_that_completes_becomes_a_seeder() {
    let mut data = TorrentData::default();
    let (k1, p1) = peer(1, PeerStatus::Leeching);
    assert_eq!(data.announce(k1, p1), (0, 1));
    let (_, seeding) = peer(1, PeerStatus::Seeding);
    assert_eq!(data.announce(k1, seeding), (1, 0));
    assert_eq!(data.peers.get(&k1).map(|peer| peer.status), Some(PeerStatus::Seeding));
}

#[test]
fn stopped_peer_leaves() {
    let mut data = TorrentData::default();
    let (k1, p1) = peer(1, PeerStatus::Seeding);
    let (k2, p2) = peer(2, PeerStatus::Leeching);
    data.announce(k1, p1);
    data.announce(k2, p2);
    let (_, stopped) = peer(1, PeerStatus::Stopped);
    assert_eq!(data.announce(k1, stopped), (0, 1));
    assert!(data.peers.get(&k1).is_none());
    assert!(data.peers.get(&k2).is_some());
    assert_eq!(data.peers.len(), 1);
}

#[test]
fn stopped_peer_that_was_no_member_changes_nothing() {
    let mut data = TorrentData::default();
    let (k1, p1) = peer(1, PeerStatus::Seeding);
    data.announce(k1, p1);
    let (k9, stopped) = peer(9, PeerStatus::Stopped);
    assert_eq!(data.announce(k9, stopped), (1, 0));
    assert_eq!(data.peers.len(), 1);
}

#[test]
fn identity_is_address_and_peer_id_not_port() {
    let mut data = TorrentData::default();
    let (k1, p1) = peer(1, PeerStatus::Leeching);
    data.announce(k1, p1);
    let mut moved = p1;
    moved.port = Port(9999);
    assert_eq!(data.announce(k1, moved), (0, 1));
    assert_eq!(data.peers.len(), 1);
    assert_eq!(data.peers.get(&k1).map(|peer| peer.port), Some(Port(9999)));
}

#[test]
fn same_peer_id_from_another_address_is_another_member() {
    let mut data = TorrentData::default();
    let (k1, p1) = peer(1, PeerStatus::Leeching);
    data.announce(k1, p1);
    let other_key = PeerMapKey {
        ip: IpAddress::V4(0x0b00_0001),
        peer_id: k1.peer_id,
    };
    assert_eq!(data.announce(other_key, p1), (0, 2));
    assert_eq!(data.peers.len(), 2);
}

#[test]
fn counters_match_a_scan_under_random_announces() {
    let mut data = TorrentData::default();
    let mut state: u64 = 0x1234_5678_9abc_def0;
    for _ in 0..5000 {
        state = state
            .wrapping_mul(6364136223846793005)
            .wrapping_add(1442695040888963407);
        let who = ((state >> 33) % 12) as u8;
        let status = match (state >> 50) % 3 {
            0 => PeerStatus::Seeding,
            1 => PeerStatus::Leeching,
            _ => PeerStatus::Stopped,
        };
        let (key, value) = peer(who, status);
        let counts = data.announce(key, value);
        assert_eq!(counts, scan(&data));
        assert_eq!((data.num_seeders, data.num_leechers), counts);
        assert!(data
            .peers
            .values()
            .all(|peer| peer.status != PeerStatus::Stopped));
        assert_eq!(
            data.peers.get(&key).is_some(),
            status != PeerStatus::Stopped
        );
    }
}

#[test]
fn registry_keeps_swarms_apart() {
    let mut torrents = TorrentMap::new();
    let h1 = InfoHash([1; 20]);
    let h2 = InfoHash([2; 20]);
    let (k1, p1) = peer(1, PeerStatus::Seeding);
    let (k2, p2) = peer(2, PeerStatus::Leeching);
    assert_eq!(torrents.announce(h1, k1, p1), (1, 0));
    assert_eq!(torrents.announce(h2, k2, p2), (0, 1));
    assert_eq!(torrents.announce(h2, k1, p1), (1, 1));
    assert_eq!(
        torrents.scrape(&h1),
        ScrapeStatistics {
            complete: 1,
            incomplete: 0,
            downloaded: 0
        }
    );
    assert_eq!(
        torrents.scrape(&h2),
        ScrapeStatistics {
            complete: 1,
            incomplete: 1,
            downloaded: 0
        }
    );
}

#[test]
fn scrape_of_unknown_hash_is_all_zero() {
    let torrents = TorrentMap::new();
    assert_eq!(
        torrents.scrape(&InfoHash([7; 20])),
        ScrapeStatistics {
            complete: 0,
            incomplete: 0,
            downloaded: 0
        }
    );
}

#[test]
fn scrape_never_reports_downloads() {
    let mut torrents = TorrentMap::new();
    let h = InfoHash([3; 20]);
    for i in 0..10u8 {
        let (k, p) = peer(i, PeerStatus::Seeding);
        torrents.announce(h, k, p);
    }
    assert_eq!(torrents.scrape(&h).downloaded, 0);
    assert_eq!(torrents.scrape(&h).complete, 10);
}

#[test]
fn sample_of_unknown_hash_is_empty() {
    let torrents = TorrentMap::new();
    assert!(torrents.sample_peers(&InfoHash([7; 20]), 10).is_empty());
}

#[test]
fn sample_returns_all_members_in_order_when_few() {
    let mut torrents = TorrentMap::new();
    let h = InfoHash([3; 20]);
    for i in 0..4u8 {
        let (k, p) = peer(i, PeerStatus::Leeching);
        torrents.announce(h, k, p);
    }
    let expected: Vec<ResponsePeer> = (0..4u8)
        .map(|i| ResponsePeer {
            ip_address: IpAddress::V4(0x0a00_0000 + i as u32),
            port: Port(6000 + i as u16),
        })
        .collect();
    assert_eq!(torrents.sample_peers(&h, 4), expected);
    assert_eq!(torrents.sample_peers(&h, 100), expected);
}

#[test]
fn sample_returns_the_requested_count_when_many() {
    let mut torrents = TorrentMap::new();
    let h = InfoHash([3; 20]);
    for i in 0..30u8 {
        let (k, p) = peer(i, PeerStatus::Leeching);
        torrents.announce(h, k, p);
    }
    let sample = torrents.sample_peers(&h, 7);
    assert_eq!(sample.len(), 7);
    let mut ports: Vec<u16> = sample.iter().map(|peer| peer.port.0).collect();
    ports.sort();
    ports.dedup();
    assert_eq!(ports.len(), 7);
    assert!(torrents.sample_peers(&h, 0).is_empty());
}

#[test]
fn stopped_peer_is_absent_from_later_samples() {
    let mut torrents = TorrentMap::new();
    let h = InfoHash([3; 20]);
    let (k1, p1) = peer(1, PeerStatus::Seeding);
    let (k2, p2) = peer(2, PeerStatus::Leeching);
    torrents.announce(h, k1, p1);
    torrents.announce(h, k2, p2);
    let (_, stopped) = peer(1, PeerStatus::Stopped);
    torrents.announce(h, k1, stopped);
    let sample = torrents.sample_peers(&h, 10);
    assert_eq!(
        sample,
        vec![ResponsePeer {
            ip_address: IpAddress::V4(0x0a00_0002),
            port: Port(6002)
        }]
    );
}

#[test]
fn removal_puts_the_last_member_in_the_place_of_the_removed() {
    let mut torrents = TorrentMap::new();
    let h = InfoHash([3; 20]);
    for i in 0..4u8 {
        let (k, p) = peer(i, PeerStatus::Leeching);
        torrents.announce(h, k, p);
    }
    let (k0, stopped) = peer(0, PeerStatus::Stopped);
    torrents.announce(h, k0, stopped);
    let ports: Vec<u16> = torrents
        .sample_peers(&h, 10)
        .iter()
        .map(|peer| peer.port.0)
        .collect();
    assert_eq!(ports, vec![6003, 6001, 6002]);
}

#[test]
fn stopped_announce_to_unknown_swarm_leaves_it_without_members() {
    let mut torrents = TorrentMap::new();
    let h = InfoHash([5; 20]);
    let (k, stopped) = peer(1, PeerStatus::Stopped);
    assert_eq!(torrents.announce(h, k, stopped), (0, 0));
    assert!(torrents.sample_peers(&h, 10).is_empty());
}

#[test]
fn registry_has_an_entry_for_each_swarm_announced_to() {
    let mut torrents = TorrentMap::new();
    let h1 = InfoHash([1; 20]);
    let h2 = InfoHash([2; 20]);
    assert!(!torrents.contains(&h1));
    let (k1, p1) = peer(1, PeerStatus::Seeding);
    torrents.announce(h1, k1, p1);
    assert!(torrents.contains(&h1));
    assert!(!torrents.contains(&h2));
    let (_, stopped) = peer(1, PeerStatus::Stopped);
    torrents.announce(h1, k1, stopped);
    assert!(torrents.contains(&h1));
    torrents.announce(h2, k1, stopped);
    assert!(torrents.contains(&h2));
}
