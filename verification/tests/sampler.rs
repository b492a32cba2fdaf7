use aquatic::common::{IpAddress, PeerId, Time};
use aquatic::peers::{ConnectionId, Peer, PeerMap, PeerMapKey, PeerStatus, Port, ResponsePeer};
use aquatic::sampler::{all_response_peers, extract_response_peers, select_response_peers};
use indexmap::IndexMap;
use quickcheck::{quickcheck, TestResult};

fn gen_peer_map_key_and_value(i: u8) -> (PeerMapKey, Peer) {
    let ip_address = IpAddress::V4(0x7f00_0001);
    let peer_id = PeerId([i; 20]);

    let key = PeerMapKey {
        ip: ip_address,
        peer_id,
    };
    let value = Peer {
        connection_id: ConnectionId(0),
        ip_address,
        id: peer_id,
        port: Port(1),
        status: PeerStatus::Leeching,
        last_announce: Time(0),
    };

    (key, value)
}

fn peer_map_of(gen_num_peers: u8) -> PeerMap {
    let mut peer_map: PeerMap = IndexMap::new();

    for i in 0..gen_num_peers {
        let (key, value) = gen_peer_map_key_and_value(i);

        peer_map.insert(key, value);
    }

    peer_map
}

fn prop(data: (u8, u8)) -> TestResult {
    let gen_num_peers = data.0;
    let req_num_peers = data.1 as usize;

    let peer_map = peer_map_of(gen_num_peers);

    let num_returned = extract_response_peers(&peer_map, req_num_peers).len();

    let mut success = num_returned <= req_num_peers;

    if req_num_peers >= gen_num_peers as usize {
        success &= num_returned == gen_num_peers as usize;
    }

    TestResult::from_bool(success)
}

#[test]
fn test_extract_response_peers() {
    quickcheck(prop as fn((u8, u8)) -> TestResult);
}

#[test]
fn extract_returns_min_of_population_and_request() {
    for gen_num_peers in [0u8, 1, 2, 7, 40, 255] {
        let peer_map = peer_map_of(gen_num_peers);
        for req_num_peers in [0usize, 1, 2, 6, 7, 8, 39, 40, 41, 254, 255, 256, 1000] {
            let peers = extract_response_peers(&peer_map, req_num_peers);
            assert_eq!(peers.len(), std::cmp::min(gen_num_peers as usize, req_num_peers));
        }
    }
}

#[test]
fn extract_returns_every_peer_when_enough_are_asked_for() {
    let mut peer_map: PeerMap = IndexMap::new();
    for i in 0..5u8 {
        let (key, mut value) = gen_peer_map_key_and_value(i);
        value.port = Port(6000 + i as u16);
        peer_map.insert(key, value);
    }
    let expected: Vec<ResponsePeer> = (0..5u16)
        .map(|i| ResponsePeer {
            ip_address: IpAddress::V4(0x7f00_0001),
            port: Port(6000 + i),
        })
        .collect();
    assert_eq!(extract_response_peers(&peer_map, 5), expected);
    assert_eq!(extract_response_peers(&peer_map, 9), expected);
    assert_eq!(all_response_peers(&peer_map), expected);
}

#[test]
fn extract_returns_distinct_members_when_fewer_are_asked_for() {
    let mut peer_map: PeerMap = IndexMap::new();
    for i in 0..50u8 {
        let (key, mut value) = gen_peer_map_key_and_value(i);
        value.port = Port(7000 + i as u16);
        peer_map.insert(key, value);
    }
    for _ in 0..20 {
        let peers = extract_response_peers(&peer_map, 10);
        assert_eq!(peers.len(), 10);
        let mut ports: Vec<u16> = peers.iter().map(|peer| peer.port.0).collect();
        ports.sort();
        ports.dedup();
        assert_eq!(ports.len(), 10);
        assert!(ports.iter().all(|port| (7000..7050).contains(port)));
    }
}

#[test]
fn extract_does_not_hand_out_one_stretch_of_neighbours_every_time() {
    let peer_map = {
        let mut peer_map: PeerMap = IndexMap::new();
        for i in 0..200u8 {
            let (key, mut value) = gen_peer_map_key_and_value(i);
            value.port = Port(i as u16);
            peer_map.insert(key, value);
        }
        peer_map
    };
    let mut saw_other_than_first_ten = false;
    for _ in 0..50 {
        let peers = extract_response_peers(&peer_map, 10);
        if peers.iter().any(|peer| peer.port.0 >= 10) {
            saw_other_than_first_ten = true;
        }
    }
    assert!(saw_other_than_first_ten);
}

#[test]
fn select_picks_by_position_and_passes_over_positions_that_are_none() {
    let mut peer_map: PeerMap = IndexMap::new();
    for i in 0..4u8 {
        let (key, mut value) = gen_peer_map_key_and_value(i);
        value.port = Port(100 + i as u16);
        peer_map.insert(key, value);
    }
    let picked = select_response_peers(&peer_map, &vec![3, 0, 9, 2]);
    let ports: Vec<u16> = picked.iter().map(|peer| peer.port.0).collect();
    assert_eq!(ports, vec![103, 100, 102]);
}
