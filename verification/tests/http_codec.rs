use aquatic::bencode::{encode_bencode, BencodeValue};
use aquatic::common::{InfoHash, IpAddress, ScrapeStatistics, SocketAddress, Time, ValidUntil};
use aquatic::http::{
    AnnounceResponseFailure, AnnounceResponseSuccess, ConnectionMeta, Peer, Response, ResponsePeer,
    ScrapeResponse, Token,
};
use aquatic::http_codec::{key, serialize_response_peers_compact};
use aquatic::peers::PeerStatus;
use aquatic::scrape::StatsMap;
use aquatic::text::bytes_as_text;

fn v4(a: u8, b: u8, c: u8, d: u8, port: u16) -> ResponsePeer {
    ResponsePeer {
        ip_address: IpAddress::V4(u32::from_be_bytes([a, b, c, d])),
        port,
    }
}

#[test]
fn response_peer_is_where_the_connection_comes_from() {
    let peer = Peer {
        connection_meta: ConnectionMeta {
            worker_index: 1,
            poll_token: Token(2),
            peer_addr: SocketAddress {
                ip: IpAddress::V4(77),
                port: 40000,
            },
        },
        port: 6881,
        status: PeerStatus::Seeding,
        valid_until: ValidUntil(Time(5)),
    };
    assert_eq!(
        ResponsePeer::from_peer(&peer),
        ResponsePeer {
            ip_address: IpAddress::V4(77),
            port: 6881
        }
    );
}

#[test]
fn compact_form_is_six_bytes_per_ipv4_peer() {
    assert_eq!(serialize_response_peers_compact(&vec![]), Vec::<u8>::new());
    assert_eq!(
        serialize_response_peers_compact(&vec![v4(127, 0, 0, 1, 6881)]),
        vec![127, 0, 0, 1, 0x1a, 0xe1]
    );
    assert_eq!(
        serialize_response_peers_compact(&vec![
            v4(1, 2, 3, 4, 0x0506),
            v4(255, 254, 253, 252, 0xfffe),
            v4(0, 0, 0, 0, 0),
        ]),
        vec![1, 2, 3, 4, 5, 6, 255, 254, 253, 252, 255, 254, 0, 0, 0, 0, 0, 0]
    );
}

#[test]
fn compact_form_matches_the_big_endian_bytes_of_std() {
    for ip in [0u32, 1, 255, 256, 65535, 65536, 0x0102_0304, 0xdead_beef, u32::MAX] {
        for port in [0u16, 1, 255, 256, 6881, u16::MAX] {
            let mut expected = ip.to_be_bytes().to_vec();
            expected.extend_from_slice(&port.to_be_bytes());
            assert_eq!(
                serialize_response_peers_compact(&vec![ResponsePeer {
                    ip_address: IpAddress::V4(ip),
                    port
                }]),
                expected
            );
        }
    }
}

#[test]
fn compact_form_passes_over_ipv6_peers() {
    let peers = vec![
        ResponsePeer {
            ip_address: IpAddress::V6(1),
            port: 1,
        },
        v4(9, 9, 9, 9, 9),
        ResponsePeer {
            ip_address: IpAddress::V6(u128::MAX),
            port: 2,
        },
    ];
    assert_eq!(
        serialize_response_peers_compact(&peers),
        vec![9, 9, 9, 9, 0, 9]
    );
}

#[test]
fn bytes_travel_as_text_in_utf8() {
    assert_eq!(bytes_as_text(&vec![]), Vec::<u8>::new());
    assert_eq!(bytes_as_text(&vec![0, 1, 0x41, 0x7f]), vec![0, 1, 0x41, 0x7f]);
    assert_eq!(bytes_as_text(&vec![0x80]), vec![0xc2, 0x80]);
    assert_eq!(bytes_as_text(&vec![0xe1]), vec![0xc3, 0xa1]);
    assert_eq!(bytes_as_text(&vec![0xff, 0x20, 0xbf]), vec![0xc3, 0xbf, 0x20, 0xc2, 0xbf]);
}

#[test]
fn key_is_the_bytes_of_the_name() {
    assert_eq!(key("files"), b"files".to_vec());
    assert_eq!(key(""), Vec::<u8>::new());
}

#[test]
fn bencode_encodes_each_kind_of_value() {
    assert_eq!(
        encode_bencode(&BencodeValue::Integer(-42)),
        Some(b"i-42e".to_vec())
    );
    assert_eq!(
        encode_bencode(&BencodeValue::Bytes(b"spam".to_vec())),
        Some(b"4:spam".to_vec())
    );
    assert_eq!(
        encode_bencode(&BencodeValue::List(vec![
            BencodeValue::Integer(1),
            BencodeValue::Bytes(vec![]),
            BencodeValue::List(vec![]),
        ])),
        Some(b"li1e0:lee".to_vec())
    );
    assert_eq!(
        encode_bencode(&BencodeValue::Dict(vec![
            (b"b".to_vec(), BencodeValue::Integer(2)),
            (b"a".to_vec(), BencodeValue::Integer(1)),
        ])),
        Some(b"d1:ai1e1:bi2ee".to_vec())
    );
}

#[test]
fn bencode_dict_keeps_the_later_of_two_entries_of_one_key() {
    assert_eq!(
        encode_bencode(&BencodeValue::Dict(vec![
            (b"a".to_vec(), BencodeValue::Integer(1)),
            (b"a".to_vec(), BencodeValue::Integer(2)),
        ])),
        Some(b"d1:ai2ee".to_vec())
    );
}

#[test]
fn failure_response_as_bytes() {
    let response = Response::AnnounceFailure(AnnounceResponseFailure {
        failure_reason: "invalid request".to_string(),
    });
    assert_eq!(
        response.to_bytes(),
        Some(b"d14:failure_reason15:invalid requeste".to_vec())
    );
}

#[test]
fn announce_response_as_bytes() {
    let response = Response::AnnounceSuccess(AnnounceResponseSuccess {
        announce_interval: 600,
        tracker_id: "".to_string(),
        complete: 1,
        incomplete: 2,
        peers: vec![v4(10, 0, 0, 1, 0x1a61), v4(10, 0, 0, 2, 0x1a62)],
    });
    let mut expected = b"d8:completei1e10:incompletei2e8:intervali600e5:peers12:".to_vec();
    expected.extend_from_slice(&[10, 0, 0, 1, 0x1a, 0x61, 10, 0, 0, 2, 0x1a, 0x62]);
    expected.extend_from_slice(b"10:tracker_id0:e");
    assert_eq!(response.to_bytes(), Some(expected));
}

#[test]
fn announce_response_writes_high_bytes_of_peers_as_characters() {
    let response = Response::AnnounceSuccess(AnnounceResponseSuccess {
        announce_interval: 120,
        tracker_id: "t".to_string(),
        complete: 0,
        incomplete: 0,
        peers: vec![v4(127, 0, 0, 1, 6881)],
    });
    let mut expected = b"d8:completei0e10:incompletei0e8:intervali120e5:peers7:".to_vec();
    expected.extend_from_slice(&[127, 0, 0, 1, 0x1a, 0xc3, 0xa1]);
    expected.extend_from_slice(b"10:tracker_id1:te");
    assert_eq!(response.to_bytes(), Some(expected));
}

#[test]
fn announce_response_with_a_count_too_large_has_no_bytes() {
    if usize::MAX as u64 > i64::MAX as u64 {
        let response = AnnounceResponseSuccess {
            announce_interval: 600,
            tracker_id: "".to_string(),
            complete: usize::MAX,
            incomplete: 2,
            peers: vec![],
        };
        assert!(response.to_bencode().is_none());
        assert_eq!(Response::AnnounceSuccess(response).to_bytes(), None);
    }
}

#[test]
fn scrape_response_as_bytes() {
    let mut files = StatsMap::new();
    files.insert(
        InfoHash([b'b'; 20]),
        ScrapeStatistics {
            complete: 3,
            incomplete: 4,
            downloaded: 0,
        },
    );
    files.insert(
        InfoHash([b'a'; 20]),
        ScrapeStatistics {
            complete: 1,
            incomplete: 2,
            downloaded: 0,
        },
    );
    let response = Response::Scrape(ScrapeResponse { files });
    assert_eq!(
        response.to_bytes(),
        Some(
            b"d5:filesd20:aaaaaaaaaaaaaaaaaaaad8:completei1e10:downloadedi0e10:incompletei2ee20:bbbbbbbbbbbbbbbbbbbbd8:completei3e10:downloadedi0e10:incompletei4eeee"
                .to_vec()
        )
    );
}

#[test]
fn scrape_response_of_nothing_as_bytes() {
    let response = Response::Scrape(ScrapeResponse {
        files: StatsMap::new(),
    });
    assert_eq!(response.to_bytes(), Some(b"d5:filesdee".to_vec()));
}

#[test]
fn response_as_bencoded_value() {
    let failure = AnnounceResponseFailure {
        failure_reason: "no".to_string(),
    };
    match failure.to_bencode() {
        BencodeValue::Dict(entries) => {
            assert_eq!(entries.len(), 1);
            assert_eq!(entries[0].0, b"failure_reason".to_vec());
            assert!(matches!(&entries[0].1, BencodeValue::Bytes(bytes) if bytes == b"no"));
        }
        _ => panic!("no dictionary"),
    }
}
