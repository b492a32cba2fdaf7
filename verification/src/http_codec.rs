//! The responses of the HTTP protocol as bencoded values and bytes.

use crate::bencode::{
    bencode_bytes, bytes_of, dict_of, encode_bencode, entries_view, integer_of,
    lemma_entries_empty, push_entry, BencodeValue, BencodeView,
};
use crate::common::{InfoHash, IpAddress, ScrapeStatistics};
use crate::http::{
    AnnounceResponseFailure, AnnounceResponseSuccess, Response, ResponsePeer, ScrapeResponse,
};
use crate::scrape::is_listing;
use crate::text::{bytes_as_text, spec_bytes_as_text};
use vstd::prelude::*;
use vstd::string::StrSliceExecFns;

verus! {

/// The four bytes of a number, most significant first.
pub open spec fn be_bytes_u32(x: u32) -> Seq<u8> {
    seq![
        (x / 0x100_0000) as u8,
        ((x / 0x1_0000) % 0x100) as u8,
        ((x / 0x100) % 0x100) as u8,
        (x % 0x100) as u8,
    ]
}

/// The two bytes of a number, most significant first.
pub open spec fn be_bytes_u16(x: u16) -> Seq<u8> {
    seq![(x / 0x100) as u8, (x % 0x100) as u8]
}

/// The compact form of one peer: the four bytes of its IPv4 address and the
/// two of its port, most significant first. A peer with an IPv6 address has
/// none.
pub open spec fn compact_peer(peer: ResponsePeer) -> Seq<u8> {
    match peer.ip_address {
        IpAddress::V4(ip) => be_bytes_u32(ip) + be_bytes_u16(peer.port),
        IpAddress::V6(_) => Seq::empty(),
    }
}

/// The compact forms of the peers, one after the other.
pub open spec fn compact_peers(peers: Seq<ResponsePeer>) -> Seq<u8>
    decreases peers.len(),
{
    if peers.len() == 0 {
        Seq::empty()
    } else {
        compact_peers(peers.drop_last()) + compact_peer(peers.last())
    }
}

/// The compact form of a list of peers: six bytes for each peer with an
/// IPv4 address, in order; peers with an IPv6 address are passed over.
pub fn serialize_response_peers_compact(response_peers: &Vec<ResponsePeer>) -> (bytes: Vec<u8>)
    ensures
        bytes@ == compact_peers(response_peers@),
{
    let mut bytes: Vec<u8> = Vec::new();
    let mut i: usize = 0;
    while i < response_peers.len()
        invariant
            i <= response_peers.len(),
            bytes@ == compact_peers(response_peers@.take(i as int)),
        decreases response_peers.len() - i,
    {
        let peer = response_peers[i];
        let ghost before = bytes@;
        proof {
            assert(response_peers@.take(i + 1).drop_last() =~= response_peers@.take(i as int));
        }
        match peer.ip_address {
            IpAddress::V4(ip) => {
                bytes.push((ip / 0x100_0000) as u8);
                bytes.push(((ip / 0x1_0000) % 0x100) as u8);
                bytes.push(((ip / 0x100) % 0x100) as u8);
                bytes.push((ip % 0x100) as u8);
                bytes.push((peer.port / 0x100) as u8);
                bytes.push((peer.port % 0x100) as u8);
                proof {
                    assert(bytes@ =~= before + compact_peer(peer));
                }
            },
            IpAddress::V6(_) => {
                proof {
                    assert(bytes@ =~= before + compact_peer(peer));
                }
            },
        }
        i += 1;
    }
    proof {
        assert(response_peers@.take(i as int) =~= response_peers@);
    }
    bytes
}

/// The key of a dictionary for a name: its bytes.
pub open spec fn spec_key(name: Seq<char>) -> Seq<u8> {
    vstd::utf8::encode_utf8(name)
}

/// The key of a dictionary for a name: its bytes.
pub fn key(name: &str) -> (bytes: Vec<u8>)
    ensures
        bytes@ == spec_key(name@),
{
    name.as_bytes_vec()
}

/// A count as a bencoded integer, where it is small enough to be one.
pub open spec fn count_view(count: usize) -> Option<BencodeView> {
    if count <= i64::MAX {
        Some(BencodeView::Integer(count as i64))
    } else {
        None
    }
}

/// A count as a bencoded integer, where it is small enough to be one.
pub fn count_value(count: usize) -> (value: Option<BencodeValue>)
    ensures
        match value {
            Some(value) => count_view(count) == Some(value@),
            None => count_view(count).is_none(),
        },
{
    if count as u64 <= 0x7fff_ffff_ffff_ffff {
        Some(integer_of(count as i64))
    } else {
        None
    }
}

/// The statistics of one swarm as a dictionary, where its counts are small
/// enough.
pub open spec fn statistics_view(statistics: ScrapeStatistics) -> Option<BencodeView> {
    if statistics.complete <= i64::MAX && statistics.incomplete <= i64::MAX && statistics.downloaded
        <= i64::MAX {
        Some(
            BencodeView::Dict(
                Map::<Seq<u8>, BencodeView>::empty().insert(
                    spec_key("complete"@),
                    BencodeView::Integer(statistics.complete as i64),
                ).insert(
                    spec_key("incomplete"@),
                    BencodeView::Integer(statistics.incomplete as i64),
                ).insert(
                    spec_key("downloaded"@),
                    BencodeView::Integer(statistics.downloaded as i64),
                ),
            ),
        )
    } else {
        None
    }
}

/// The statistics of one swarm as a dictionary, where its counts are small
/// enough.
pub fn statistics_value(statistics: &ScrapeStatistics) -> (value: Option<BencodeValue>)
    ensures
        match value {
            Some(value) => statistics_view(*statistics) == Some(value@),
            None => statistics_view(*statistics).is_none(),
        },
{
    let complete = match count_value(statistics.complete) {
        Some(value) => value,
        None => {
            return None;
        },
    };
    let incomplete = match count_value(statistics.incomplete) {
        Some(value) => value,
        None => {
            return None;
        },
    };
    let downloaded = match count_value(statistics.downloaded) {
        Some(value) => value,
        None => {
            return None;
        },
    };
    let mut entries: Vec<(Vec<u8>, BencodeValue)> = Vec::new();
    proof {
        lemma_entries_empty(entries@);
    }
    push_entry(&mut entries, key("complete"), complete);
    push_entry(&mut entries, key("incomplete"), incomplete);
    push_entry(&mut entries, key("downloaded"), downloaded);
    Some(dict_of(entries))
}

/// The dictionary of the swarms listed, each under its info hash written
/// as text, where all counts are small enough.
pub open spec fn files_view(pairs: Seq<(InfoHash, ScrapeStatistics)>) -> Option<
    Map<Seq<u8>, BencodeView>,
>
    decreases pairs.len(),
{
    if pairs.len() == 0 {
        Some(Map::empty())
    } else {
        match (files_view(pairs.drop_last()), statistics_view(pairs.last().1)) {
            (Some(earlier), Some(statistics)) => Some(
                earlier.insert(spec_bytes_as_text(pairs.last().0.0@), statistics),
            ),
            _ => None,
        }
    }
}

impl AnnounceResponseSuccess {
    /// The response as a dictionary, where its counts are small enough: the
    /// interval, the tracker id, the seeders as `complete`, the leechers as
    /// `incomplete`, and the peers in their compact form, written as text.
    pub open spec fn spec_to_bencode(&self) -> Option<BencodeView> {
        if self.announce_interval <= i64::MAX && self.complete <= i64::MAX && self.incomplete
            <= i64::MAX {
            Some(
                BencodeView::Dict(
                    Map::<Seq<u8>, BencodeView>::empty().insert(
                        spec_key("interval"@),
                        BencodeView::Integer(self.announce_interval as i64),
                    ).insert(
                        spec_key("tracker_id"@),
                        BencodeView::Bytes(spec_key(self.tracker_id@)),
                    ).insert(
                        spec_key("complete"@),
                        BencodeView::Integer(self.complete as i64),
                    ).insert(
                        spec_key("incomplete"@),
                        BencodeView::Integer(self.incomplete as i64),
                    ).insert(
                        spec_key("peers"@),
                        BencodeView::Bytes(spec_bytes_as_text(compact_peers(self.peers@))),
                    ),
                ),
            )
        } else {
            None
        }
    }

    /// The response as a dictionary, where its counts are small enough.
    pub fn to_bencode(&self) -> (value: Option<BencodeValue>)
        ensures
            match value {
                Some(value) => self.spec_to_bencode() == Some(value@),
                None => self.spec_to_bencode().is_none(),
            },
    {
        let interval = match count_value(self.announce_interval) {
            Some(value) => value,
            None => {
                return None;
            },
        };
        let complete = match count_value(self.complete) {
            Some(value) => value,
            None => {
                return None;
            },
        };
        let incomplete = match count_value(self.incomplete) {
            Some(value) => value,
            None => {
                return None;
            },
        };
        let compact = serialize_response_peers_compact(&self.peers);
        let mut entries: Vec<(Vec<u8>, BencodeValue)> = Vec::new();
        proof {
            lemma_entries_empty(entries@);
        }
        push_entry(&mut entries, key("interval"), interval);
        push_entry(&mut entries, key("tracker_id"), bytes_of(key(self.tracker_id.as_str())));
        push_entry(&mut entries, key("complete"), complete);
        push_entry(&mut entries, key("incomplete"), incomplete);
        push_entry(&mut entries, key("peers"), bytes_of(bytes_as_text(&compact)));
        Some(dict_of(entries))
    }
}

impl AnnounceResponseFailure {
    /// The response as a dictionary: the reason of the failure.
    pub open spec fn spec_to_bencode(&self) -> BencodeView {
        BencodeView::Dict(
            Map::<Seq<u8>, BencodeView>::empty().insert(
                spec_key("failure_reason"@),
                BencodeView::Bytes(spec_key(self.failure_reason@)),
            ),
        )
    }

    /// The response as a dictionary: the reason of the failure.
    pub fn to_bencode(&self) -> (value: BencodeValue)
        ensures
            value@ == self.spec_to_bencode(),
    {
        let mut entries: Vec<(Vec<u8>, BencodeValue)> = Vec::new();
        proof {
            lemma_entries_empty(entries@);
        }
        push_entry(
            &mut entries,
            key("failure_reason"),
            bytes_of(key(self.failure_reason.as_str())),
        );
        dict_of(entries)
    }
}

impl ScrapeResponse {
    /// Whether `value` is the response as a dictionary: under `files`, a
    /// dictionary of the swarms, each under its info hash written as text.
    pub open spec fn is_bencode(&self, value: Option<BencodeView>) -> bool {
        exists|pairs: Seq<(InfoHash, ScrapeStatistics)>|
            {
                &&& #[trigger] is_listing(pairs, self.files@)
                &&& value == match files_view(pairs) {
                    Some(files) => Some(
                        BencodeView::Dict(
                            Map::<Seq<u8>, BencodeView>::empty().insert(
                                spec_key("files"@),
                                BencodeView::Dict(files),
                            ),
                        ),
                    ),
                    None => None,
                }
            }
    }

    /// The response as a dictionary, where all counts are small enough.
    pub fn to_bencode(&self) -> (value: Option<BencodeValue>)
        ensures
            self.is_bencode(
                match value {
                    Some(value) => Some(value@),
                    None => None,
                },
            ),
    {
        let pairs = self.files.pairs();
        let mut files: Vec<(Vec<u8>, BencodeValue)> = Vec::new();
        proof {
            lemma_entries_empty(files@);
        }
        let mut i: usize = 0;
        while i < pairs.len()
            invariant
                i <= pairs.len(),
                is_listing(pairs@, self.files@),
                files_view(pairs@.take(i as int)) == Some(entries_view(files@)),
            decreases pairs.len() - i,
        {
            proof {
                assert(pairs@.take(i + 1).drop_last() =~= pairs@.take(i as int));
            }
            let statistics = match statistics_value(&pairs[i].1) {
                Some(value) => value,
                None => {
                    proof {
                        lemma_files_view_none(pairs@, i as int);
                    }
                    return None;
                },
            };
            let info_hash_bytes = bytes_as_text(&array_to_vec(&pairs[i].0.0));
            push_entry(&mut files, info_hash_bytes, statistics);
            i += 1;
        }
        proof {
            assert(pairs@.take(i as int) =~= pairs@);
        }
        let mut entries: Vec<(Vec<u8>, BencodeValue)> = Vec::new();
        proof {
            lemma_entries_empty(entries@);
        }
        push_entry(&mut entries, key("files"), dict_of(files));
        Some(dict_of(entries))
    }
}

/// Where the statistics at `i` have a count that is too large, the swarms
/// listed have no dictionary.
pub proof fn lemma_files_view_none(pairs: Seq<(InfoHash, ScrapeStatistics)>, i: int)
    requires
        0 <= i < pairs.len(),
        statistics_view(pairs[i].1).is_none(),
    ensures
        files_view(pairs).is_none(),
    decreases pairs.len(),
{
    if i < pairs.len() - 1 {
        lemma_files_view_none(pairs.drop_last(), i);
    }
}

/// The twenty bytes as a vector.
pub fn array_to_vec(bytes: &[u8; 20]) -> (copied: Vec<u8>)
    ensures
        copied@ == bytes@,
{
    let mut copied: Vec<u8> = Vec::new();
    let mut i: usize = 0;
    while i < 20
        invariant
            i <= 20,
            copied@.len() == i,
            forall|j: int| 0 <= j < i ==> copied@[j] == bytes@[j],
        decreases 20 - i,
    {
        copied.push(bytes[i]);
        i += 1;
    }
    proof {
        assert(copied@ =~= bytes@);
    }
    copied
}

impl Response {
    /// Whether `value` is the response as a bencoded value; none where a
    /// count is too large to be bencoded.
    pub open spec fn is_bencode(&self, value: Option<BencodeView>) -> bool {
        match self {
            Response::AnnounceSuccess(response) => value == response.spec_to_bencode(),
            Response::AnnounceFailure(response) => value == Some(response.spec_to_bencode()),
            Response::Scrape(response) => response.is_bencode(value),
        }
    }

    /// The response as a bencoded value, where all counts are small enough.
    pub fn to_bencode(&self) -> (value: Option<BencodeValue>)
        ensures
            self.is_bencode(
                match value {
                    Some(value) => Some(value@),
                    None => None,
                },
            ),
    {
        match self {
            Response::AnnounceSuccess(response) => response.to_bencode(),
            Response::AnnounceFailure(response) => Some(response.to_bencode()),
            Response::Scrape(response) => response.to_bencode(),
        }
    }

    /// The bytes of the bencoded response, where it can be bencoded and the
    /// encoder gives bytes for it.
    pub fn to_bytes(self) -> (bytes: Option<Vec<u8>>)
        ensures
            match bytes {
                Some(bytes) => exists|value: BencodeView| #[trigger]
                    self.is_bencode(Some(value)) && bencode_bytes(value) == Some(bytes@),
                None => self.is_bencode(None) || exists|value: BencodeView| #[trigger]
                    self.is_bencode(Some(value)) && bencode_bytes(value).is_none(),
            },
    {
        match self.to_bencode() {
            Some(value) => encode_bencode(&value),
            None => None,
        }
    }
}

} // verus!
