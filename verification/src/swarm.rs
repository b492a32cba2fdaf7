//! The swarm registry: who is a member of which swarm, how many members seed
//! and how many leech.

use crate::common::{InfoHash, ScrapeStatistics};
use crate::peers::{
    count_status, distinct_keys, entries_after_announce, entries_map, has_key, lemma_counts_partition, lemma_push, lemma_swap_remove, lemma_update, peer_entries,
    peer_map_insert, peer_map_len, peer_map_new, peer_map_swap_remove, position_of, Peer, PeerMap,
    PeerMapKey, PeerStatus, ResponsePeer,
};
use crate::sampler::{extract_response_peers, is_sample_of, response_peers_of};
use vstd::prelude::*;

verus! {

/// The members of one swarm with a running count of its seeders and of its
/// leechers.
pub struct TorrentData {
    pub peers: PeerMap,
    pub num_seeders: usize,
    pub num_leechers: usize,
}

impl View for TorrentData {
    type V = Map<PeerMapKey, Peer>;

    /// The members by identity.
    open spec fn view(&self) -> Map<PeerMapKey, Peer> {
        entries_map(peer_entries(self.peers))
    }
}

impl TorrentData {
    /// No identity is stored twice, no stored peer has left, and each counter
    /// is the number of stored peers with its status.
    pub open spec fn wf(&self) -> bool {
        &&& distinct_keys(peer_entries(self.peers))
        &&& count_status(peer_entries(self.peers), PeerStatus::Stopped) == 0
        &&& self.num_seeders == count_status(peer_entries(self.peers), PeerStatus::Seeding)
        &&& self.num_leechers == count_status(peer_entries(self.peers), PeerStatus::Leeching)
    }

    /// A swarm without members.
    pub open spec fn is_empty(&self) -> bool {
        &&& peer_entries(self.peers) == Seq::<(PeerMapKey, Peer)>::empty()
        &&& self.num_seeders == 0
        &&& self.num_leechers == 0
    }

    /// The number of stored peers with the given status.
    pub open spec fn count(&self, status: PeerStatus) -> nat {
        count_status(peer_entries(self.peers), status)
    }

    /// Takes in one announce. A peer that has stopped leaves the swarm, if it
    /// was a member; any other is stored under its identity, in place of what
    /// was stored there. The counter of the new status goes up first, then
    /// the counter of the displaced entry's status goes down. Returns the
    /// seeders and the leechers after that.
    pub fn announce(&mut self, key: PeerMapKey, peer: Peer) -> (counts: (usize, usize))
        requires
            old(self).wf(),
        ensures
            final(self).wf(),
            peer_entries(final(self).peers) == entries_after_announce(
                peer_entries(old(self).peers),
                key,
                peer,
            ),
            peer.status == PeerStatus::Stopped ==> final(self)@ == old(self)@.remove(key),
            peer.status != PeerStatus::Stopped ==> final(self)@ == old(self)@.insert(key, peer),
            counts.0 == final(self).num_seeders,
            counts.1 == final(self).num_leechers,
            counts.0 == final(self).count(PeerStatus::Seeding),
            counts.1 == final(self).count(PeerStatus::Leeching),
    {
        let ghost before = peer_entries(self.peers);
        let opt_removed_peer = match peer.status {
            PeerStatus::Stopped => peer_map_swap_remove(&mut self.peers, &key),
            _ => peer_map_insert(&mut self.peers, key, peer),
        };
        let stored = peer_map_len(&self.peers);
        proof {
            let after = peer_entries(self.peers);
            lemma_counts_partition(before);
            lemma_counts_partition(after);
            if has_key(before, key) {
                let i = position_of(before, key);
                if peer.status == PeerStatus::Stopped {
                    lemma_swap_remove(before, i);
                } else {
                    lemma_update(before, i, peer);
                }
            } else {
                if peer.status == PeerStatus::Stopped {
                    assert(entries_map(before).remove(key) =~= entries_map(before));
                } else {
                    lemma_push(before, key, peer);
                }
            }
        }
        match peer.status {
            PeerStatus::Leeching => {
                self.num_leechers = self.num_leechers.wrapping_add(1);
            },
            PeerStatus::Seeding => {
                self.num_seeders = self.num_seeders.wrapping_add(1);
            },
            PeerStatus::Stopped => {},
        }
        if let Some(removed_peer) = opt_removed_peer {
            match removed_peer.status {
                PeerStatus::Leeching => {
                    self.num_leechers = self.num_leechers.wrapping_sub(1);
                },
                PeerStatus::Seeding => {
                    self.num_seeders = self.num_seeders.wrapping_sub(1);
                },
                PeerStatus::Stopped => {},
            }
        }
        (self.num_seeders, self.num_leechers)
    }
}

impl Default for TorrentData {
    /// A swarm without members.
    fn default() -> (data: Self)
        ensures
            data.is_empty(),
            data.wf(),
            data@ == Map::<PeerMapKey, Peer>::empty(),
    {
        let data = TorrentData { peers: peer_map_new(), num_seeders: 0, num_leechers: 0 };
        assert(data@ =~= Map::<PeerMapKey, Peer>::empty());
        data
    }
}

/// The swarms of one shard, by info hash: a `hashbrown::HashMap`. Nothing
/// of its inside is looked into here; what it holds goes by the name
/// `torrent_entries`.
#[verifier::external_body]
pub struct TorrentMap {
    inner: hashbrown::HashMap<InfoHash, TorrentData>,
}

/// The swarms that a torrent map holds, by info hash.
pub uninterp spec fn torrent_entries(map: TorrentMap) -> Map<InfoHash, TorrentData>;

/// `HashMap::new` of hashbrown: the new map holds nothing.
#[verifier::external_body]
fn torrent_map_new() -> (torrents: TorrentMap)
    ensures
        torrent_entries(torrents) == (Map::<InfoHash, TorrentData>::empty()),
{
    TorrentMap { inner: hashbrown::HashMap::new() }
}

/// `HashMap::get` of hashbrown: the swarm stored under `info_hash`, if one
/// is.
#[verifier::external_body]
fn torrent_map_get<'a>(map: &'a TorrentMap, info_hash: &InfoHash) -> (data: Option<&'a TorrentData>)
    ensures
        torrent_entries(*map).contains_key(*info_hash) ==> data == Some(
            &torrent_entries(*map)[*info_hash],
        ),
        !torrent_entries(*map).contains_key(*info_hash) ==> data.is_none(),
{
    map.inner.get(info_hash)
}

/// `HashMap::entry` of hashbrown with `Entry::or_insert_with`: the swarm
/// stored under `info_hash`, after a swarm without members was stored there
/// if none was. What the caller leaves behind the reference is what the map
/// then holds under `info_hash`; nothing else in the map changes.
#[verifier::external_body]
fn torrent_map_entry_or_default(map: &mut TorrentMap, info_hash: InfoHash) -> (data: &mut TorrentData)
    ensures
        torrent_entries(*old(map)).contains_key(info_hash) ==> *data == torrent_entries(
            *old(map),
        )[info_hash],
        !torrent_entries(*old(map)).contains_key(info_hash) ==> data.is_empty(),
        torrent_entries(*final(map)) == torrent_entries(*old(map)).insert(info_hash, *final(data)),
{
    map.inner.entry(info_hash).or_insert_with(TorrentData::default)
}

impl TorrentMap {
    /// Every stored swarm is well formed.
    pub open spec fn wf(&self) -> bool {
        forall|info_hash: InfoHash| #[trigger]
            torrent_entries(*self).contains_key(info_hash) ==> torrent_entries(
                *self,
            )[info_hash].wf()
    }

    /// The members of the swarm `info_hash`, by identity; none where the hash
    /// is unknown.
    pub open spec fn members(&self, info_hash: InfoHash) -> Map<PeerMapKey, Peer> {
        if torrent_entries(*self).contains_key(info_hash) {
            torrent_entries(*self)[info_hash]@
        } else {
            Map::empty()
        }
    }

    /// The stored pairs of the swarm `info_hash`, in the order of their map;
    /// none where the hash is unknown.
    pub open spec fn stored(&self, info_hash: InfoHash) -> Seq<(PeerMapKey, Peer)> {
        if torrent_entries(*self).contains_key(info_hash) {
            peer_entries(torrent_entries(*self)[info_hash].peers)
        } else {
            Seq::empty()
        }
    }

    /// The info hashes that the registry has an entry for: those that were
    /// announced to, whether or not their swarm still has members.
    pub open spec fn known(&self) -> Set<InfoHash> {
        torrent_entries(*self).dom()
    }

    /// The stored pairs of every swarm that the registry has an entry for,
    /// by info hash.
    pub open spec fn swarms(&self) -> Map<InfoHash, Seq<(PeerMapKey, Peer)>> {
        Map::new(
            |info_hash: InfoHash| torrent_entries(*self).contains_key(info_hash),
            |info_hash: InfoHash| self.stored(info_hash),
        )
    }

    /// The number of members of the swarm `info_hash` with the given status.
    pub open spec fn count(&self, info_hash: InfoHash, status: PeerStatus) -> nat {
        count_status(self.stored(info_hash), status)
    }

    /// A registry without swarms.
    pub fn new() -> (map: TorrentMap)
        ensures
            map.wf(),
            map.known() == Set::<InfoHash>::empty(),
            map.swarms() == Map::<InfoHash, Seq<(PeerMapKey, Peer)>>::empty(),
            forall|info_hash: InfoHash| #[trigger]
                map.members(info_hash) == Map::<PeerMapKey, Peer>::empty(),
            forall|info_hash: InfoHash| #[trigger]
                map.stored(info_hash) == Seq::<(PeerMapKey, Peer)>::empty(),
    {
        let map = torrent_map_new();
        proof {
            assert(map.known() =~= Set::<InfoHash>::empty());
            assert(map.swarms() =~= Map::<InfoHash, Seq<(PeerMapKey, Peer)>>::empty());
        }
        map
    }

    /// Whether the registry has an entry for the swarm `info_hash`.
    pub fn contains(&self, info_hash: &InfoHash) -> (found: bool)
        ensures
            found == self.known().contains(*info_hash),
    {
        torrent_map_get(self, info_hash).is_some()
    }

    /// Takes in one announce for the swarm `info_hash`: a peer that has
    /// stopped leaves it, any other is stored under its identity. Returns the
    /// swarm's seeders and leechers after that. The registry has an entry for
    /// the swarm afterwards, with or without members. No other swarm changes,
    /// and no other entry comes or goes.
    pub fn announce(&mut self, info_hash: InfoHash, key: PeerMapKey, peer: Peer) -> (counts: (
        usize,
        usize,
    ))
        requires
            old(self).wf(),
        ensures
            final(self).wf(),
            final(self).known() == old(self).known().insert(info_hash),
            final(self).stored(info_hash) == entries_after_announce(
                old(self).stored(info_hash),
                key,
                peer,
            ),
            final(self).swarms() == old(self).swarms().insert(
                info_hash,
                entries_after_announce(old(self).stored(info_hash), key, peer),
            ),
            peer.status == PeerStatus::Stopped ==> final(self).members(info_hash) == old(
                self,
            ).members(info_hash).remove(key),
            peer.status != PeerStatus::Stopped ==> final(self).members(info_hash) == old(
                self,
            ).members(info_hash).insert(key, peer),
            forall|other: InfoHash|
                other != info_hash ==> #[trigger] final(self).stored(other) == old(self).stored(
                    other,
                ),
            forall|other: InfoHash|
                other != info_hash ==> #[trigger] final(self).members(other) == old(self).members(
                    other,
                ),
            counts.0 == final(self).count(info_hash, PeerStatus::Seeding),
            counts.1 == final(self).count(info_hash, PeerStatus::Leeching),
    {
        let data = torrent_map_entry_or_default(self, info_hash);
        proof {
            assert(data@ =~= old(self).members(info_hash));
        }
        let counts = data.announce(key, peer);
        proof {
            assert(self.known() =~= old(self).known().insert(info_hash));
            assert(self.swarms() =~= old(self).swarms().insert(
                info_hash,
                entries_after_announce(old(self).stored(info_hash), key, peer),
            ));
        }
        counts
    }

    /// The statistics of the swarm `info_hash`: its seeders, its leechers,
    /// and zero finished downloads. All zero where the hash is unknown.
    pub fn scrape(&self, info_hash: &InfoHash) -> (statistics: ScrapeStatistics)
        requires
            self.wf(),
        ensures
            statistics.complete == self.count(*info_hash, PeerStatus::Seeding),
            statistics.incomplete == self.count(*info_hash, PeerStatus::Leeching),
            statistics.downloaded == 0,
    {
        match torrent_map_get(self, info_hash) {
            Some(data) => ScrapeStatistics {
                complete: data.num_seeders,
                incomplete: data.num_leechers,
                downloaded: 0,
            },
            None => ScrapeStatistics { complete: 0, incomplete: 0, downloaded: 0 },
        }
    }

    /// Peers of the swarm `info_hash` to answer an announce with: all of its
    /// members where they are no more than `requested_count`, else that many
    /// distinct members chosen at random. None where the hash is unknown.
    pub fn sample_peers(&self, info_hash: &InfoHash, requested_count: usize) -> (peers: Vec<
        ResponsePeer,
    >)
        ensures
            is_sample_of(peers@, self.stored(*info_hash), requested_count),
            peers@.len() == if self.stored(*info_hash).len() <= requested_count {
                self.stored(*info_hash).len()
            } else {
                requested_count as nat
            },
    {
        match torrent_map_get(self, info_hash) {
            Some(data) => extract_response_peers(&data.peers, requested_count),
            None => {
                let peers: Vec<ResponsePeer> = Vec::new();
                proof {
                    assert(peers@ =~= response_peers_of(self.stored(*info_hash)));
                }
                peers
            },
        }
    }
}

} // verus!
