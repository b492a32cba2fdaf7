//! Swarm members and the ordered map that holds the members of one swarm.

use crate::common::{IpAddress, PeerId, Time};
use vstd::prelude::*;

verus! {

/// The token that gated the announce which stored a peer.
#[derive(Clone, Copy, Debug, PartialEq, Eq, Hash, Structural)]
pub struct ConnectionId(pub i64);

/// A port as a peer reports it.
#[derive(Clone, Copy, Debug, PartialEq, Eq, Hash, Structural)]
pub struct Port(pub u16);

/// What a peer holds of the content: some of it, all of it, or it has left.
#[derive(Clone, Copy, Debug, PartialEq, Eq, Hash, Structural)]
pub enum PeerStatus {
    Seeding,
    Leeching,
    Stopped,
}

/// One participant of a swarm.
#[derive(Clone, Copy, Debug)]
pub struct Peer {
    pub connection_id: ConnectionId,
    pub ip_address: IpAddress,
    pub id: PeerId,
    pub port: Port,
    pub status: PeerStatus,
    pub last_announce: Time,
}

/// The form in which a peer is handed to other peers: where to reach it.
#[derive(Clone, Copy, Debug, PartialEq, Eq, Hash, Structural)]
pub struct ResponsePeer {
    pub ip_address: IpAddress,
    pub port: Port,
}

impl Peer {
    /// Where this peer can be reached.
    pub open spec fn spec_to_response_peer(&self) -> ResponsePeer {
        ResponsePeer { ip_address: self.ip_address, port: self.port }
    }

    /// Where this peer can be reached.
    #[verifier::when_used_as_spec(spec_to_response_peer)]
    pub fn to_response_peer(&self) -> (r: ResponsePeer)
        ensures
            r == self.spec_to_response_peer(),
    {
        ResponsePeer { ip_address: self.ip_address, port: self.port }
    }
}

/// The identity of a peer within a swarm. The port is no part of it, so a
/// peer that announces from another port is still the same member.
#[derive(Clone, Copy, Debug, PartialEq, Eq, Hash)]
pub struct PeerMapKey {
    pub ip: IpAddress,
    pub peer_id: PeerId,
}

/// `indexmap::IndexMap`: a map that keeps its pairs at indices without
/// holes. Nothing of its inside is looked into here; what it holds goes by
/// the name `peer_entries`.
#[verifier::external_type_specification]
#[verifier::external_body]
#[verifier::reject_recursive_types(K)]
#[verifier::reject_recursive_types(V)]
#[verifier::reject_recursive_types(S)]
pub struct ExIndexMap<K, V, S>(indexmap::IndexMap<K, V, S>);

/// The members of one swarm, by identity.
pub type PeerMap = indexmap::IndexMap<PeerMapKey, Peer>;

/// The key-value pairs that a peer map holds, in the order of their indices.
pub uninterp spec fn peer_entries(map: PeerMap) -> Seq<(PeerMapKey, Peer)>;

/// The position of `key` among `entries`, where it has one.
pub open spec fn position_of(entries: Seq<(PeerMapKey, Peer)>, key: PeerMapKey) -> int {
    choose|i: int| 0 <= i < entries.len() && entries[i].0 == key
}

/// Whether one of `entries` is stored under `key`.
pub open spec fn has_key(entries: Seq<(PeerMapKey, Peer)>, key: PeerMapKey) -> bool {
    exists|i: int| 0 <= i < entries.len() && entries[i].0 == key
}

/// No two of `entries` are stored under one key.
pub open spec fn distinct_keys(entries: Seq<(PeerMapKey, Peer)>) -> bool {
    forall|i: int, j: int|
        0 <= i < j < entries.len() ==> (#[trigger] entries[i]).0 != (#[trigger] entries[j]).0
}

/// The mapping from identity to peer that `entries` stand for.
pub open spec fn entries_map(entries: Seq<(PeerMapKey, Peer)>) -> Map<PeerMapKey, Peer> {
    Map::new(
        |key: PeerMapKey| has_key(entries, key),
        |key: PeerMapKey| entries[position_of(entries, key)].1,
    )
}

/// The number of `entries` whose peer has the given status.
pub open spec fn count_status(entries: Seq<(PeerMapKey, Peer)>, status: PeerStatus) -> nat
    decreases entries.len(),
{
    if entries.len() == 0 {
        0
    } else {
        count_status(entries.drop_last(), status) + if entries.last().1.status == status {
            1nat
        } else {
            0nat
        }
    }
}

/// The entries after an announce of `peer` under `key`: a peer that has
/// stopped is removed, the last entry taking its place; any other replaces
/// the entry of its key where it stands, or becomes the last entry.
pub open spec fn entries_after_announce(
    entries: Seq<(PeerMapKey, Peer)>,
    key: PeerMapKey,
    peer: Peer,
) -> Seq<(PeerMapKey, Peer)> {
    if has_key(entries, key) {
        let i = position_of(entries, key);
        if peer.status == PeerStatus::Stopped {
            entries.update(i, entries.last()).drop_last()
        } else {
            entries.update(i, (key, peer))
        }
    } else if peer.status == PeerStatus::Stopped {
        entries
    } else {
        entries.push((key, peer))
    }
}

/// One if `peer` has the given status, else zero.
pub open spec fn status_weight(peer: Peer, status: PeerStatus) -> nat {
    if peer.status == status {
        1
    } else {
        0
    }
}

/// Among entries with distinct keys, a key is found at its one position.
pub proof fn lemma_position_unique(entries: Seq<(PeerMapKey, Peer)>, i: int)
    requires
        distinct_keys(entries),
        0 <= i < entries.len(),
    ensures
        has_key(entries, entries[i].0),
        position_of(entries, entries[i].0) == i,
{
    let key = entries[i].0;
    let j = position_of(entries, key);
    assert(0 <= j < entries.len() && entries[j].0 == key);
    if j < i {
        assert(entries[j].0 != entries[i].0);
    } else if i < j {
        assert(entries[i].0 != entries[j].0);
    }
}

/// Each entry has exactly one of the three statuses.
pub proof fn lemma_counts_partition(entries: Seq<(PeerMapKey, Peer)>)
    ensures
        count_status(entries, PeerStatus::Seeding) + count_status(entries, PeerStatus::Leeching)
            + count_status(entries, PeerStatus::Stopped) == entries.len(),
    decreases entries.len(),
{
    if entries.len() > 0 {
        lemma_counts_partition(entries.drop_last());
    }
}

/// Appending a pair under a new key adds it to the mapping and to the count
/// of its status.
pub proof fn lemma_push(entries: Seq<(PeerMapKey, Peer)>, key: PeerMapKey, peer: Peer)
    requires
        distinct_keys(entries),
        !has_key(entries, key),
    ensures
        distinct_keys(entries.push((key, peer))),
        entries_map(entries.push((key, peer))) == entries_map(entries).insert(key, peer),
        forall|status: PeerStatus| #[trigger]
            count_status(entries.push((key, peer)), status) == count_status(entries, status)
                + status_weight(peer, status),
{
    let after = entries.push((key, peer));
    assert forall|i: int, j: int| 0 <= i < j < after.len() implies (#[trigger] after[i]).0 != (
    #[trigger] after[j]).0 by {
        if j == entries.len() {
            assert(entries[i].0 == after[i].0);
        } else {
            assert(entries[i].0 != entries[j].0);
        }
    }
    assert forall|k: PeerMapKey| has_key(after, k) <==> (k == key || has_key(entries, k)) by {
        if has_key(after, k) {
            let i = position_of(after, k);
            if i < entries.len() {
                assert(entries[i].0 == k);
            }
        }
        if k == key {
            assert(after[entries.len() as int].0 == k);
        }
        if has_key(entries, k) {
            let i = position_of(entries, k);
            assert(after[i].0 == k);
        }
    }
    assert forall|k: PeerMapKey| has_key(after, k) implies entries_map(after)[k] == entries_map(
        entries,
    ).insert(key, peer)[k] by {
        let i = position_of(after, k);
        lemma_position_unique(after, i);
        if k != key {
            let j = position_of(entries, k);
            assert(after[j].0 == k);
            lemma_position_unique(after, j);
        } else {
            lemma_position_unique(after, entries.len() as int);
        }
    }
    assert(entries_map(after) =~= entries_map(entries).insert(key, peer));
    assert(after.drop_last() =~= entries);
}

/// Replacing the value of the pair at `i` replaces it in the mapping, and
/// moves one from the count of the old status to that of the new.
pub proof fn lemma_update(entries: Seq<(PeerMapKey, Peer)>, i: int, peer: Peer)
    requires
        distinct_keys(entries),
        0 <= i < entries.len(),
    ensures
        distinct_keys(entries.update(i, (entries[i].0, peer))),
        entries_map(entries.update(i, (entries[i].0, peer))) == entries_map(entries).insert(
            entries[i].0,
            peer,
        ),
        forall|status: PeerStatus| #[trigger]
            count_status(entries.update(i, (entries[i].0, peer)), status) + status_weight(
                entries[i].1,
                status,
            ) == count_status(entries, status) + status_weight(peer, status),
{
    let key = entries[i].0;
    let after = entries.update(i, (key, peer));
    assert forall|a: int, b: int| 0 <= a < b < after.len() implies (#[trigger] after[a]).0 != (
    #[trigger] after[b]).0 by {
        assert(entries[a].0 != entries[b].0);
    }
    assert forall|k: PeerMapKey| has_key(after, k) <==> has_key(entries, k) by {
        if has_key(after, k) {
            let a = position_of(after, k);
            assert(entries[a].0 == k);
        }
        if has_key(entries, k) {
            let a = position_of(entries, k);
            assert(after[a].0 == k);
        }
    }
    lemma_position_unique(entries, i);
    assert forall|k: PeerMapKey| has_key(after, k) implies entries_map(after)[k] == entries_map(
        entries,
    ).insert(key, peer)[k] by {
        let a = position_of(after, k);
        lemma_position_unique(after, a);
        let b = position_of(entries, k);
        lemma_position_unique(entries, b);
        assert(after[b].0 == k);
        lemma_position_unique(after, b);
    }
    assert(entries_map(after) =~= entries_map(entries).insert(key, peer));
    assert forall|status: PeerStatus| #[trigger]
        count_status(after, status) + status_weight(entries[i].1, status) == count_status(
            entries,
            status,
        ) + status_weight(peer, status) by {
        lemma_update_count(entries, i, (key, peer), status);
    }
}

/// Replacing the pair at `i` moves one from the count of the old pair's
/// status to that of the new pair's.
pub proof fn lemma_update_count(
    entries: Seq<(PeerMapKey, Peer)>,
    i: int,
    pair: (PeerMapKey, Peer),
    status: PeerStatus,
)
    requires
        0 <= i < entries.len(),
    ensures
        count_status(entries.update(i, pair), status) + status_weight(entries[i].1, status)
            == count_status(entries, status) + status_weight(pair.1, status),
    decreases entries.len(),
{
    let after = entries.update(i, pair);
    if i == entries.len() - 1 {
        assert(after.drop_last() =~= entries.drop_last());
    } else {
        lemma_update_count(entries.drop_last(), i, pair, status);
        assert(after.drop_last() =~= entries.drop_last().update(i, pair));
    }
}

/// Putting the last pair in the place of the pair at `i` and dropping the
/// last index removes that pair's key from the mapping, and takes one from
/// the count of its status.
pub proof fn lemma_swap_remove(entries: Seq<(PeerMapKey, Peer)>, i: int)
    requires
        distinct_keys(entries),
        0 <= i < entries.len(),
    ensures
        distinct_keys(entries.update(i, entries.last()).drop_last()),
        entries_map(entries.update(i, entries.last()).drop_last()) == entries_map(entries).remove(
            entries[i].0,
        ),
        forall|status: PeerStatus| #[trigger]
            count_status(entries.update(i, entries.last()).drop_last(), status) + status_weight(
                entries[i].1,
                status,
            ) == count_status(entries, status),
{
    let key = entries[i].0;
    let last = entries.len() - 1;
    let moved = entries.update(i, entries.last());
    let after = moved.drop_last();
    assert forall|a: int, b: int| 0 <= a < b < after.len() implies (#[trigger] after[a]).0 != (
    #[trigger] after[b]).0 by {
        if a == i {
            assert(entries[b].0 != entries[last].0);
        } else if b == i {
            assert(entries[a].0 != entries[last].0);
        } else {
            assert(entries[a].0 != entries[b].0);
        }
    }
    lemma_position_unique(entries, i);
    assert forall|k: PeerMapKey| has_key(after, k) <==> (k != key && has_key(entries, k)) by {
        if has_key(after, k) {
            let a = position_of(after, k);
            if a == i {
                assert(entries[last].0 == k);
                lemma_position_unique(entries, last);
            } else {
                assert(entries[a].0 == k);
                lemma_position_unique(entries, a);
            }
        }
        if k != key && has_key(entries, k) {
            let a = position_of(entries, k);
            if a == last {
                assert(after[i].0 == k);
            } else {
                assert(after[a].0 == k);
            }
        }
    }
    assert forall|k: PeerMapKey| has_key(after, k) implies entries_map(after)[k] == entries_map(
        entries,
    ).remove(key)[k] by {
        let a = position_of(after, k);
        lemma_position_unique(after, a);
        if a == i {
            lemma_position_unique(entries, last);
        } else {
            lemma_position_unique(entries, a);
        }
    }
    assert(entries_map(after) =~= entries_map(entries).remove(key));
    assert forall|status: PeerStatus| #[trigger]
        count_status(after, status) + status_weight(entries[i].1, status) == count_status(
            entries,
            status,
        ) by {
        lemma_update_count(entries, i, entries.last(), status);
    }
}

/// The identities under which `members` holds a peer of the given status.
pub open spec fn keys_with_status(members: Map<PeerMapKey, Peer>, status: PeerStatus) -> Set<
    PeerMapKey,
> {
    Set::new(|key: PeerMapKey| members.contains_key(key) && members[key].status == status)
}

/// Counting the entries of a status one by one gives the number of members
/// of that status: among entries with distinct keys, no member is counted
/// twice and none is left out.
pub proof fn lemma_count_is_cardinality(entries: Seq<(PeerMapKey, Peer)>, status: PeerStatus)
    requires
        distinct_keys(entries),
    ensures
        keys_with_status(entries_map(entries), status).finite(),
        keys_with_status(entries_map(entries), status).len() == count_status(entries, status),
    decreases entries.len(),
{
    if entries.len() == 0 {
        assert(keys_with_status(entries_map(entries), status) =~= Set::<PeerMapKey>::empty());
    } else {
        let earlier = entries.drop_last();
        let key = entries.last().0;
        let peer = entries.last().1;
        assert forall|i: int, j: int| 0 <= i < j < earlier.len() implies (#[trigger] earlier[i]).0
            != (#[trigger] earlier[j]).0 by {
            assert(entries[i].0 != entries[j].0);
        }
        if has_key(earlier, key) {
            let i = position_of(earlier, key);
            assert(entries[i].0 != entries[entries.len() - 1].0);
        }
        lemma_count_is_cardinality(earlier, status);
        lemma_push(earlier, key, peer);
        assert(earlier.push((key, peer)) =~= entries);
        let before = keys_with_status(entries_map(earlier), status);
        let after = keys_with_status(entries_map(entries), status);
        assert(!entries_map(earlier).contains_key(key));
        if peer.status == status {
            assert(after =~= before.insert(key));
        } else {
            assert(after =~= before);
        }
    }
}

/// One announce keeps a swarm in order: no identity is stored twice, no
/// stored peer has left, and the announced peer is a member afterwards if
/// and only if it has not stopped.
pub proof fn lemma_announce_keeps_order(
    entries: Seq<(PeerMapKey, Peer)>,
    key: PeerMapKey,
    peer: Peer,
)
    requires
        distinct_keys(entries),
        count_status(entries, PeerStatus::Stopped) == 0,
    ensures
        distinct_keys(entries_after_announce(entries, key, peer)),
        count_status(entries_after_announce(entries, key, peer), PeerStatus::Stopped) == 0,
        peer.status == PeerStatus::Stopped ==> entries_map(
            entries_after_announce(entries, key, peer),
        ) == entries_map(entries).remove(key),
        peer.status != PeerStatus::Stopped ==> entries_map(
            entries_after_announce(entries, key, peer),
        ) == entries_map(entries).insert(key, peer),
{
    if has_key(entries, key) {
        let i = position_of(entries, key);
        if peer.status == PeerStatus::Stopped {
            lemma_swap_remove(entries, i);
        } else {
            lemma_update(entries, i, peer);
        }
    } else if peer.status == PeerStatus::Stopped {
        assert(entries_map(entries).remove(key) =~= entries_map(entries));
    } else {
        lemma_push(entries, key, peer);
    }
}

/// The entries of a swarm after each of `announces` was taken in, in order.
pub open spec fn entries_after_announces(
    entries: Seq<(PeerMapKey, Peer)>,
    announces: Seq<(PeerMapKey, Peer)>,
) -> Seq<(PeerMapKey, Peer)>
    decreases announces.len(),
{
    if announces.len() == 0 {
        entries
    } else {
        entries_after_announce(
            entries_after_announces(entries, announces.drop_last()),
            announces.last().0,
            announces.last().1,
        )
    }
}

/// After any sequence of announces to a swarm that began without members,
/// with identities used again and statuses changing back and forth as they
/// may, the count of each status is the number of members that have that
/// status, and no member has left.
pub proof fn lemma_counts_after_any_announces(
    announces: Seq<(PeerMapKey, Peer)>,
    status: PeerStatus,
)
    ensures
        distinct_keys(entries_after_announces(Seq::empty(), announces)),
        count_status(entries_after_announces(Seq::empty(), announces), PeerStatus::Stopped) == 0,
        keys_with_status(
            entries_map(entries_after_announces(Seq::empty(), announces)),
            status,
        ).finite(),
        count_status(entries_after_announces(Seq::empty(), announces), status) == keys_with_status(
            entries_map(entries_after_announces(Seq::empty(), announces)),
            status,
        ).len(),
    decreases announces.len(),
{
    if announces.len() > 0 {
        lemma_counts_after_any_announces(announces.drop_last(), status);
        lemma_announce_keeps_order(
            entries_after_announces(Seq::empty(), announces.drop_last()),
            announces.last().0,
            announces.last().1,
        );
    }
    lemma_count_is_cardinality(entries_after_announces(Seq::empty(), announces), status);
}

/// `IndexMap::new`: the new map holds no pair.
#[verifier::external_body]
pub(crate) fn peer_map_new() -> (map: PeerMap)
    ensures
        peer_entries(map) == Seq::<(PeerMapKey, Peer)>::empty(),
{
    indexmap::IndexMap::new()
}

/// `IndexMap::len`: the number of pairs in the map.
#[verifier::external_body]
pub(crate) fn peer_map_len(map: &PeerMap) -> (len: usize)
    ensures
        len == peer_entries(*map).len(),
{
    map.len()
}

/// `IndexMap::get_index`: the pair at `index`, for each index below the
/// number of pairs, and nothing for any other.
#[verifier::external_body]
pub(crate) fn peer_map_get_index(map: &PeerMap, index: usize) -> (pair: Option<(&PeerMapKey, &Peer)>)
    ensures
        index < peer_entries(*map).len() ==> pair == Some(
            (&peer_entries(*map)[index as int].0, &peer_entries(*map)[index as int].1),
        ),
        index >= peer_entries(*map).len() ==> pair.is_none(),
{
    map.get_index(index)
}

/// `IndexMap::insert`: where a pair is stored under `key`, its value is
/// replaced in place and the old value returned; where none is, the new pair
/// becomes the last one and nothing is returned.
#[verifier::external_body]
pub(crate) fn peer_map_insert(map: &mut PeerMap, key: PeerMapKey, value: Peer) -> (replaced: Option<Peer>)
    ensures
        has_key(peer_entries(*old(map)), key) ==> {
            let i = position_of(peer_entries(*old(map)), key);
            &&& peer_entries(*final(map)) == peer_entries(*old(map)).update(i, (key, value))
            &&& replaced == Some(peer_entries(*old(map))[i].1)
        },
        !has_key(peer_entries(*old(map)), key) ==> {
            &&& peer_entries(*final(map)) == peer_entries(*old(map)).push((key, value))
            &&& replaced.is_none()
        },
{
    map.insert(key, value)
}

/// `IndexMap::swap_remove`: where a pair is stored under `key`, the last pair
/// takes its place, the map loses its last index, and the removed value is
/// returned; where none is, the map is unchanged and nothing is returned.
#[verifier::external_body]
pub(crate) fn peer_map_swap_remove(map: &mut PeerMap, key: &PeerMapKey) -> (removed: Option<Peer>)
    ensures
        has_key(peer_entries(*old(map)), *key) ==> {
            let i = position_of(peer_entries(*old(map)), *key);
            &&& peer_entries(*final(map)) == peer_entries(*old(map)).update(
                i,
                peer_entries(*old(map)).last(),
            ).drop_last()
            &&& removed == Some(peer_entries(*old(map))[i].1)
        },
        !has_key(peer_entries(*old(map)), *key) ==> {
            &&& peer_entries(*final(map)) == peer_entries(*old(map))
            &&& removed.is_none()
        },
{
    map.swap_remove(key)
}

} // verus!
