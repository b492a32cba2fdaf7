//! Choosing which members of a swarm an announce is answered with.

use crate::peers::{peer_entries, peer_map_get_index, peer_map_len, Peer, PeerMap, PeerMapKey, ResponsePeer};
use crate::random::choose_indices;
use vstd::prelude::*;

verus! {

/// Every member of `entries` in the form handed to other peers, in order.
pub open spec fn response_peers_of(entries: Seq<(PeerMapKey, Peer)>) -> Seq<ResponsePeer> {
    Seq::new(entries.len(), |i: int| entries[i].1.spec_to_response_peer())
}

/// The members of `entries` at the positions `picks`, in the order of the
/// picks, each in the form handed to other peers. A pick that is no position
/// of `entries` contributes nothing.
pub open spec fn selected(entries: Seq<(PeerMapKey, Peer)>, picks: Seq<usize>) -> Seq<ResponsePeer>
    decreases picks.len(),
{
    if picks.len() == 0 {
        Seq::empty()
    } else if picks.last() < entries.len() {
        selected(entries, picks.drop_last()).push(
            entries[picks.last() as int].1.spec_to_response_peer(),
        )
    } else {
        selected(entries, picks.drop_last())
    }
}

/// `picks` name distinct positions of a population of the given size.
pub open spec fn is_selection(picks: Seq<usize>, population: nat) -> bool {
    &&& picks.no_duplicates()
    &&& forall|i: int| 0 <= i < picks.len() ==> picks[i] < population
}

/// Whether `peers` can answer an announce to a swarm that holds `entries`,
/// where at most `limit` peers are handed out: all members in order where
/// they are no more than `limit`, else `limit` distinct members.
pub open spec fn is_sample_of(
    peers: Seq<ResponsePeer>,
    entries: Seq<(PeerMapKey, Peer)>,
    limit: usize,
) -> bool {
    if entries.len() <= limit {
        peers == response_peers_of(entries)
    } else {
        exists|picks: Seq<usize>|
            {
                &&& #[trigger] is_selection(picks, entries.len())
                &&& picks.len() == limit
                &&& peers == selected(entries, picks)
            }
    }
}

/// A sample holds as many peers as the limit allows, or all members where
/// those are fewer, and each of its peers is a member.
pub proof fn lemma_sample_properties(
    peers: Seq<ResponsePeer>,
    entries: Seq<(PeerMapKey, Peer)>,
    limit: usize,
)
    requires
        is_sample_of(peers, entries, limit),
    ensures
        peers.len() == if entries.len() <= limit {
            entries.len()
        } else {
            limit as nat
        },
        forall|i: int|
            0 <= i < peers.len() ==> exists|j: int|
                0 <= j < entries.len() && #[trigger] peers[i] == (#[trigger] entries[j]).1.spec_to_response_peer(),
{
    if entries.len() <= limit {
        assert forall|i: int| 0 <= i < peers.len() implies exists|j: int|
            0 <= j < entries.len() && #[trigger] peers[i] == (#[trigger] entries[j]).1.spec_to_response_peer() by {
            assert(peers[i] == entries[i].1.spec_to_response_peer());
        }
    } else {
        let picks = choose|picks: Seq<usize>|
            {
                &&& #[trigger] is_selection(picks, entries.len())
                &&& picks.len() == limit
                &&& peers == selected(entries, picks)
            };
        lemma_selected_in_range(entries, picks);
        assert forall|i: int| 0 <= i < peers.len() implies exists|j: int|
            0 <= j < entries.len() && #[trigger] peers[i] == (#[trigger] entries[j]).1.spec_to_response_peer() by {
            assert(peers[i] == entries[picks[i] as int].1.spec_to_response_peer());
        }
    }
}

/// Picks that are all positions of `entries` select one member each.
pub proof fn lemma_selected_in_range(entries: Seq<(PeerMapKey, Peer)>, picks: Seq<usize>)
    requires
        forall|i: int| 0 <= i < picks.len() ==> picks[i] < entries.len(),
    ensures
        selected(entries, picks).len() == picks.len(),
        forall|i: int|
            0 <= i < picks.len() ==> #[trigger] selected(entries, picks)[i]
                == entries[picks[i] as int].1.spec_to_response_peer(),
    decreases picks.len(),
{
    if picks.len() > 0 {
        lemma_selected_in_range(entries, picks.drop_last());
    }
}

/// The members of `peer_map` at the positions `picks`.
pub fn select_response_peers(peer_map: &PeerMap, picks: &Vec<usize>) -> (peers: Vec<ResponsePeer>)
    ensures
        peers@ == selected(peer_entries(*peer_map), picks@),
{
    let mut peers: Vec<ResponsePeer> = Vec::new();
    let mut i: usize = 0;
    while i < picks.len()
        invariant
            i <= picks.len(),
            peers@ == selected(peer_entries(*peer_map), picks@.take(i as int)),
        decreases picks.len() - i,
    {
        let pair = peer_map_get_index(peer_map, picks[i]);
        proof {
            assert(picks@.take(i + 1).drop_last() =~= picks@.take(i as int));
        }
        if let Some((_, peer)) = pair {
            peers.push(peer.to_response_peer());
        }
        i += 1;
    }
    proof {
        assert(picks@.take(i as int) =~= picks@);
    }
    peers
}

/// Every member of `peer_map`, in the order of the map.
pub fn all_response_peers(peer_map: &PeerMap) -> (peers: Vec<ResponsePeer>)
    ensures
        peers@ == response_peers_of(peer_entries(*peer_map)),
{
    let len = peer_map_len(peer_map);
    let mut peers: Vec<ResponsePeer> = Vec::new();
    let mut i: usize = 0;
    while i < len
        invariant
            i <= len,
            len == peer_entries(*peer_map).len(),
            peers@.len() == i,
            forall|j: int|
                0 <= j < i ==> peers@[j] == (#[trigger] peer_entries(
                    *peer_map,
                )[j]).1.spec_to_response_peer(),
        decreases len - i,
    {
        if let Some((_, peer)) = peer_map_get_index(peer_map, i) {
            peers.push(peer.to_response_peer());
        }
        i += 1;
    }
    proof {
        assert(peers@ =~= response_peers_of(peer_entries(*peer_map)));
    }
    peers
}

/// The peers that answer an announce. Where the swarm has no more members
/// than `number_of_peers_to_take`, all of them. Else that many distinct
/// members, chosen afresh at random among all of them: no stretch of
/// neighbours in the map, which would favour peers that joined together.
/// The announcing peer is not left out.
pub fn extract_response_peers(peer_map: &PeerMap, number_of_peers_to_take: usize) -> (peers: Vec<
    ResponsePeer,
>)
    ensures
        is_sample_of(peers@, peer_entries(*peer_map), number_of_peers_to_take),
        peers@.len() == if peer_entries(*peer_map).len() <= number_of_peers_to_take {
            peer_entries(*peer_map).len()
        } else {
            number_of_peers_to_take as nat
        },
{
    let peer_map_len = peer_map_len(peer_map);
    if peer_map_len <= number_of_peers_to_take {
        all_response_peers(peer_map)
    } else {
        let picks = choose_indices(peer_map_len, number_of_peers_to_take);
        let peers = select_response_peers(peer_map, &picks);
        proof {
            lemma_selected_in_range(peer_entries(*peer_map), picks@);
            assert(is_selection(picks@, peer_entries(*peer_map).len()));
        }
        peers
    }
}

} // verus!
