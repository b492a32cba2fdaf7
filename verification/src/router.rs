//! Which swarm worker owns which info hash, and how a request that names
//! several hashes is split among the workers.

use crate::common::InfoHash;
use std::collections::BTreeMap;
use vstd::prelude::*;

verus! {

/// The worker that owns `info_hash` among `swarm_workers` workers: the
/// hash's first byte, modulo their number. Every worker computes the same.
pub open spec fn shard_for(info_hash: InfoHash, swarm_workers: usize) -> int {
    info_hash.0[0] as int % swarm_workers as int
}

/// The worker that owns `info_hash` among `swarm_workers` workers: the
/// hash's first byte, modulo their number. Every worker computes the same.
pub fn calculate_in_message_consumer_index(swarm_workers: usize, info_hash: InfoHash) -> (index:
    usize)
    requires
        swarm_workers > 0,
    ensures
        index == shard_for(info_hash, swarm_workers),
        index < swarm_workers,
{
    (info_hash.0[0] as usize) % swarm_workers
}

/// Those of `info_hashes` that the worker `shard` owns, in their order.
pub open spec fn hashes_of_shard(info_hashes: Seq<InfoHash>, shard: int, swarm_workers: usize) -> Seq<
    InfoHash,
>
    decreases info_hashes.len(),
{
    if info_hashes.len() == 0 {
        Seq::empty()
    } else if shard_for(info_hashes.last(), swarm_workers) == shard {
        hashes_of_shard(info_hashes.drop_last(), shard, swarm_workers).push(info_hashes.last())
    } else {
        hashes_of_shard(info_hashes.drop_last(), shard, swarm_workers)
    }
}

/// The groups with each list of hashes as a sequence.
pub open spec fn group_views(groups: Seq<(usize, Vec<InfoHash>)>) -> Seq<(usize, Seq<InfoHash>)> {
    Seq::new(groups.len(), |g: int| (groups[g].0, groups[g].1@))
}

/// Whether `groups` split `info_hashes` among the workers that own them:
/// one group for each worker that owns any of the hashes, in ascending order
/// of the workers, each holding exactly its worker's hashes in their order.
pub open spec fn is_split_by_shard(
    groups: Seq<(usize, Seq<InfoHash>)>,
    info_hashes: Seq<InfoHash>,
    swarm_workers: usize,
) -> bool {
    &&& forall|g: int|
        0 <= g < groups.len() ==> {
            &&& (#[trigger] groups[g]).0 < swarm_workers
            &&& groups[g].1.len() > 0
            &&& groups[g].1 == hashes_of_shard(info_hashes, groups[g].0 as int, swarm_workers)
        }
    &&& forall|g: int, h: int| 0 <= g < h < groups.len() ==> groups[g].0 < groups[h].0
    &&& forall|shard: int|
        0 <= shard < swarm_workers && (#[trigger] hashes_of_shard(
            info_hashes,
            shard,
            swarm_workers,
        )).len() > 0 ==> exists|g: int| 0 <= g < groups.len() && groups[g].0 == shard
}

/// A hash that a worker owns is among the hashes of that worker.
pub proof fn lemma_hashes_of_shard_complete(
    info_hashes: Seq<InfoHash>,
    i: int,
    swarm_workers: usize,
)
    requires
        0 <= i < info_hashes.len(),
    ensures
        hashes_of_shard(
            info_hashes,
            shard_for(info_hashes[i], swarm_workers),
            swarm_workers,
        ).contains(info_hashes[i]),
    decreases info_hashes.len(),
{
    let shard = shard_for(info_hashes[i], swarm_workers);
    let all = hashes_of_shard(info_hashes, shard, swarm_workers);
    if i == info_hashes.len() - 1 {
        assert(all.last() == info_hashes[i]);
    } else {
        lemma_hashes_of_shard_complete(info_hashes.drop_last(), i, swarm_workers);
        let earlier = hashes_of_shard(info_hashes.drop_last(), shard, swarm_workers);
        let at = choose|j: int| 0 <= j < earlier.len() && earlier[j] == info_hashes[i];
        assert(all[at] == info_hashes[i]);
    }
}

/// Whether `groups` hold, for the workers from `from` on, exactly the
/// hashes that each of them owns among `info_hashes`: a group for each such
/// worker that owns any, and none for a worker before `from`.
pub open spec fn is_grouping(
    groups: Map<usize, Vec<InfoHash>>,
    info_hashes: Seq<InfoHash>,
    swarm_workers: usize,
    from: usize,
) -> bool {
    &&& forall|w: usize| #[trigger]
        groups.contains_key(w) <==> from <= w && hashes_of_shard(
            info_hashes,
            w as int,
            swarm_workers,
        ).len() > 0
    &&& forall|w: usize| #[trigger]
        groups.contains_key(w) ==> groups[w]@ == hashes_of_shard(
            info_hashes,
            w as int,
            swarm_workers,
        )
}

/// Groups `info_hashes` by the workers that own them.
fn group_by_shard(info_hashes: &Vec<InfoHash>, swarm_workers: usize) -> (groups: BTreeMap<
    usize,
    Vec<InfoHash>,
>)
    requires
        swarm_workers > 0,
    ensures
        is_grouping(groups@, info_hashes@, swarm_workers, 0),
{
    broadcast use vstd::std_specs::btree::group_btree_axioms;

    let mut groups: BTreeMap<usize, Vec<InfoHash>> = BTreeMap::new();
    let mut i: usize = 0;
    while i < info_hashes.len()
        invariant
            i <= info_hashes.len(),
            swarm_workers > 0,
            is_grouping(groups@, info_hashes@.take(i as int), swarm_workers, 0),
        decreases info_hashes.len() - i,
    {
        let info_hash = info_hashes[i];
        let index = calculate_in_message_consumer_index(swarm_workers, info_hash);
        let ghost before = groups@;
        proof {
            assert(info_hashes@.take(i + 1).drop_last() =~= info_hashes@.take(i as int));
            assert(info_hashes@.take(i + 1).last() == info_hash);
            assert(before.contains_key(index) <==> hashes_of_shard(
                info_hashes@.take(i as int),
                index as int,
                swarm_workers,
            ).len() > 0);
        }
        let mut group = match groups.remove(&index) {
            Some(group) => group,
            None => Vec::new(),
        };
        proof {
            assert(groups@ == before.remove(index));
            assert(group@ =~= hashes_of_shard(
                info_hashes@.take(i as int),
                index as int,
                swarm_workers,
            ));
        }
        group.push(info_hash);
        groups.insert(index, group);
        proof {
            assert(groups@ =~= before.insert(index, group));
            assert forall|w: usize| #[trigger]
                groups@.contains_key(w) <==> 0 <= w && hashes_of_shard(
                    info_hashes@.take(i + 1),
                    w as int,
                    swarm_workers,
                ).len() > 0 by {
                if w != index {
                    assert(groups@.contains_key(w) == before.contains_key(w));
                }
            }
            assert forall|w: usize| #[trigger] groups@.contains_key(w) implies groups@[w]@
                == hashes_of_shard(info_hashes@.take(i + 1), w as int, swarm_workers) by {
                if w != index {
                    assert(before.contains_key(w));
                    assert(groups@[w] == before[w]);
                }
            }
        }
        i += 1;
    }
    proof {
        assert(info_hashes@.take(i as int) =~= info_hashes@);
    }
    groups
}

/// Splits `info_hashes` among the workers that own them.
pub fn split_by_shard(info_hashes: &Vec<InfoHash>, swarm_workers: usize) -> (groups: Vec<
    (usize, Vec<InfoHash>),
>)
    requires
        swarm_workers > 0,
    ensures
        is_split_by_shard(group_views(groups@), info_hashes@, swarm_workers),
        groups@.len() <= swarm_workers,
{
    broadcast use vstd::std_specs::btree::group_btree_axioms;

    let mut by_worker = group_by_shard(info_hashes, swarm_workers);
    let mut groups: Vec<(usize, Vec<InfoHash>)> = Vec::new();
    let mut shard: usize = 0;
    // The groups are taken out of the map in ascending order of their
    // workers, as the map itself holds them.
    while shard < swarm_workers
        invariant
            shard <= swarm_workers,
            swarm_workers > 0,
            groups@.len() <= shard,
            is_grouping(by_worker@, info_hashes@, swarm_workers, shard),
            forall|g: int|
                0 <= g < groups@.len() ==> {
                    &&& (#[trigger] groups@[g]).0 < shard
                    &&& groups@[g].1@.len() > 0
                    &&& groups@[g].1@ == hashes_of_shard(
                        info_hashes@,
                        groups@[g].0 as int,
                        swarm_workers,
                    )
                },
            forall|g: int, h: int| 0 <= g < h < groups@.len() ==> groups@[g].0 < groups@[h].0,
            forall|s: int|
                0 <= s < shard && (#[trigger] hashes_of_shard(
                    info_hashes@,
                    s,
                    swarm_workers,
                )).len() > 0 ==> exists|g: int| 0 <= g < groups@.len() && groups@[g].0 == s,
        decreases swarm_workers - shard,
    {
        let ghost before = groups@;
        let ghost held = by_worker@;
        proof {
            assert(held.contains_key(shard) <==> hashes_of_shard(
                info_hashes@,
                shard as int,
                swarm_workers,
            ).len() > 0);
        }
        match by_worker.remove(&shard) {
            Some(group) => {
                proof {
                    assert(held.contains_key(shard) && held[shard] == group);
                }
                groups.push((shard, group));
            },
            None => {
                proof {
                    assert(!held.contains_key(shard));
                }
            },
        }
        proof {
            assert(by_worker@ == held.remove(shard));
            assert forall|w: usize| #[trigger]
                by_worker@.contains_key(w) <==> shard + 1 <= w && hashes_of_shard(
                    info_hashes@,
                    w as int,
                    swarm_workers,
                ).len() > 0 by {
                if w != shard {
                    assert(by_worker@.contains_key(w) == held.contains_key(w));
                }
            }
            assert forall|w: usize| #[trigger] by_worker@.contains_key(w) implies by_worker@[w]@
                == hashes_of_shard(info_hashes@, w as int, swarm_workers) by {
                assert(held.contains_key(w));
                assert(by_worker@[w] == held[w]);
            }
            assert forall|s: int|
                0 <= s < shard + 1 && (#[trigger] hashes_of_shard(
                    info_hashes@,
                    s,
                    swarm_workers,
                )).len() > 0 implies exists|g: int|
                0 <= g < groups@.len() && groups@[g].0 == s by {
                if s == shard {
                    assert(held.contains_key(shard));
                    assert(groups@[groups@.len() - 1].0 == s);
                } else {
                    let g = choose|g: int| 0 <= g < before.len() && before[g].0 == s;
                    assert(groups@[g].0 == s);
                }
            }
            assert forall|g: int, h: int| 0 <= g < h < groups@.len() implies groups@[g].0
                < groups@[h].0 by {
                if h < before.len() {
                    assert(before[g].0 < before[h].0);
                } else {
                    assert(before[g].0 < shard);
                }
            }
        }
        shard += 1;
    }
    proof {
        let views = group_views(groups@);
        assert forall|s: int|
            0 <= s < swarm_workers && (#[trigger] hashes_of_shard(
                info_hashes@,
                s,
                swarm_workers,
            )).len() > 0 implies exists|g: int| 0 <= g < views.len() && views[g].0 == s by {
            let g = choose|g: int| 0 <= g < groups@.len() && groups@[g].0 == s;
            assert(views[g].0 == s);
        }
    }
    groups
}

} // verus!
