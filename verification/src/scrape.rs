//! Gathering the answer to one scrape from the workers that each own some
//! of the swarms it asks about.

use crate::common::{InfoHash, ScrapeStatistics};
use vstd::prelude::*;

verus! {

/// The statistics of some swarms, by info hash: a `hashbrown::HashMap`.
/// Nothing of its inside is looked into here; what it holds goes by the
/// name `stats_entries`.
#[verifier::external_body]
pub struct StatsMap {
    inner: hashbrown::HashMap<InfoHash, ScrapeStatistics>,
}

/// The statistics that a map holds, by info hash.
pub uninterp spec fn stats_entries(stats: StatsMap) -> Map<InfoHash, ScrapeStatistics>;

/// `HashMap::new` of hashbrown: the new map holds nothing.
#[verifier::external_body]
fn stats_map_new() -> (stats: StatsMap)
    ensures
        stats_entries(stats) == (Map::<InfoHash, ScrapeStatistics>::empty()),
{
    StatsMap { inner: hashbrown::HashMap::new() }
}

/// `HashMap::insert` of hashbrown: afterwards the map holds `statistics`
/// under `info_hash`, in place of what it held there, and all else as before.
#[verifier::external_body]
fn stats_map_insert(stats: &mut StatsMap, info_hash: InfoHash, statistics: ScrapeStatistics)
    ensures
        stats_entries(*final(stats)) == stats_entries(*old(stats)).insert(info_hash, statistics),
{
    stats.inner.insert(info_hash, statistics);
}

/// `HashMap::get` of hashbrown: the statistics stored under `info_hash`, if
/// any are.
#[verifier::external_body]
fn stats_map_get(stats: &StatsMap, info_hash: &InfoHash) -> (found: Option<ScrapeStatistics>)
    ensures
        found == if stats_entries(*stats).contains_key(*info_hash) {
            Some(stats_entries(*stats)[*info_hash])
        } else {
            None
        },
{
    stats.inner.get(info_hash).copied()
}

/// Whether `pairs` list a mapping: each of its pairs once, and nothing else.
pub open spec fn is_listing(
    pairs: Seq<(InfoHash, ScrapeStatistics)>,
    entries: Map<InfoHash, ScrapeStatistics>,
) -> bool {
    &&& forall|i: int|
        0 <= i < pairs.len() ==> entries.contains_key((#[trigger] pairs[i]).0) && entries[pairs[i].0]
            == pairs[i].1
    &&& forall|i: int, j: int| 0 <= i < j < pairs.len() ==> pairs[i].0 != pairs[j].0
    &&& forall|info_hash: InfoHash| #[trigger]
        entries.contains_key(info_hash) ==> exists|i: int|
            0 <= i < pairs.len() && pairs[i].0 == info_hash
}

/// `HashMap::iter` of hashbrown, collected: every pair of the map once, and
/// nothing else. Their order is left open.
#[verifier::external_body]
fn stats_map_to_vec(stats: &StatsMap) -> (pairs: Vec<(InfoHash, ScrapeStatistics)>)
    ensures
        is_listing(pairs@, stats_entries(*stats)),
{
    stats.inner.iter().map(|(info_hash, statistics)| (*info_hash, *statistics)).collect()
}

/// `Extend::extend` of hashbrown's map with another such map: each pair of
/// `other` is inserted, so that afterwards the map holds all that either
/// held, and under a hash that both held what `other` held.
#[verifier::external_body]
fn stats_map_extend(stats: &mut StatsMap, other: StatsMap)
    ensures
        stats_entries(*final(stats)) == stats_entries(*old(stats)).union_prefer_right(
            stats_entries(other),
        ),
{
    stats.inner.extend(other.inner);
}

impl View for StatsMap {
    type V = Map<InfoHash, ScrapeStatistics>;

    /// The statistics held, by info hash.
    open spec fn view(&self) -> Map<InfoHash, ScrapeStatistics> {
        stats_entries(*self)
    }
}

impl StatsMap {
    /// A map without statistics.
    pub fn new() -> (stats: StatsMap)
        ensures
            stats@ == Map::<InfoHash, ScrapeStatistics>::empty(),
    {
        stats_map_new()
    }

    /// Stores `statistics` under `info_hash`, in place of what was there.
    pub fn insert(&mut self, info_hash: InfoHash, statistics: ScrapeStatistics)
        ensures
            final(self)@ == old(self)@.insert(info_hash, statistics),
    {
        stats_map_insert(self, info_hash, statistics)
    }

    /// Every pair of the map once, in no order that could be relied on.
    pub fn pairs(&self) -> (pairs: Vec<(InfoHash, ScrapeStatistics)>)
        ensures
            is_listing(pairs@, self@),
    {
        stats_map_to_vec(self)
    }

    /// The statistics stored under `info_hash`, if any are.
    pub fn get(&self, info_hash: &InfoHash) -> (found: Option<ScrapeStatistics>)
        ensures
            found == if self@.contains_key(*info_hash) {
                Some(self@[*info_hash])
            } else {
                None
            },
    {
        stats_map_get(self, info_hash)
    }
}

/// Names one scrape that is being gathered.
#[derive(Clone, Copy, Debug, PartialEq, Eq, Hash, Structural)]
pub struct PendingScrapeId(pub usize);

/// One scrape that is being gathered: the number of workers whose part is
/// still missing, and the statistics that have come in so far.
pub struct PendingScrapeResponse {
    pub pending_worker_out_messages: usize,
    pub stats: StatsMap,
}

/// Why a partial result could not be merged.
#[derive(Clone, Copy, Debug, PartialEq, Eq, Structural)]
pub enum MergeError {
    /// No scrape is being gathered under the id: it was never begun, or it
    /// is complete already.
    UnknownAggregation,
    /// The scrape was begun for no worker at all, so no part was due.
    NothingExpected,
}

/// `slab::Slab`: storage that hands out a key for each value put in.
/// Nothing of its inside is looked into here; what it holds goes by a name
/// for each kind of value stored.
#[verifier::external_type_specification]
#[verifier::external_body]
#[verifier::reject_recursive_types(T)]
pub struct ExSlab<T>(slab::Slab<T>);

/// The scrapes that a slab holds, each under its key.
pub uninterp spec fn pending_entries(slab: slab::Slab<PendingScrapeResponse>) -> Map<
    usize,
    PendingScrapeResponse,
>;

/// `Slab::new`: the new slab holds nothing.
#[verifier::external_body]
fn pending_slab_new() -> (slab: slab::Slab<PendingScrapeResponse>)
    ensures
        pending_entries(slab) == (Map::<usize, PendingScrapeResponse>::empty()),
{
    slab::Slab::new()
}

/// `Slab::insert`: stores the value under a key that held nothing, and
/// returns that key; all else stays as it was. Which of the free keys is
/// taken is left open here. It gives up only where memory runs out.
#[verifier::external_body]
fn pending_slab_insert(slab: &mut slab::Slab<PendingScrapeResponse>, value: PendingScrapeResponse) -> (key:
    usize)
    ensures
        !pending_entries(*old(slab)).contains_key(key),
        pending_entries(*final(slab)) == pending_entries(*old(slab)).insert(key, value),
{
    slab.insert(value)
}

/// `Slab::get_mut`: the value under `key`, if there is one. What the caller
/// leaves behind the reference is what the slab then holds under `key`;
/// nothing else changes.
#[verifier::external_body]
fn pending_slab_get_mut(slab: &mut slab::Slab<PendingScrapeResponse>, key: usize) -> (value: Option<
    &mut PendingScrapeResponse,
>)
    ensures
        match value {
            Some(value) => {
                &&& pending_entries(*old(slab)).contains_key(key)
                &&& *value == pending_entries(*old(slab))[key]
                &&& pending_entries(*final(slab)) == pending_entries(*old(slab)).insert(
                    key,
                    *final(value),
                )
            },
            None => {
                &&& !pending_entries(*old(slab)).contains_key(key)
                &&& pending_entries(*final(slab)) == pending_entries(*old(slab))
            },
        },
{
    slab.get_mut(key)
}

/// `Slab::try_remove`: takes the value under `key` out of the slab and
/// returns it, if there is one; else nothing changes and nothing is returned.
#[verifier::external_body]
fn pending_slab_try_remove(slab: &mut slab::Slab<PendingScrapeResponse>, key: usize) -> (value: Option<
    PendingScrapeResponse,
>)
    ensures
        pending_entries(*final(slab)) == pending_entries(*old(slab)).remove(key),
        value == if pending_entries(*old(slab)).contains_key(key) {
            Some(pending_entries(*old(slab))[key])
        } else {
            None
        },
{
    slab.try_remove(key)
}

/// The partial results that came in, merged in the order they came: what
/// any of them holds, and under a hash that several hold what the latest of
/// those holds.
pub open spec fn union_all(partials: Seq<Map<InfoHash, ScrapeStatistics>>) -> Map<
    InfoHash,
    ScrapeStatistics,
>
    decreases partials.len(),
{
    if partials.len() == 0 {
        Map::empty()
    } else {
        union_all(partials.drop_last()).union_prefer_right(partials.last())
    }
}

/// What merging one partial result does to the scrapes being gathered, and
/// what it hands back: an error where no part was due; nothing while parts
/// are missing; the whole answer with the last part, whose record is then
/// gone.
pub open spec fn spec_merge(
    pending: Map<usize, (usize, Map<InfoHash, ScrapeStatistics>)>,
    id: PendingScrapeId,
    partial: Map<InfoHash, ScrapeStatistics>,
) -> (
    Map<usize, (usize, Map<InfoHash, ScrapeStatistics>)>,
    Result<Option<Map<InfoHash, ScrapeStatistics>>, MergeError>,
) {
    if !pending.contains_key(id.0) {
        (pending, Err(MergeError::UnknownAggregation))
    } else if pending[id.0].0 == 0 {
        (pending, Err(MergeError::NothingExpected))
    } else if pending[id.0].0 == 1 {
        (pending.remove(id.0), Ok(Some(pending[id.0].1.union_prefer_right(partial))))
    } else {
        (
            pending.insert(
                id.0,
                ((pending[id.0].0 - 1) as usize, pending[id.0].1.union_prefer_right(partial)),
            ),
            Ok(None),
        )
    }
}

/// The view of what a merge hands back: statistics as a mapping.
pub open spec fn merge_result_view(result: Result<Option<StatsMap>, MergeError>) -> Result<
    Option<Map<InfoHash, ScrapeStatistics>>,
    MergeError,
> {
    match result {
        Ok(Some(stats)) => Ok(Some(stats@)),
        Ok(None) => Ok(None),
        Err(error) => Err(error),
    }
}

/// Gathers the answers to the scrapes of one connection.
pub struct ScrapeAggregator {
    pending: slab::Slab<PendingScrapeResponse>,
}

impl View for ScrapeAggregator {
    type V = Map<usize, (usize, Map<InfoHash, ScrapeStatistics>)>;

    /// For each scrape being gathered, under its id: the number of parts
    /// still missing, and the statistics that have come in.
    closed spec fn view(&self) -> Map<usize, (usize, Map<InfoHash, ScrapeStatistics>)> {
        Map::new(
            |key: usize| pending_entries(self.pending).contains_key(key),
            |key: usize|
                (
                    pending_entries(self.pending)[key].pending_worker_out_messages,
                    pending_entries(self.pending)[key].stats@,
                ),
        )
    }
}

impl ScrapeAggregator {
    /// An aggregator that gathers nothing yet.
    pub fn new() -> (aggregator: ScrapeAggregator)
        ensures
            aggregator@ == Map::<usize, (usize, Map<InfoHash, ScrapeStatistics>)>::empty(),
    {
        let aggregator = ScrapeAggregator { pending: pending_slab_new() };
        assert(aggregator@ =~= Map::<usize, (usize, Map<InfoHash, ScrapeStatistics>)>::empty());
        aggregator
    }

    /// Begins to gather a scrape whose answer comes in `expected` parts,
    /// with nothing gathered yet, under an id that was not in use.
    pub fn begin(&mut self, expected: usize) -> (id: PendingScrapeId)
        ensures
            !old(self)@.contains_key(id.0),
            final(self)@ == old(self)@.insert(
                id.0,
                (expected, Map::<InfoHash, ScrapeStatistics>::empty()),
            ),
    {
        let record = PendingScrapeResponse {
            pending_worker_out_messages: expected,
            stats: StatsMap::new(),
        };
        let key = pending_slab_insert(&mut self.pending, record);
        assert(self@ =~= old(self)@.insert(
            key,
            (expected, Map::<InfoHash, ScrapeStatistics>::empty()),
        ));
        PendingScrapeId(key)
    }

    /// Merges one part into the scrape `id`. With the last part due, the
    /// record is removed and the whole answer handed back; before that,
    /// nothing is handed back and the record stays. An id under which nothing
    /// is being gathered, or nothing was due, is an error that changes
    /// nothing.
    pub fn merge(&mut self, id: PendingScrapeId, partial: StatsMap) -> (result: Result<
        Option<StatsMap>,
        MergeError,
    >)
        ensures
            (final(self)@, merge_result_view(result)) == spec_merge(old(self)@, id, partial@),
    {
        let finished = match pending_slab_get_mut(&mut self.pending, id.0) {
            Some(pending) => {
                if pending.pending_worker_out_messages == 0 {
                    proof {
                        assert(self@ =~= old(self)@);
                    }
                    return Err(MergeError::NothingExpected);
                }
                stats_map_extend(&mut pending.stats, partial);
                pending.pending_worker_out_messages -= 1;
                pending.pending_worker_out_messages == 0
            },
            None => {
                proof {
                    assert(self@ =~= old(self)@);
                }
                return Err(MergeError::UnknownAggregation);
            },
        };
        if finished {
            match pending_slab_try_remove(&mut self.pending, id.0) {
                Some(pending) => {
                    proof {
                        assert(self@ =~= old(self)@.remove(id.0));
                    }
                    Ok(Some(pending.stats))
                },
                None => Err(MergeError::UnknownAggregation),
            }
        } else {
            proof {
                assert(self@ =~= spec_merge(old(self)@, id, partial@).0);
            }
            Ok(None)
        }
    }
}

/// The scrapes being gathered after `partials` were merged into the scrape
/// `id` one by one, and what each merge handed back.
pub open spec fn merge_all(
    pending: Map<usize, (usize, Map<InfoHash, ScrapeStatistics>)>,
    id: PendingScrapeId,
    partials: Seq<Map<InfoHash, ScrapeStatistics>>,
) -> (
    Map<usize, (usize, Map<InfoHash, ScrapeStatistics>)>,
    Seq<Result<Option<Map<InfoHash, ScrapeStatistics>>, MergeError>>,
)
    decreases partials.len(),
{
    if partials.len() == 0 {
        (pending, Seq::empty())
    } else {
        let earlier = merge_all(pending, id, partials.drop_last());
        let step = spec_merge(earlier.0, id, partials.last());
        (step.0, earlier.1.push(step.1))
    }
}

/// While parts are missing, each merge hands back nothing, counts one part
/// less as missing, and adds its part to what was gathered.
pub proof fn lemma_merges_before_last(
    pending: Map<usize, (usize, Map<InfoHash, ScrapeStatistics>)>,
    id: PendingScrapeId,
    expected: usize,
    partials: Seq<Map<InfoHash, ScrapeStatistics>>,
)
    requires
        pending.contains_key(id.0),
        pending[id.0] == (expected, Map::<InfoHash, ScrapeStatistics>::empty()),
        partials.len() < expected,
    ensures
        merge_all(pending, id, partials).0 == pending.insert(
            id.0,
            ((expected - partials.len()) as usize, union_all(partials)),
        ),
        merge_all(pending, id, partials).1.len() == partials.len(),
        forall|j: int|
            0 <= j < partials.len() ==> #[trigger] merge_all(pending, id, partials).1[j] == Ok::<
                Option<Map<InfoHash, ScrapeStatistics>>,
                MergeError,
            >(None),
    decreases partials.len(),
{
    if partials.len() == 0 {
        assert(pending =~= pending.insert(id.0, (expected, union_all(partials))));
    } else {
        lemma_merges_before_last(pending, id, expected, partials.drop_last());
        let earlier = merge_all(pending, id, partials.drop_last());
        let step = spec_merge(earlier.0, id, partials.last());
        assert(step.0 =~= pending.insert(
            id.0,
            ((expected - partials.len()) as usize, union_all(partials)),
        ));
    }
}

/// A scrape that was begun for `expected` workers, one at least, is complete
/// with exactly the `expected`-th merge: every merge before it hands back
/// nothing, that one hands back all parts merged, and its record is gone.
pub proof fn lemma_scrape_completes_once(
    pending: Map<usize, (usize, Map<InfoHash, ScrapeStatistics>)>,
    id: PendingScrapeId,
    expected: usize,
    partials: Seq<Map<InfoHash, ScrapeStatistics>>,
)
    requires
        pending.contains_key(id.0),
        pending[id.0] == (expected, Map::<InfoHash, ScrapeStatistics>::empty()),
        expected >= 1,
        partials.len() == expected,
    ensures
        merge_all(pending, id, partials).0 == pending.remove(id.0),
        merge_all(pending, id, partials).1.len() == expected,
        forall|j: int|
            0 <= j < expected - 1 ==> #[trigger] merge_all(pending, id, partials).1[j] == Ok::<
                Option<Map<InfoHash, ScrapeStatistics>>,
                MergeError,
            >(None),
        merge_all(pending, id, partials).1[expected - 1] == Ok::<
            Option<Map<InfoHash, ScrapeStatistics>>,
            MergeError,
        >(Some(union_all(partials))),
        spec_merge(merge_all(pending, id, partials).0, id, partials.last()).1 == Err::<
            Option<Map<InfoHash, ScrapeStatistics>>,
            MergeError,
        >(MergeError::UnknownAggregation),
{
    lemma_merges_before_last(pending, id, expected, partials.drop_last());
    let earlier = merge_all(pending, id, partials.drop_last());
    let step = spec_merge(earlier.0, id, partials.last());
    assert(step.0 =~= pending.remove(id.0));
}

/// The merged answer has statistics for exactly the hashes that some part
/// has statistics for: none is missing and none is made up.
pub proof fn lemma_union_all_keys(partials: Seq<Map<InfoHash, ScrapeStatistics>>, info_hash: InfoHash)
    ensures
        union_all(partials).contains_key(info_hash) <==> exists|i: int|
            0 <= i < partials.len() && (#[trigger] partials[i]).contains_key(info_hash),
    decreases partials.len(),
{
    if partials.len() > 0 {
        lemma_union_all_keys(partials.drop_last(), info_hash);
        if union_all(partials).contains_key(info_hash) {
            if partials.last().contains_key(info_hash) {
                assert(partials[partials.len() - 1].contains_key(info_hash));
            } else {
                let i = choose|i: int|
                    0 <= i < partials.drop_last().len() && (#[trigger] partials.drop_last()[i]).contains_key(
                        info_hash,
                    );
                assert(partials[i].contains_key(info_hash));
            }
        }
        if exists|i: int| 0 <= i < partials.len() && (#[trigger] partials[i]).contains_key(info_hash) {
            let i = choose|i: int|
                0 <= i < partials.len() && (#[trigger] partials[i]).contains_key(info_hash);
            if i < partials.len() - 1 {
                assert(partials.drop_last()[i].contains_key(info_hash));
            }
        }
    }
}

/// Where only one part has statistics for a hash, as when each worker
/// answers for the swarms it owns, the merged answer holds that part's
/// statistics for it.
pub proof fn lemma_union_all_value(
    partials: Seq<Map<InfoHash, ScrapeStatistics>>,
    i: int,
    info_hash: InfoHash,
)
    requires
        0 <= i < partials.len(),
        partials[i].contains_key(info_hash),
        forall|j: int| 0 <= j < partials.len() && j != i ==> !(#[trigger] partials[j]).contains_key(info_hash),
    ensures
        union_all(partials).contains_key(info_hash),
        union_all(partials)[info_hash] == partials[i][info_hash],
    decreases partials.len(),
{
    if i < partials.len() - 1 {
        assert forall|j: int| 0 <= j < partials.drop_last().len() && j != i implies !(
        #[trigger] partials.drop_last()[j]).contains_key(info_hash) by {
            assert(!partials[j].contains_key(info_hash));
        }
        lemma_union_all_value(partials.drop_last(), i, info_hash);
        assert(!partials[partials.len() - 1].contains_key(info_hash));
    }
}

} // verus!
