use aquatic::common::{InfoHash, ScrapeStatistics};
use aquatic::scrape::{MergeError, PendingScrapeId, ScrapeAggregator, StatsMap};

fn stats(complete: usize, incomplete: usize) -> ScrapeStatistics {
    ScrapeStatistics {
        complete,
        incomplete,
        downloaded: 0,
    }
}

fn partial(entries: &[(u8, usize, usize)]) -> StatsMap {
    let mut map = StatsMap::new();
    for (hash, complete, incomplete) in entries {
        map.insert(InfoHash([*hash; 20]), stats(*complete, *incomplete));
    }
    map
}

fn sorted(map: &StatsMap) -> Vec<(InfoHash, ScrapeStatistics)> {
    let mut pairs = map.pairs();
    pairs.sort_by_key(|(info_hash, _)| info_hash.0);
    pairs
}

#[test]
fn stats_map_inserts_gets_and_lists() {
    let mut map = StatsMap::new();
    assert!(map.pairs().is_empty());
    assert_eq!(map.get(&InfoHash([1; 20])), None);
    map.insert(InfoHash([1; 20]), stats(1, 2));
    map.insert(InfoHash([2; 20]), stats(3, 4));
    map.insert(InfoHash([1; 20]), stats(5, 6));
    assert_eq!(map.get(&InfoHash([1; 20])), Some(stats(5, 6)));
    assert_eq!(map.get(&InfoHash([2; 20])), Some(stats(3, 4)));
    assert_eq!(map.get(&InfoHash([3; 20])), None);
    assert_eq!(
        sorted(&map),
        vec![
            (InfoHash([1; 20]), stats(5, 6)),
            (InfoHash([2; 20]), stats(3, 4))
        ]
    );
}

#[test]
fn single_part_completes_at_once() {
    let mut aggregator = ScrapeAggregator::new();
    let id = aggregator.begin(1);
    let result = aggregator.merge(id, partial(&[(1, 1, 0), (2, 0, 3)])).unwrap();
    let result = result.expect("complete");
    assert_eq!(
        sorted(&result),
        vec![
            (InfoHash([1; 20]), stats(1, 0)),
            (InfoHash([2; 20]), stats(0, 3))
        ]
    );
}

#[test]
fn scrape_over_k_shards_completes_after_exactly_k_merges() {
    for k in 1..6usize {
        let mut aggregator = ScrapeAggregator::new();
        let id = aggregator.begin(k);
        for part in 0..k {
            let result = aggregator
                .merge(id, partial(&[(part as u8, part, 10 + part)]))
                .unwrap();
            if part + 1 < k {
                assert!(result.is_none());
            } else {
                let all = result.expect("complete");
                let expected: Vec<(InfoHash, ScrapeStatistics)> = (0..k)
                    .map(|part| (InfoHash([part as u8; 20]), stats(part, 10 + part)))
                    .collect();
                assert_eq!(sorted(&all), expected);
            }
        }
        assert_eq!(
            aggregator.merge(id, partial(&[(9, 9, 9)])).err(),
            Some(MergeError::UnknownAggregation)
        );
    }
}

#[test]
fn scrape_of_three_hashes_over_two_shards() {
    let mut aggregator = ScrapeAggregator::new();
    let id = aggregator.begin(2);
    assert!(aggregator
        .merge(id, partial(&[(1, 1, 1), (3, 0, 0)]))
        .unwrap()
        .is_none());
    let all = aggregator.merge(id, partial(&[(2, 0, 2)])).unwrap().unwrap();
    assert_eq!(
        sorted(&all),
        vec![
            (InfoHash([1; 20]), stats(1, 1)),
            (InfoHash([2; 20]), stats(0, 2)),
            (InfoHash([3; 20]), stats(0, 0)),
        ]
    );
}

#[test]
fn later_part_wins_where_two_parts_name_one_hash() {
    let mut aggregator = ScrapeAggregator::new();
    let id = aggregator.begin(2);
    aggregator.merge(id, partial(&[(1, 1, 1)])).unwrap();
    let all = aggregator.merge(id, partial(&[(1, 7, 7)])).unwrap().unwrap();
    assert_eq!(sorted(&all), vec![(InfoHash([1; 20]), stats(7, 7))]);
}

#[test]
fn empty_parts_still_count() {
    let mut aggregator = ScrapeAggregator::new();
    let id = aggregator.begin(3);
    assert!(aggregator.merge(id, partial(&[])).unwrap().is_none());
    assert!(aggregator.merge(id, partial(&[])).unwrap().is_none());
    let all = aggregator.merge(id, partial(&[])).unwrap().unwrap();
    assert!(all.pairs().is_empty());
}

#[test]
fn unknown_id_is_an_error() {
    let mut aggregator = ScrapeAggregator::new();
    assert_eq!(
        aggregator.merge(PendingScrapeId(0), partial(&[])).err(),
        Some(MergeError::UnknownAggregation)
    );
    let id = aggregator.begin(2);
    assert_eq!(
        aggregator
            .merge(PendingScrapeId(id.0 + 1), partial(&[]))
            .err(),
        Some(MergeError::UnknownAggregation)
    );
    assert!(aggregator.merge(id, partial(&[])).unwrap().is_none());
}

#[test]
fn scrape_begun_for_no_worker_expects_nothing() {
    let mut aggregator = ScrapeAggregator::new();
    let id = aggregator.begin(0);
    assert_eq!(
        aggregator.merge(id, partial(&[(1, 1, 1)])).err(),
        Some(MergeError::NothingExpected)
    );
    assert_eq!(
        aggregator.merge(id, partial(&[(1, 1, 1)])).err(),
        Some(MergeError::NothingExpected)
    );
}

#[test]
fn scrapes_are_gathered_apart() {
    let mut aggregator = ScrapeAggregator::new();
    let first = aggregator.begin(2);
    let second = aggregator.begin(1);
    assert_ne!(first, second);
    aggregator.merge(first, partial(&[(1, 1, 1)])).unwrap();
    let done = aggregator.merge(second, partial(&[(2, 2, 2)])).unwrap().unwrap();
    assert_eq!(sorted(&done), vec![(InfoHash([2; 20]), stats(2, 2))]);
    let done = aggregator.merge(first, partial(&[(3, 3, 3)])).unwrap().unwrap();
    assert_eq!(
        sorted(&done),
        vec![
            (InfoHash([1; 20]), stats(1, 1)),
            (InfoHash([3; 20]), stats(3, 3))
        ]
    );
}

#[test]
fn id_of_a_completed_scrape_may_name_a_later_one() {
    let mut aggregator = ScrapeAggregator::new();
    let first = aggregator.begin(1);
    aggregator.merge(first, partial(&[])).unwrap();
    let second = aggregator.begin(2);
    assert!(aggregator.merge(second, partial(&[(1, 1, 1)])).unwrap().is_none());
    let done = aggregator.merge(second, partial(&[])).unwrap().unwrap();
    assert_eq!(sorted(&done), vec![(InfoHash([1; 20]), stats(1, 1))]);
}
