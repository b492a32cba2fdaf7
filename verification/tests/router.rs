use aquatic::common::InfoHash;
use aquatic::router::{calculate_in_message_consumer_index, split_by_shard};

fn hash(first: u8, rest: u8) -> InfoHash {
    let mut bytes = [rest; 20];
    bytes[0] = first;
    InfoHash(bytes)
}

#[test]
fn shard_is_first_byte_modulo_workers() {
    assert_eq!(calculate_in_message_consumer_index(4, hash(0, 9)), 0);
    assert_eq!(calculate_in_message_consumer_index(4, hash(5, 9)), 1);
    assert_eq!(calculate_in_message_consumer_index(4, hash(255, 0)), 3);
    assert_eq!(calculate_in_message_consumer_index(1, hash(200, 0)), 0);
    assert_eq!(calculate_in_message_consumer_index(7, hash(200, 0)), 4);
    assert_eq!(calculate_in_message_consumer_index(1000, hash(200, 0)), 200);
}

#[test]
fn shard_depends_on_the_first_byte_only() {
    for first in 0..=255u8 {
        assert_eq!(
            calculate_in_message_consumer_index(5, hash(first, 1)),
            calculate_in_message_consumer_index(5, hash(first, 200))
        );
        assert!(calculate_in_message_consumer_index(5, hash(first, 1)) < 5);
    }
}

#[test]
fn split_groups_by_owner_in_ascending_order() {
    let hashes = vec![hash(5, 1), hash(2, 1), hash(9, 1), hash(6, 1), hash(1, 1), hash(2, 2)];
    let groups = split_by_shard(&hashes, 4);
    assert_eq!(
        groups,
        vec![
            (1usize, vec![hash(5, 1), hash(9, 1), hash(1, 1)]),
            (2usize, vec![hash(2, 1), hash(6, 1), hash(2, 2)]),
        ]
    );
}

#[test]
fn split_of_nothing_has_no_groups() {
    assert!(split_by_shard(&vec![], 3).is_empty());
}

#[test]
fn split_with_one_worker_is_one_group() {
    let hashes = vec![hash(5, 1), hash(2, 1), hash(5, 1)];
    assert_eq!(split_by_shard(&hashes, 1), vec![(0usize, hashes.clone())]);
}

#[test]
fn split_loses_and_invents_nothing() {
    let hashes: Vec<InfoHash> = (0..200u8).map(|i| hash(i.wrapping_mul(37), i)).collect();
    let groups = split_by_shard(&hashes, 6);
    let total: usize = groups.iter().map(|(_, group)| group.len()).sum();
    assert_eq!(total, hashes.len());
    for (worker, group) in &groups {
        assert!(!group.is_empty());
        for info_hash in group {
            assert_eq!(calculate_in_message_consumer_index(6, *info_hash), *worker);
        }
    }
    for window in groups.windows(2) {
        assert!(window[0].0 < window[1].0);
    }
}
