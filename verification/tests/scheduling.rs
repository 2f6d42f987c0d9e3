use surreal_queue_bench::buckets::{
    bucket_empty_backoff, merge_bucket_states, next_bucket_sleep, next_ready_bucket_index,
    BucketState,
};
use surreal_queue_bench::partition::{
    owner_index_by_scores, partition_lease_targets, partition_owner_score,
};

const MS: u64 = 1_000_000;

fn state(bucket: u32, empty_misses: u32, ready_at_ns: u64) -> BucketState {
    BucketState { bucket, empty_misses, ready_at_ns }
}

#[test]
fn backoff_doubles_from_one_millisecond_and_caps_at_thirty_two() {
    assert_eq!(bucket_empty_backoff(0), MS);
    assert_eq!(bucket_empty_backoff(1), 2 * MS);
    assert_eq!(bucket_empty_backoff(3), 8 * MS);
    assert_eq!(bucket_empty_backoff(5), 32 * MS);
    assert_eq!(bucket_empty_backoff(6), 32 * MS);
    assert_eq!(bucket_empty_backoff(u32::MAX), 32 * MS);
}

#[test]
fn merge_keeps_known_buckets_and_starts_new_ones_fresh() {
    let previous = vec![state(1, 3, 500), state(2, 1, 700), state(9, 4, 900)];
    let merged = merge_bucket_states(previous, vec![2, 5, 1], 1000);
    assert_eq!(merged, vec![state(2, 1, 700), state(5, 0, 1000), state(1, 3, 500)]);
}

#[test]
fn merge_gives_a_repeated_bucket_its_old_state_once() {
    let previous = vec![state(4, 2, 10), state(4, 7, 20)];
    let merged = merge_bucket_states(previous, vec![4, 4], 99);
    assert_eq!(merged, vec![state(4, 7, 20), state(4, 0, 99)]);
}

#[test]
fn merge_with_nothing_owned_is_empty() {
    let merged = merge_bucket_states(vec![state(1, 0, 0)], Vec::new(), 5);
    assert!(merged.is_empty());
}

#[test]
fn next_ready_bucket_goes_round_robin_from_the_cursor() {
    let states = vec![state(10, 0, 0), state(11, 0, 50), state(12, 0, 0)];
    assert_eq!(next_ready_bucket_index(&states, 0, 10), Some(0));
    assert_eq!(next_ready_bucket_index(&states, 1, 10), Some(2));
    assert_eq!(next_ready_bucket_index(&states, 1, 50), Some(1));
    assert_eq!(next_ready_bucket_index(&states, 2, 10), Some(2));
}

#[test]
fn next_ready_bucket_wraps_around() {
    let states = vec![state(10, 0, 0), state(11, 0, 50), state(12, 0, 50)];
    assert_eq!(next_ready_bucket_index(&states, 1, 10), Some(0));
}

#[test]
fn no_ready_bucket_gives_none() {
    let states = vec![state(10, 0, 100), state(11, 0, 50)];
    assert_eq!(next_ready_bucket_index(&states, 0, 10), None);
    assert_eq!(next_ready_bucket_index(&[], 0, 10), None);
}

#[test]
fn sleep_until_the_earliest_pending_bucket() {
    let states = vec![state(1, 0, 3 * MS), state(2, 0, 2 * MS), state(3, 0, 0)];
    assert_eq!(next_bucket_sleep(&states, MS), MS);
}

#[test]
fn sleep_is_capped_at_ten_milliseconds() {
    let states = vec![state(1, 0, 40 * MS)];
    assert_eq!(next_bucket_sleep(&states, 0), 10 * MS);
}

#[test]
fn sleep_defaults_to_one_millisecond_when_nothing_is_pending() {
    let states = vec![state(1, 0, 0)];
    assert_eq!(next_bucket_sleep(&states, 5), MS);
    assert_eq!(next_bucket_sleep(&[], 5), MS);
}

#[test]
fn sleep_counts_a_bucket_ready_right_now_as_zero_wait() {
    let states = vec![state(1, 0, 5), state(2, 0, 9 * MS)];
    assert_eq!(next_bucket_sleep(&states, 5), 0);
}

#[test]
fn owner_score_hashes_the_bucket_then_the_worker_id() {
    let mut bytes = 7u32.to_le_bytes().to_vec();
    bytes.extend_from_slice("worker-1".as_bytes());
    assert_eq!(partition_owner_score(7, "worker-1"), xxhash_rust::xxh3::xxh3_64(&bytes));
    assert_ne!(partition_owner_score(7, "worker-1"), partition_owner_score(8, "worker-1"));
}

#[test]
fn owner_is_the_last_highest_score() {
    assert_eq!(owner_index_by_scores(&[3, 9, 1, 9, 2]), 3);
    assert_eq!(owner_index_by_scores(&[5]), 0);
    assert_eq!(owner_index_by_scores(&[1, 2, 3]), 2);
}

#[test]
fn lease_targets_follow_the_highest_score() {
    let workers = vec!["w-a".to_string(), "w-b".to_string(), "w-c".to_string()];
    for bucket in 0..32u32 {
        let scores: Vec<u64> = workers.iter().map(|w| partition_owner_score(bucket, w)).collect();
        let owner = owner_index_by_scores(&scores);
        for (k, w) in workers.iter().enumerate() {
            let targets = partition_lease_targets(&workers, w, 32);
            assert_eq!(targets.contains(&bucket), k == owner);
        }
    }
}

#[test]
fn every_bucket_has_exactly_one_owner() {
    let workers: Vec<String> = (0..5).map(|i| format!("worker-{i}")).collect();
    let mut seen = vec![0u32; 64];
    for w in &workers {
        let targets = partition_lease_targets(&workers, w, 64);
        assert!(targets.windows(2).all(|p| p[0] < p[1]));
        for b in targets {
            seen[b as usize] += 1;
        }
    }
    assert!(seen.iter().all(|&n| n == 1));
}

#[test]
fn an_unknown_worker_or_no_workers_lease_nothing() {
    let workers = vec!["w-a".to_string()];
    assert!(partition_lease_targets(&workers, "w-z", 16).is_empty());
    assert!(partition_lease_targets(&[], "w-a", 16).is_empty());
    assert_eq!(partition_lease_targets(&workers, "w-a", 4), vec![0, 1, 2, 3]);
}
