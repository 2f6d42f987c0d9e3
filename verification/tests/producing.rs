use surreal_queue_bench::jobs::{job_from_hash, make_job, ProducerCursor, MAX_ATTEMPTS};
use surreal_queue_bench::text::decimal_string;

#[test]
fn a_job_is_keyed_and_bucketed_by_its_hash() {
    for task_id in [0u64, 1, 42, 123_456, u64::MAX] {
        let hash = xxhash_rust::xxh3::xxh3_64(format!("task:{task_id}").as_bytes());
        let job = make_job(task_id, 1024, 77);
        assert_eq!(job.job_key, format!("{hash:016x}:{task_id}"));
        assert_eq!(job.bucket as u64, hash % 1024);
        assert_eq!(job.queue, "bench");
        assert_eq!(job.state, "active");
        assert_eq!(job.sent_at_ns, 77);
        assert_eq!(job.available_ns, 0);
        assert_eq!(job.attempts, 0);
        assert_eq!(job.max_attempts, MAX_ATTEMPTS);
    }
}

#[test]
fn job_from_a_given_hash() {
    let job = job_from_hash(9, 0xabc, 10, 5);
    assert_eq!(job.job_key, "0000000000000abc:9");
    assert_eq!(job.bucket, (0xabc % 10) as u32);
}

#[test]
fn decimal_digits_match_the_standard_formatting() {
    for n in [0u64, 7, 10, 99, 100, 18_446_744_073_709_551_615] {
        assert_eq!(decimal_string(n), n.to_string());
    }
}

fn all_batches(producer_id: u64, producers: u64, tasks: u64, batch: usize) -> Vec<Vec<u64>> {
    let mut cursor = ProducerCursor::new(producer_id, producers, tasks, batch);
    let mut batches = Vec::new();
    loop {
        let ids = cursor.next_batch();
        if ids.is_empty() {
            break;
        }
        batches.push(ids);
    }
    batches
}

#[test]
fn producer_batches_step_through_its_tasks() {
    assert_eq!(all_batches(1, 3, 11, 2), vec![vec![1, 4], vec![7, 10]]);
    assert_eq!(all_batches(0, 3, 11, 3), vec![vec![0, 3, 6], vec![9]]);
    assert_eq!(all_batches(5, 3, 5, 2), Vec::<Vec<u64>>::new());
    assert_eq!(all_batches(0, 1, 5, 0), vec![vec![0, 1, 2, 3, 4]]);
}

#[test]
fn the_batches_match_a_stepped_range() {
    for (producer_id, producers, tasks, batch) in [(0u64, 4u64, 103u64, 10usize), (3, 4, 103, 7), (2, 5, 2, 1)] {
        let flat: Vec<u64> = all_batches(producer_id, producers, tasks, batch).concat();
        let expected: Vec<u64> = (producer_id..tasks).step_by(producers as usize).collect();
        assert_eq!(flat, expected);
    }
}

#[test]
fn every_task_is_produced_exactly_once() {
    let producers = 6u64;
    let tasks = 250u64;
    let mut seen = vec![0u32; tasks as usize];
    for p in 0..producers {
        for id in all_batches(p, producers, tasks, 7).concat() {
            assert_eq!(id % producers, p);
            seen[id as usize] += 1;
        }
    }
    assert!(seen.iter().all(|&n| n == 1));
}

#[test]
fn ids_near_the_top_of_the_range_do_not_overflow() {
    let flat = all_batches(u64::MAX - 3, 2, u64::MAX, 4).concat();
    assert_eq!(flat, vec![u64::MAX - 3, u64::MAX - 1]);
}

#[test]
fn batches_are_full_but_the_last_and_counts_add_up_to_the_tasks() {
    let producers = 4u64;
    let tasks = 103u64;
    let mut total = 0usize;
    for p in 0..producers {
        let batches = all_batches(p, producers, tasks, 5);
        for (i, batch) in batches.iter().enumerate() {
            assert!(!batch.is_empty() && batch.len() <= 5);
            if i + 1 < batches.len() {
                assert_eq!(batch.len(), 5);
            }
        }
        total += batches.concat().len();
    }
    assert_eq!(total, tasks as usize);
}
