use surreal_queue_bench::buckets::BucketState;
use surreal_queue_bench::consumer::{
    new_worker_id, worker_id_from, ConsumerAction, ConsumerMachine, ConsumerPhase,
};

const MS: u64 = 1_000_000;
const SEC: u64 = 1_000_000_000;

#[test]
fn a_new_consumer_refreshes_first() {
    let mut m = ConsumerMachine::new(10, 30, 0);
    assert_eq!(m.heartbeat_interval_ns, 10 * SEC as u128);
    assert_eq!(m.next_action(0, 0), ConsumerAction::RefreshBuckets);
    assert_eq!(m.phase, ConsumerPhase::AwaitRefresh);
}

#[test]
fn the_heartbeat_interval_is_a_third_of_the_lease_at_least_a_second() {
    assert_eq!(ConsumerMachine::new(1, 2, 0).heartbeat_interval_ns, SEC as u128);
    assert_eq!(ConsumerMachine::new(1, 9, 0).heartbeat_interval_ns, 3 * SEC as u128);
}

#[test]
fn finish_once_every_job_is_consumed() {
    let mut m = ConsumerMachine::new(10, 30, 0);
    assert_eq!(m.next_action(10, 0), ConsumerAction::Finish);
    assert_eq!(m.next_action(11, 0), ConsumerAction::Finish);
}

#[test]
fn no_owned_bucket_means_a_ten_millisecond_sleep_then_another_refresh() {
    let mut m = ConsumerMachine::new(10, 30, 0);
    assert_eq!(m.next_action(0, 0), ConsumerAction::RefreshBuckets);
    m.on_buckets_refreshed(Vec::new(), 0);
    assert_eq!(m.stats.bucket_refreshes, 1);
    assert_eq!(m.next_action(0, 0), ConsumerAction::Sleep { nanos: 10 * MS });
    assert_eq!(m.stats.empty_polls, 1);
    assert_eq!(m.next_action(0, MS), ConsumerAction::RefreshBuckets);
}

#[test]
fn a_full_receive_and_ack_cycle() {
    let mut m = ConsumerMachine::new(10, 30, 0);
    assert_eq!(m.next_action(0, 0), ConsumerAction::RefreshBuckets);
    m.on_buckets_refreshed(vec![3, 7], 100);
    assert_eq!(m.next_action(0, 200), ConsumerAction::Receive { index: 0, bucket: 3 });
    assert_eq!(m.cursor, 1);
    assert!(m.on_jobs_received(2, 300));
    assert_eq!(m.phase, ConsumerPhase::AwaitAck);
    assert_eq!(m.on_jobs_acked(2, vec![50, 60]), None);
    assert_eq!(m.stats.claimed, 2);
    assert_eq!(m.stats.latency_ns, vec![50, 60]);
    assert_eq!(m.next_action(2, 400), ConsumerAction::Receive { index: 1, bucket: 7 });
    assert_eq!(m.cursor, 0);
}

#[test]
fn an_empty_receive_backs_the_bucket_off() {
    let mut m = ConsumerMachine::new(10, 30, 0);
    m.next_action(0, 0);
    m.on_buckets_refreshed(vec![3], 0);
    assert_eq!(m.next_action(0, 0), ConsumerAction::Receive { index: 0, bucket: 3 });
    assert!(!m.on_jobs_received(0, 1000));
    assert_eq!(m.stats.empty_polls, 1);
    assert_eq!(m.bucket_states[0], BucketState { bucket: 3, empty_misses: 1, ready_at_ns: 1000 + 2 * MS });
    assert_eq!(m.next_action(0, 1000), ConsumerAction::Sleep { nanos: 2 * MS });
    assert_eq!(m.stats.empty_polls, 2);
    assert_eq!(m.next_action(0, 1000 + 2 * MS), ConsumerAction::Receive { index: 0, bucket: 3 });
    assert!(m.on_jobs_received(1, 5 * MS));
    assert_eq!(m.bucket_states[0], BucketState { bucket: 3, empty_misses: 0, ready_at_ns: 5 * MS });
}

#[test]
fn an_ack_of_nothing_sleeps_a_millisecond() {
    let mut m = ConsumerMachine::new(10, 30, 0);
    m.next_action(0, 0);
    m.on_buckets_refreshed(vec![1], 0);
    m.next_action(0, 0);
    m.on_jobs_received(3, 0);
    assert_eq!(m.on_jobs_acked(0, vec![]), Some(MS));
    assert_eq!(m.stats.empty_polls, 1);
    assert_eq!(m.stats.claimed, 0);
    assert!(m.stats.latency_ns.is_empty());
}

#[test]
fn heartbeats_and_refreshes_come_after_the_interval() {
    let mut m = ConsumerMachine::new(10, 3, 0);
    m.next_action(0, 0);
    m.on_buckets_refreshed(vec![1, 2], 0);
    assert_eq!(m.next_action(0, SEC), ConsumerAction::Heartbeat);
    m.on_heartbeat_sent(SEC);
    assert_eq!(m.phase, ConsumerPhase::Picking);
    assert_eq!(m.next_action(0, SEC), ConsumerAction::Receive { index: 0, bucket: 1 });
    m.on_jobs_received(0, SEC);
    assert_eq!(m.next_action(0, SEC + 1), ConsumerAction::RefreshBuckets);
}

#[test]
fn a_refresh_keeps_states_and_clamps_the_cursor() {
    let mut m = ConsumerMachine::new(10, 30, 0);
    m.next_action(0, 0);
    m.on_buckets_refreshed(vec![1, 2, 3], 0);
    m.next_action(0, 0);
    m.on_jobs_received(0, 0);
    m.next_action(0, 0);
    m.on_jobs_received(0, 0);
    assert_eq!(m.cursor, 2);
    m.last_refresh_ns = None;
    assert_eq!(m.next_action(0, 10), ConsumerAction::RefreshBuckets);
    m.on_buckets_refreshed(vec![2], 10);
    assert_eq!(m.cursor, 0);
    assert_eq!(m.bucket_states, vec![BucketState { bucket: 2, empty_misses: 1, ready_at_ns: 2 * MS }]);
}

#[test]
fn worker_ids_carry_the_consumer_number() {
    assert_eq!(worker_id_from(3, "abc"), "worker-3-abc");
    let id = new_worker_id(12);
    assert!(id.starts_with("worker-12-"));
    assert_eq!(id.len(), "worker-12-".len() + 36);
    assert_ne!(new_worker_id(12), id);
    let unique: Vec<char> = id["worker-12-".len()..].chars().collect();
    for (i, c) in unique.iter().enumerate() {
        if [8, 13, 18, 23].contains(&i) {
            assert_eq!(*c, '-');
        } else {
            assert!(c.is_ascii_digit() || ('a'..='f').contains(c));
        }
    }
}
