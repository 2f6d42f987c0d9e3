use surreal_queue_bench::config::{Args, BenchMode};
use surreal_queue_bench::queries::{
    ack_latencies, heartbeat_query, lease_literal, lease_until_ns, recover_limit,
    register_worker_query, schema_query, AckError, RESET_SCHEMA,
};

fn args_with_lease(lease_secs: u64) -> Args {
    Args {
        endpoint: String::new(),
        user: String::new(),
        pass: String::new(),
        namespace: String::new(),
        database: String::new(),
        tasks: 1,
        mode: BenchMode::Concurrent,
        num_total_jobs: None,
        producers: 1,
        consumers: 1,
        buckets: 1,
        producer_batch: 1,
        consumer_batch: 1,
        payload_bytes: 0,
        lease_secs,
        job_ms: 0,
        run: None,
        output: None,
        export: None,
        no_html: false,
        separate_clients: false,
        reset: true,
        matrix: false,
        matrix_tasks: Vec::new(),
        matrix_producers: Vec::new(),
        matrix_consumers: Vec::new(),
        matrix_buckets: Vec::new(),
        matrix_producer_batches: Vec::new(),
        matrix_receive_batches: Vec::new(),
        matrix_job_ms: Vec::new(),
        matrix_modes: Vec::new(),
        matrix_repeats: 1,
        matrix_explain: false,
    }
}

#[test]
fn lease_literal_is_seconds() {
    assert_eq!(lease_literal(&args_with_lease(30)), "30s");
    assert_eq!(lease_literal(&args_with_lease(0)), "0s");
}

#[test]
fn worker_queries_carry_the_lease() {
    let args = args_with_lease(45);
    let lease = "45s";
    let register = format!(
        r#"
        UPSERT type::record("worker", $worker_id)
        SET
            worker_id = $worker_id,
            queue = $queue,
            lease_until = time::now() + {lease},
            capacity = $capacity
        RETURN NONE;
        "#
    );
    assert_eq!(register_worker_query(&args), register);
    let heartbeat = format!(
        r#"
        UPDATE type::record("worker", $worker_id)
        SET lease_until = time::now() + {lease}
        RETURN NONE;
        "#
    );
    assert_eq!(heartbeat_query(&args), heartbeat);
}

#[test]
fn the_schema_resets_only_when_asked() {
    let with_reset = schema_query(true);
    let without = schema_query(false);
    assert!(with_reset.contains(RESET_SCHEMA));
    assert!(!without.contains("REMOVE TABLE"));
    assert!(without.contains("DEFINE FUNCTION OVERWRITE fn::bench_receive_ready("));
    assert_eq!(with_reset.len(), without.len() + RESET_SCHEMA.len());
}

#[test]
fn lease_deadline_saturates() {
    assert_eq!(lease_until_ns(100, 2), 2_000_000_100);
    assert_eq!(lease_until_ns(i64::MAX - 5, 1), i64::MAX);
}

#[test]
fn recovery_takes_four_batches_at_least_one() {
    assert_eq!(recover_limit(100), 400);
    assert_eq!(recover_limit(0), 1);
}

#[test]
fn ack_latencies_cover_the_acknowledged_jobs() {
    let sent = [100i64, 250, -5, 900];
    let (count, latencies) = ack_latencies(&sent, Some(3), 500).ok().unwrap();
    assert_eq!(count, 3);
    assert_eq!(latencies, vec![400, 250, 500]);
    let (count, latencies) = ack_latencies(&sent, None, 500).ok().unwrap();
    assert_eq!(count, 0);
    assert!(latencies.is_empty());
    let (count, latencies) = ack_latencies(&sent, Some(9), 500).ok().unwrap();
    assert_eq!(count, 9);
    assert_eq!(latencies, vec![400, 250, 500, 0]);
}

#[test]
fn a_negative_ack_count_is_an_error() {
    let err = ack_latencies(&[1], Some(-1), 5).err().unwrap();
    assert_eq!(err, AckError::NegativeAckCount);
    assert_eq!(err.message(), "ack count was negative");
}
