//! The SurrealQL that the benchmark sends, and the values bound into it.

use vstd::prelude::*;
use crate::config::Args;
use crate::text::{decimal_chars, push_decimal};

verus! {

/// Statements that drop the queue's functions and tables before they are defined again.
pub const RESET_SCHEMA: &'static str = r#"
        REMOVE FUNCTION fn::bench_receive_ready;
        REMOVE FUNCTION fn::bench_recover_buckets;
        REMOVE FUNCTION fn::bench_ack;
        REMOVE FUNCTION fn::bench_fail;
        REMOVE FUNCTION fn::bench_receive_bucket;
        REMOVE TABLE job;
        REMOVE TABLE job_payload;
        REMOVE TABLE job_ready;
        REMOVE TABLE job_lease;
        REMOVE TABLE worker;
        "#;

/// The text of the schema before the optional reset statements.
pub const SCHEMA_HEAD: &'static str = r#"
        "#;

/// The queue's tables, and its receive, recover, ack and fail functions.
pub const SCHEMA_BODY: &'static str = r#"

        DEFINE TABLE IF NOT EXISTS worker SCHEMAFULL;
        DEFINE FIELD worker_id ON worker TYPE string;
        DEFINE FIELD queue ON worker TYPE string;
        DEFINE FIELD lease_until ON worker TYPE datetime;
        DEFINE FIELD capacity ON worker TYPE int DEFAULT 1;
        DEFINE FIELD load ON worker TYPE int DEFAULT 0;

        DEFINE TABLE IF NOT EXISTS job_payload SCHEMAFULL;
        DEFINE FIELD queue ON job_payload TYPE string;
        DEFINE FIELD job_key ON job_payload TYPE string;
        DEFINE FIELD bucket ON job_payload TYPE int;
        DEFINE FIELD state ON job_payload TYPE string ASSERT $value INSIDE ["active", "done", "dead"];
        DEFINE FIELD sent_at_ns ON job_payload TYPE int;
        DEFINE FIELD completed_at_ns ON job_payload TYPE option<int>;
        DEFINE FIELD dead_at_ns ON job_payload TYPE option<int>;
        DEFINE FIELD payload ON job_payload TYPE object FLEXIBLE;

        DEFINE TABLE IF NOT EXISTS job_ready SCHEMAFULL;
        DEFINE FIELD queue ON job_ready TYPE string;
        DEFINE FIELD bucket ON job_ready TYPE int;
        DEFINE FIELD available_ns ON job_ready TYPE int;
        DEFINE FIELD job ON job_ready TYPE record<job_payload>;
        DEFINE FIELD job_key ON job_ready TYPE string;
        DEFINE FIELD attempts ON job_ready TYPE int DEFAULT 0;
        DEFINE FIELD max_attempts ON job_ready TYPE int DEFAULT 5;
        DEFINE FIELD sent_at_ns ON job_ready TYPE int;

        DEFINE TABLE IF NOT EXISTS job_lease SCHEMAFULL;
        DEFINE FIELD queue ON job_lease TYPE string;
        DEFINE FIELD bucket ON job_lease TYPE int;
        DEFINE FIELD lease_until_ns ON job_lease TYPE int;
        DEFINE FIELD job ON job_lease TYPE record<job_payload>;
        DEFINE FIELD job_key ON job_lease TYPE string;
        DEFINE FIELD attempts ON job_lease TYPE int DEFAULT 1;
        DEFINE FIELD max_attempts ON job_lease TYPE int DEFAULT 5;
        DEFINE FIELD sent_at_ns ON job_lease TYPE int;

        DEFINE FUNCTION OVERWRITE fn::bench_receive_ready(
            $queue: string,
            $bucket: int,
            $limit: int,
            $available_until_ns: int,
            $lease_until_ns: int
        ) -> array<object> {
            LET $ready = DELETE (
                SELECT VALUE id
                FROM job_ready:[$queue, $bucket, NONE, NONE]..=[$queue, $bucket, $available_until_ns, "~~~~"]
                LIMIT $limit
            ) RETURN BEFORE;
            IF $ready.len() = 0 {
                RETURN [];
            };

            LET $leases = $ready.map(|$row| {
                id: type::record("job_lease", [$queue, $bucket, $lease_until_ns, $row.job_key]),
                queue: $queue,
                bucket: $bucket,
                lease_until_ns: $lease_until_ns,
                job: $row.job,
                job_key: $row.job_key,
                attempts: $row.attempts + 1,
                max_attempts: $row.max_attempts,
                sent_at_ns: $row.sent_at_ns
            });
            INSERT INTO job_lease $leases
            RETURN NONE;

            RETURN $ready.map(|$row| {
                lease_token: type::record("job_lease", [$queue, $bucket, $lease_until_ns, $row.job_key]),
                sent_at_ns: $row.sent_at_ns
            });
        };

        DEFINE FUNCTION OVERWRITE fn::bench_recover_buckets(
            $queue: string,
            $buckets: array<int>,
            $now_ns: int,
            $limit: int
        ) {
            FOR $bucket IN $buckets {
                LET $expired = DELETE (
                    SELECT VALUE id
                    FROM job_lease:[$queue, $bucket, NONE, NONE]..=[$queue, $bucket, $now_ns, "~~~~"]
                    LIMIT $limit
                ) RETURN BEFORE;
                IF $expired.len() > 0 {
                    LET $retry = $expired[WHERE attempts < max_attempts];
                    IF $retry.len() > 0 {
                        LET $ready = $retry.map(|$row| {
                            id: type::record("job_ready", [$queue, $bucket, $now_ns, $row.job_key]),
                            queue: $queue,
                            bucket: $bucket,
                            available_ns: $now_ns,
                            job: $row.job,
                            job_key: $row.job_key,
                            attempts: $row.attempts,
                            max_attempts: $row.max_attempts,
                            sent_at_ns: $row.sent_at_ns
                        });
                        INSERT INTO job_ready $ready
                        RETURN NONE;
                    };

                    LET $dead = $expired[WHERE attempts >= max_attempts];
                    IF $dead.len() > 0 {
                        LET $dead_jobs = $dead.map(|$row| $row.job);
                        UPDATE $dead_jobs
                        SET state = "dead",
                            dead_at_ns = $now_ns
                        RETURN NONE;
                    };
                };
            };
            RETURN NONE;
        };

        DEFINE FUNCTION OVERWRITE fn::bench_ack(
            $lease_tokens: array<record<job_lease>>,
            $completed_at_ns: int
        ) -> int {
            LET $leases = DELETE $lease_tokens
                RETURN BEFORE;
            IF $leases.len() = 0 {
                RETURN 0;
            };

            LET $jobs = $leases.map(|$row| $row.job);
            UPDATE $jobs
            SET state = "done",
                completed_at_ns = $completed_at_ns
            RETURN NONE;

            RETURN $leases.len();
        };

        DEFINE FUNCTION OVERWRITE fn::bench_fail(
            $lease_tokens: array<record<job_lease>>,
            $now_ns: int
        ) {
            LET $leases = DELETE $lease_tokens
                RETURN BEFORE;
            IF $leases.len() = 0 {
                RETURN NONE;
            };

            LET $retry = $leases[WHERE attempts < max_attempts];
            IF $retry.len() > 0 {
                LET $ready = $retry.map(|$row| {
                        id: type::record("job_ready", [$row.queue, $row.bucket, $now_ns, $row.job_key]),
                        queue: $row.queue,
                        bucket: $row.bucket,
                        available_ns: $now_ns,
                        job: $row.job,
                        job_key: $row.job_key,
                        attempts: $row.attempts,
                        max_attempts: $row.max_attempts,
                        sent_at_ns: $row.sent_at_ns
                    });
                INSERT INTO job_ready $ready
                RETURN NONE;
            };

            LET $dead = $leases[WHERE attempts >= max_attempts];
            IF $dead.len() > 0 {
                LET $dead_jobs = $dead.map(|$row| $row.job);
                UPDATE $dead_jobs
                SET state = "dead",
                    dead_at_ns = $now_ns
                RETURN NONE;
            };
            RETURN NONE;
        };

        "#;

/// Inserts a batch of payload rows and their ready tokens in one transaction.
pub const INSERT_JOBS_QUERY: &'static str = r#"
        BEGIN TRANSACTION;

        INSERT INTO job_payload $payloads
        RETURN NONE;

        INSERT INTO job_ready $ready
        RETURN NONE;

        COMMIT TRANSACTION;
        "#;

/// The worker registration up to its lease duration.
pub const REGISTER_WORKER_HEAD: &'static str = r#"
        UPSERT type::record("worker", $worker_id)
        SET
            worker_id = $worker_id,
            queue = $queue,
            lease_until = time::now() + "#;

/// The worker registration after its lease duration.
pub const REGISTER_WORKER_TAIL: &'static str = r#",
            capacity = $capacity
        RETURN NONE;
        "#;

/// The heartbeat up to its lease duration.
pub const HEARTBEAT_HEAD: &'static str = r#"
        UPDATE type::record("worker", $worker_id)
        SET lease_until = time::now() + "#;

/// The heartbeat after its lease duration.
pub const HEARTBEAT_TAIL: &'static str = r#"
        RETURN NONE;
        "#;

/// Recovers the expired leases of some buckets in one transaction.
pub const RECOVER_LEASES_QUERY: &'static str = r#"
            BEGIN TRANSACTION;
            RETURN fn::bench_recover_buckets($queue, $buckets, $now_ns, $limit);
            COMMIT TRANSACTION;
            "#;

/// The ids of the workers whose registration lease is still running, in order.
pub const ACTIVE_WORKERS_QUERY: &'static str = r#"
            SELECT worker_id
            FROM worker
            WHERE queue = $queue
              AND lease_until > time::now()
            ORDER BY worker_id ASC;
            "#;

/// Claims ready jobs of one bucket in one transaction.
pub const RECEIVE_QUERY: &'static str = r#"
        BEGIN TRANSACTION;
        RETURN fn::bench_receive_ready($queue, $bucket, $limit, $available_until_ns, $lease_until_ns);
        COMMIT TRANSACTION;
        "#;

/// Acknowledges claimed jobs in one transaction.
pub const ACK_QUERY: &'static str = r#"
        BEGIN TRANSACTION;
        RETURN fn::bench_ack($lease_tokens, $completed_at_ns);
        COMMIT TRANSACTION;
        "#;

/// The query plan of a ready-token range scan.
pub const EXPLAIN_RECEIVE_QUERY: &'static str = r#"
        EXPLAIN ANALYZE FORMAT TEXT
        SELECT id, job_key, sent_at_ns
        FROM job_ready:[$queue, 0, NONE, NONE]..=[$queue, 0, 9223372036854775807, "~~~~"]
        LIMIT $limit;
        "#;

/// The query plan of a lease range scan.
pub const EXPLAIN_RECOVER_QUERY: &'static str = r#"
        EXPLAIN ANALYZE FORMAT TEXT
        SELECT id, job_key, sent_at_ns
        FROM job_lease:[$queue, 0, NONE, NONE]..=[$queue, 0, $now_ns, "~~~~"]
        LIMIT $limit;
        "#;

/// The schema as sent: the reset statements only when asked for.
pub open spec fn schema_chars(reset: bool) -> Seq<char> {
    SCHEMA_HEAD@ + (if reset { RESET_SCHEMA@ } else { ""@ }) + SCHEMA_BODY@
}

/// The schema definition, preceded by the reset statements when `reset`.
pub fn schema_query(reset: bool) -> (query: String)
    ensures
        query@ == schema_chars(reset),
{
    let mut query = String::from_str(SCHEMA_HEAD);
    if reset {
        query.append(RESET_SCHEMA);
    } else {
        query.append("");
    }
    query.append(SCHEMA_BODY);
    query
}

/// Asking for a reset only adds the reset statements, and puts them before
/// every definition: the query with reset is the query without it with the
/// reset block inserted right after the head, and it ends with the whole
/// schema body, so no reset statement follows a definition.
pub proof fn lemma_reset_comes_before_the_definitions()
    ensures
        ({
            let h = SCHEMA_HEAD@.len() as int;
            let plain = schema_chars(false);
            schema_chars(true) == plain.take(h) + RESET_SCHEMA@ + plain.skip(h)
        }),
        ({
            let q = schema_chars(true);
            let h = SCHEMA_HEAD@.len() as int;
            let r = RESET_SCHEMA@.len() as int;
            &&& q.subrange(h, h + r) == RESET_SCHEMA@
            &&& q.skip(h + r) == SCHEMA_BODY@
            &&& q.skip(q.len() - SCHEMA_BODY@.len()) == SCHEMA_BODY@
        }),
{
    reveal_strlit("");
    let h = SCHEMA_HEAD@.len() as int;
    let r = RESET_SCHEMA@.len() as int;
    let plain = schema_chars(false);
    let q = schema_chars(true);
    assert(plain =~= SCHEMA_HEAD@ + SCHEMA_BODY@);
    assert(plain.take(h) =~= SCHEMA_HEAD@);
    assert(plain.skip(h) =~= SCHEMA_BODY@);
    assert(q =~= plain.take(h) + RESET_SCHEMA@ + plain.skip(h));
    assert(q.subrange(h, h + r) =~= RESET_SCHEMA@);
    assert(q.skip(h + r) =~= SCHEMA_BODY@);
    assert(q.len() - SCHEMA_BODY@.len() == h + r);
}

/// A lease duration in SurrealQL: the seconds, then `s`.
pub open spec fn lease_chars(lease_secs: u64) -> Seq<char> {
    decimal_chars(lease_secs as nat) + "s"@
}

/// The lease duration of the settings as a SurrealQL literal.
pub fn lease_literal(args: &Args) -> (literal: String)
    ensures
        literal@ == lease_chars(args.lease_secs),
{
    let mut literal = String::new();
    push_decimal(&mut literal, args.lease_secs);
    literal.append("s");
    assert(Seq::<char>::empty() + decimal_chars(args.lease_secs as nat) =~= decimal_chars(args.lease_secs as nat));
    literal
}

/// The query that registers (or re-registers) a worker for a lease.
pub fn register_worker_query(args: &Args) -> (query: String)
    ensures
        query@ == REGISTER_WORKER_HEAD@ + lease_chars(args.lease_secs) + REGISTER_WORKER_TAIL@,
{
    let mut query = String::from_str(REGISTER_WORKER_HEAD);
    let lease = lease_literal(args);
    query.append(lease.as_str());
    query.append(REGISTER_WORKER_TAIL);
    query
}

/// The query that extends a worker's lease.
pub fn heartbeat_query(args: &Args) -> (query: String)
    ensures
        query@ == HEARTBEAT_HEAD@ + lease_chars(args.lease_secs) + HEARTBEAT_TAIL@,
{
    let mut query = String::from_str(HEARTBEAT_HEAD);
    let lease = lease_literal(args);
    query.append(lease.as_str());
    query.append(HEARTBEAT_TAIL);
    query
}

/// `a + b` saturated to the range of `i64`.
pub open spec fn saturating_i64_sum(a: int, b: int) -> i64 {
    if a + b > i64::MAX {
        i64::MAX
    } else if a + b < i64::MIN {
        i64::MIN
    } else {
        (a + b) as i64
    }
}

/// Nanoseconds in one second.
pub const NANOS_PER_SEC_I64: i64 = 1_000_000_000;

/// When a lease taken at `now_ns` (Unix nanoseconds) expires: `lease_secs`
/// later, saturated to `i64`.
pub fn lease_until_ns(now_ns: i64, lease_secs: u64) -> (until: i64)
    requires
        i64::MIN <= (lease_secs as i64) * NANOS_PER_SEC_I64 <= i64::MAX,
    ensures
        until == saturating_i64_sum(now_ns as int, (lease_secs as i64) * NANOS_PER_SEC_I64),
{
    let lease_ns: i64 = (lease_secs as i64) * NANOS_PER_SEC_I64;
    match now_ns.checked_add(lease_ns) {
        Some(sum) => sum,
        None => if lease_ns > 0 { i64::MAX } else { i64::MIN },
    }
}

/// How many expired leases one recovery pass takes per bucket: four
/// receive batches, at least one (as the `i64` that SurrealQL receives).
pub fn recover_limit(consumer_batch: usize) -> (limit: i64)
    requires
        consumer_batch * 4 <= usize::MAX,
    ensures
        limit == (if consumer_batch * 4 >= 1 { consumer_batch * 4 } else { 1 }) as usize as i64,
{
    let scaled = consumer_batch * 4;
    let at_least_one: usize = if scaled >= 1 { scaled } else { 1 };
    at_least_one as i64
}

/// The acknowledgment count that the server reported was negative.
#[derive(Clone, Copy, Debug, PartialEq, Eq, Structural)]
pub enum AckError {
    NegativeAckCount,
}

impl AckError {
    /// The text of the error.
    pub fn message(&self) -> (text: String)
        ensures
            text@ == "ack count was negative"@,
    {
        String::from_str("ack count was negative")
    }
}

/// The latency of a job sent at `sent_at_ns` and acknowledged at `now_ns`:
/// zero if the acknowledgment seems earlier, a negative send time counting
/// as zero.
pub open spec fn job_latency(sent_at_ns: i64, now_ns: u64) -> u64 {
    let sent: u64 = if sent_at_ns >= 0 { sent_at_ns as u64 } else { 0 };
    if now_ns >= sent { (now_ns - sent) as u64 } else { 0 }
}

/// What an acknowledgment yields: the count of acknowledged jobs (none when
/// the server reported none), and the latencies of the first that many of
/// the claimed jobs; an error when the count is negative.
pub fn ack_latencies(sent_at_ns: &[i64], acked: Option<i64>, now_ns: u64) -> (outcome: Result<(u64, Vec<u64>), AckError>)
    ensures
        ({
            let count: i64 = match acked {
                Some(n) => n,
                None => 0,
            };
            if count < 0 {
                outcome == Err::<(u64, Vec<u64>), AckError>(AckError::NegativeAckCount)
            } else {
                let n = if (count as u64) as usize <= sent_at_ns@.len() {
                    (count as u64) as usize as int
                } else {
                    sent_at_ns@.len() as int
                };
                outcome matches Ok((acked_count, latencies)) && acked_count == count as u64
                    && latencies@ == Seq::new(n as nat, |i: int| job_latency(sent_at_ns@[i], now_ns))
            }
        }),
{
    let count: i64 = match acked {
        Some(n) => n,
        None => 0,
    };
    if count < 0 {
        return Err(AckError::NegativeAckCount);
    }
    let acked_count = count as u64;
    let wanted = acked_count as usize;
    let n: usize = if wanted <= sent_at_ns.len() { wanted } else { sent_at_ns.len() };
    let mut latencies: Vec<u64> = Vec::new();
    let mut i: usize = 0;
    while i < n
        invariant
            0 <= i <= n,
            n <= sent_at_ns@.len(),
            latencies@ == Seq::new(i as nat, |j: int| job_latency(sent_at_ns@[j], now_ns)),
        decreases n - i,
    {
        let sent = sent_at_ns[i];
        let sent_u: u64 = if sent >= 0 { sent as u64 } else { 0 };
        latencies.push(now_ns.saturating_sub(sent_u));
        assert(latencies@ =~= Seq::new((i + 1) as nat, |j: int| job_latency(sent_at_ns@[j], now_ns)));
        i = i + 1;
    }
    Ok((acked_count, latencies))
}

} // verus!
