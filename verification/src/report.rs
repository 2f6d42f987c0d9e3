//! The integer content of a run's report: counters, configuration and the
//! summary figures (the app adds the rates and times in seconds).

use vstd::prelude::*;
use crate::config::{Args, BenchMode};
use crate::matrix::{QUEUE, QUEUE_MODEL};
use crate::stats::{OpTimer, WorkerStats, total_bucket_refreshes, total_empty_polls, worker_totals};
use crate::summary::{OpTiming, op_timing, timing_of};

verus! {

/// Counters shared by all workers of a run.
#[derive(Debug)]
pub struct BenchCounters {
    pub producer_batches_started: u64,
    pub producer_batches_completed: u64,
    pub receive_calls_started: u64,
    pub receive_calls_completed: u64,
    pub ack_batches_started: u64,
    pub ack_batches_completed: u64,
    pub producer_errors: u64,
    pub receive_errors: u64,
    pub ack_errors: u64,
    pub producer_query: OpTimer,
    pub select_query: OpTimer,
    pub ack_query: OpTimer,
    pub register_worker_count: u64,
    pub register_worker: OpTimer,
    pub heartbeat_count: u64,
    pub heartbeat: OpTimer,
    pub bucket_refresh_count: u64,
    pub bucket_refresh: OpTimer,
}

impl BenchCounters {
    /// Counters of a run that has not started.
    pub fn new() -> (counters: BenchCounters)
        ensures
            counters.producer_batches_started == 0,
            counters.producer_batches_completed == 0,
            counters.receive_calls_started == 0,
            counters.receive_calls_completed == 0,
            counters.ack_batches_started == 0,
            counters.ack_batches_completed == 0,
            counters.producer_errors == 0,
            counters.receive_errors == 0,
            counters.ack_errors == 0,
            counters.register_worker_count == 0,
            counters.heartbeat_count == 0,
            counters.bucket_refresh_count == 0,
            counters.producer_query.total_ns == 0 && counters.producer_query.samples_ns@.len() == 0,
            counters.select_query.total_ns == 0 && counters.select_query.samples_ns@.len() == 0,
            counters.ack_query.total_ns == 0 && counters.ack_query.samples_ns@.len() == 0,
            counters.register_worker.total_ns == 0 && counters.register_worker.samples_ns@.len() == 0,
            counters.heartbeat.total_ns == 0 && counters.heartbeat.samples_ns@.len() == 0,
            counters.bucket_refresh.total_ns == 0 && counters.bucket_refresh.samples_ns@.len() == 0,
    {
        BenchCounters {
            producer_batches_started: 0,
            producer_batches_completed: 0,
            receive_calls_started: 0,
            receive_calls_completed: 0,
            ack_batches_started: 0,
            ack_batches_completed: 0,
            producer_errors: 0,
            receive_errors: 0,
            ack_errors: 0,
            producer_query: OpTimer::new(),
            select_query: OpTimer::new(),
            ack_query: OpTimer::new(),
            register_worker_count: 0,
            register_worker: OpTimer::new(),
            heartbeat_count: 0,
            heartbeat: OpTimer::new(),
            bucket_refresh_count: 0,
            bucket_refresh: OpTimer::new(),
        }
    }
}

/// The timings of every kind of database call of a run.
#[derive(Debug)]
pub struct JsonTimings {
    pub producer_query: OpTiming,
    pub select_query: OpTiming,
    pub ack_query: OpTiming,
    pub register_worker: OpTiming,
    pub heartbeat: OpTiming,
    pub bucket_refresh: OpTiming,
}

/// Summarizes every kind of call, each counted by its completions: inserts
/// by completed producer batches, receives by completed receive calls, acks
/// by completed ack batches, and registrations, heartbeats and refreshes by
/// their own counts.
pub fn build_json_timings(counters: &BenchCounters) -> (timings: JsonTimings)
    ensures
        timing_of(timings.producer_query, counters.producer_batches_completed, counters.producer_query),
        timing_of(timings.select_query, counters.receive_calls_completed, counters.select_query),
        timing_of(timings.ack_query, counters.ack_batches_completed, counters.ack_query),
        timing_of(timings.register_worker, counters.register_worker_count, counters.register_worker),
        timing_of(timings.heartbeat, counters.heartbeat_count, counters.heartbeat),
        timing_of(timings.bucket_refresh, counters.bucket_refresh_count, counters.bucket_refresh),
{
    JsonTimings {
        producer_query: op_timing(counters.producer_batches_completed, &counters.producer_query),
        select_query: op_timing(counters.receive_calls_completed, &counters.select_query),
        ack_query: op_timing(counters.ack_batches_completed, &counters.ack_query),
        register_worker: op_timing(counters.register_worker_count, &counters.register_worker),
        heartbeat: op_timing(counters.heartbeat_count, &counters.heartbeat),
        bucket_refresh: op_timing(counters.bucket_refresh_count, &counters.bucket_refresh),
    }
}

/// The outcome of a run, apart from its durations.
#[derive(Debug)]
pub struct BenchResult {
    pub inserted: u64,
    pub consumed: u64,
    pub worker_stats: Vec<WorkerStats>,
    pub counters: BenchCounters,
    pub latency_ns: Vec<u64>,
    pub mode: BenchMode,
}

/// The integer figures of a run's summary.
#[derive(Clone, Copy, Debug, PartialEq, Eq, Structural)]
pub struct SummaryCounts {
    pub produced_total: u64,
    pub acked_total: u64,
    pub final_backlog: i64,
    pub drained: bool,
    pub producer_batches_started: u64,
    pub producer_batches_completed: u64,
    pub producer_batches_in_flight: u64,
    pub receive_calls_started: u64,
    pub receive_calls_completed: u64,
    pub receive_calls_in_flight: u64,
    pub ack_batches_started: u64,
    pub ack_batches_completed: u64,
    pub ack_batches_in_flight: u64,
    pub producer_errors: u64,
    pub receive_errors: u64,
    pub ack_errors: u64,
    pub empty_polls: u64,
    pub bucket_refreshes: u64,
}

/// `started - completed`, or 0 when more completed than started.
pub open spec fn in_flight(started: u64, completed: u64) -> u64 {
    if started >= completed { (started - completed) as u64 } else { 0 }
}

/// Whether the backlog `inserted - consumed` (each reinterpreted as `i64`)
/// can be computed without overflow.
pub open spec fn backlog_fits(inserted: u64, consumed: u64) -> bool {
    i64::MIN <= (inserted as i64) - (consumed as i64) <= i64::MAX
}

/// The integer summary of a run: what was produced and acknowledged, the
/// backlog left and whether the queue drained, calls started, completed and
/// still in flight, errors, and the workers' empty polls and refreshes
/// added up. `None` exactly when the backlog or one of those sums overflows
/// (where the report stops with an overflow).
pub fn summary_counts(result: &BenchResult) -> (counts: Option<SummaryCounts>)
    ensures
        match counts {
            None => !backlog_fits(result.inserted, result.consumed) || total_empty_polls(result.worker_stats@)
                > u64::MAX || total_bucket_refreshes(result.worker_stats@) > u64::MAX,
            Some(c) => {
                let k = result.counters;
                &&& backlog_fits(result.inserted, result.consumed)
                &&& c.produced_total == result.inserted
                &&& c.acked_total == result.consumed
                &&& c.final_backlog == (result.inserted as i64) - (result.consumed as i64)
                &&& c.drained == (result.inserted == result.consumed)
                &&& c.producer_batches_started == k.producer_batches_started
                &&& c.producer_batches_completed == k.producer_batches_completed
                &&& c.producer_batches_in_flight == in_flight(k.producer_batches_started, k.producer_batches_completed)
                &&& c.receive_calls_started == k.receive_calls_started
                &&& c.receive_calls_completed == k.receive_calls_completed
                &&& c.receive_calls_in_flight == in_flight(k.receive_calls_started, k.receive_calls_completed)
                &&& c.ack_batches_started == k.ack_batches_started
                &&& c.ack_batches_completed == k.ack_batches_completed
                &&& c.ack_batches_in_flight == in_flight(k.ack_batches_started, k.ack_batches_completed)
                &&& c.producer_errors == k.producer_errors
                &&& c.receive_errors == k.receive_errors
                &&& c.ack_errors == k.ack_errors
                &&& c.empty_polls == total_empty_polls(result.worker_stats@)
                &&& c.bucket_refreshes == total_bucket_refreshes(result.worker_stats@)
            },
        },
{
    let totals = worker_totals(result.worker_stats.as_slice());
    let empty_polls = match totals.empty_polls {
        Some(n) => n,
        None => return None,
    };
    let bucket_refreshes = match totals.bucket_refreshes {
        Some(n) => n,
        None => return None,
    };
    let inserted = result.inserted as i64;
    let consumed = result.consumed as i64;
    let backlog = match inserted.checked_sub(consumed) {
        Some(b) => b,
        None => return None,
    };
    let k = &result.counters;
    Some(SummaryCounts {
        produced_total: result.inserted,
        acked_total: result.consumed,
        final_backlog: backlog,
        drained: result.inserted == result.consumed,
        producer_batches_started: k.producer_batches_started,
        producer_batches_completed: k.producer_batches_completed,
        producer_batches_in_flight: k.producer_batches_started.saturating_sub(k.producer_batches_completed),
        receive_calls_started: k.receive_calls_started,
        receive_calls_completed: k.receive_calls_completed,
        receive_calls_in_flight: k.receive_calls_started.saturating_sub(k.receive_calls_completed),
        ack_batches_started: k.ack_batches_started,
        ack_batches_completed: k.ack_batches_completed,
        ack_batches_in_flight: k.ack_batches_started.saturating_sub(k.ack_batches_completed),
        producer_errors: k.producer_errors,
        receive_errors: k.receive_errors,
        ack_errors: k.ack_errors,
        empty_polls,
        bucket_refreshes,
    })
}

/// The configuration part of a run report.
#[derive(Debug)]
pub struct JsonConfig {
    pub endpoint: String,
    pub namespace: String,
    pub database: String,
    pub queue: String,
    pub num_total_jobs: u64,
    pub producers: usize,
    pub consumers: usize,
    pub producer_batch_size: usize,
    pub receive_batch_size: usize,
    pub shards: u32,
    pub buckets: u32,
    pub payload_bytes: usize,
    pub lease_secs: u64,
    pub job_ms: u64,
    pub separate_clients: bool,
    pub fixed_workdown: bool,
    pub queue_model: String,
    pub mode: BenchMode,
}

/// The configuration of a run that executed in `mode`, for its report. The
/// job count is the task count; a fixed work-down is one with
/// `--num-total-jobs`; every worker has its own client.
pub fn json_config(args: &Args, mode: BenchMode) -> (config: JsonConfig)
    ensures
        config.endpoint@ == args.endpoint@,
        config.namespace@ == args.namespace@,
        config.database@ == args.database@,
        config.queue@ == QUEUE@,
        config.num_total_jobs == args.tasks,
        config.producers == args.producers,
        config.consumers == args.consumers,
        config.producer_batch_size == args.producer_batch,
        config.receive_batch_size == args.consumer_batch,
        config.shards == args.buckets,
        config.buckets == args.buckets,
        config.payload_bytes == args.payload_bytes,
        config.lease_secs == args.lease_secs,
        config.job_ms == args.job_ms,
        config.separate_clients,
        config.fixed_workdown == args.num_total_jobs is Some,
        config.queue_model@ == QUEUE_MODEL@,
        config.mode == mode,
{
    JsonConfig {
        endpoint: args.endpoint.clone(),
        namespace: args.namespace.clone(),
        database: args.database.clone(),
        queue: String::from_str(QUEUE),
        num_total_jobs: args.tasks,
        producers: args.producers,
        consumers: args.consumers,
        producer_batch_size: args.producer_batch,
        receive_batch_size: args.consumer_batch,
        shards: args.buckets,
        buckets: args.buckets,
        payload_bytes: args.payload_bytes,
        lease_secs: args.lease_secs,
        job_ms: args.job_ms,
        separate_clients: true,
        fixed_workdown: args.num_total_jobs.is_some(),
        queue_model: String::from_str(QUEUE_MODEL),
        mode,
    }
}

} // verus!
