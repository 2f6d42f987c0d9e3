//! Counters and latency samples gathered during a run, and the integer
//! summaries that the reports print.

use vstd::prelude::*;
use crate::clock::saturate_nanos;

verus! {

/// What one consumer counted during a run.
#[derive(Debug)]
pub struct WorkerStats {
    pub claimed: u64,
    pub empty_polls: u64,
    pub bucket_refreshes: u64,
    pub latency_ns: Vec<u64>,
}

impl WorkerStats {
    /// Statistics of a worker that has done nothing yet.
    pub fn new() -> (stats: WorkerStats)
        ensures
            stats.claimed == 0,
            stats.empty_polls == 0,
            stats.bucket_refreshes == 0,
            stats.latency_ns@ == Seq::<u64>::empty(),
    {
        WorkerStats { claimed: 0, empty_polls: 0, bucket_refreshes: 0, latency_ns: Vec::new() }
    }
}


/// All latencies of the workers, worker after worker.
pub open spec fn all_latencies(stats: Seq<WorkerStats>) -> Seq<u64>
    decreases stats.len(),
{
    if stats.len() == 0 {
        Seq::empty()
    } else {
        all_latencies(stats.drop_last()) + stats.last().latency_ns@
    }
}

/// Gathers the latencies recorded by every worker, in worker order.
/// `capacity` is only a hint for the allocation.
pub fn collect_worker_latencies(worker_stats: &[WorkerStats], capacity: usize) -> (latency_ns: Vec<u64>)
    ensures
        latency_ns@ == all_latencies(worker_stats@),
{
    let mut latency_ns: Vec<u64> = Vec::with_capacity(capacity);
    let mut i: usize = 0;
    while i < worker_stats.len()
        invariant
            0 <= i <= worker_stats@.len(),
            latency_ns@ == all_latencies(worker_stats@.take(i as int)),
        decreases worker_stats@.len() - i,
    {
        let samples = &worker_stats[i].latency_ns;
        let ghost before = latency_ns@;
        let mut j: usize = 0;
        while j < samples.len()
            invariant
                0 <= j <= samples@.len(),
                latency_ns@ == before + samples@.take(j as int),
            decreases samples@.len() - j,
        {
            latency_ns.push(samples[j]);
            assert(samples@.take(j + 1) == samples@.take(j as int).push(samples@[j as int]));
            j = j + 1;
        }
        assert(samples@.take(samples@.len() as int) == samples@);
        assert(worker_stats@.take(i + 1).drop_last() == worker_stats@.take(i as int));
        i = i + 1;
    }
    assert(worker_stats@.take(worker_stats@.len() as int) == worker_stats@);
    latency_ns
}

/// Sum of the claimed counts of the workers.
pub open spec fn total_claimed(stats: Seq<WorkerStats>) -> nat
    decreases stats.len(),
{
    if stats.len() == 0 { 0 } else { total_claimed(stats.drop_last()) + stats.last().claimed as nat }
}

/// Sum of the empty polls of the workers.
pub open spec fn total_empty_polls(stats: Seq<WorkerStats>) -> nat
    decreases stats.len(),
{
    if stats.len() == 0 { 0 } else { total_empty_polls(stats.drop_last()) + stats.last().empty_polls as nat }
}

/// Sum of the bucket refreshes of the workers.
pub open spec fn total_bucket_refreshes(stats: Seq<WorkerStats>) -> nat
    decreases stats.len(),
{
    if stats.len() == 0 { 0 } else { total_bucket_refreshes(stats.drop_last()) + stats.last().bucket_refreshes as nat }
}

/// The per-worker counts added up over all workers; `None` for a sum that
/// does not fit in `u64` (where adding it up stops with an overflow).
#[derive(Clone, Copy, Debug, PartialEq, Eq, Structural)]
pub struct WorkerTotals {
    pub claimed: Option<u64>,
    pub empty_polls: Option<u64>,
    pub bucket_refreshes: Option<u64>,
}

/// A sum as a `u64` when it fits.
pub open spec fn fitting_sum(total: nat) -> Option<u64> {
    if total <= u64::MAX { Some(total as u64) } else { None }
}

/// Adds up the counts of all workers (see `WorkerTotals`).
pub fn worker_totals(worker_stats: &[WorkerStats]) -> (totals: WorkerTotals)
    ensures
        totals.claimed == fitting_sum(total_claimed(worker_stats@)),
        totals.empty_polls == fitting_sum(total_empty_polls(worker_stats@)),
        totals.bucket_refreshes == fitting_sum(total_bucket_refreshes(worker_stats@)),
{
    let mut claimed: Option<u64> = Some(0);
    let mut empty_polls: Option<u64> = Some(0);
    let mut bucket_refreshes: Option<u64> = Some(0);
    let mut i: usize = 0;
    while i < worker_stats.len()
        invariant
            0 <= i <= worker_stats@.len(),
            claimed == fitting_sum(total_claimed(worker_stats@.take(i as int))),
            empty_polls == fitting_sum(total_empty_polls(worker_stats@.take(i as int))),
            bucket_refreshes == fitting_sum(total_bucket_refreshes(worker_stats@.take(i as int))),
        decreases worker_stats@.len() - i,
    {
        let stats = &worker_stats[i];
        assert(worker_stats@.take(i + 1).drop_last() == worker_stats@.take(i as int));
        claimed = match claimed {
            Some(sum) => sum.checked_add(stats.claimed),
            None => None,
        };
        empty_polls = match empty_polls {
            Some(sum) => sum.checked_add(stats.empty_polls),
            None => None,
        };
        bucket_refreshes = match bucket_refreshes {
            Some(sum) => sum.checked_add(stats.bucket_refreshes),
            None => None,
        };
        i = i + 1;
    }
    assert(worker_stats@.take(worker_stats@.len() as int) == worker_stats@);
    WorkerTotals { claimed, empty_polls, bucket_refreshes }
}

/// Time spent in one kind of database call: the total, and every sample.
#[derive(Debug)]
pub struct OpTimer {
    pub total_ns: u64,
    pub samples_ns: Vec<u64>,
}

impl OpTimer {
    /// A timer with nothing observed.
    pub fn new() -> (timer: OpTimer)
        ensures
            timer.total_ns == 0,
            timer.samples_ns@ == Seq::<u64>::empty(),
    {
        OpTimer { total_ns: 0, samples_ns: Vec::new() }
    }
}

/// A duration saturated to `u64` nanoseconds.
pub open spec fn saturated_nanos(nanos: u128) -> u64 {
    if nanos <= u64::MAX as u128 { nanos as u64 } else { u64::MAX }
}

/// `a + b` wrapping around at 2^64, as an atomic counter adds.
pub open spec fn wrapping_sum(a: u64, b: u64) -> u64 {
    if a + b > u64::MAX { (a + b - 0x1_0000_0000_0000_0000) as u64 } else { (a + b) as u64 }
}

/// Records one call that took `elapsed_nanos`: the duration, saturated to
/// `u64`, is added to the total (wrapping around) and kept as a sample.
pub fn observe_duration(timer: &mut OpTimer, elapsed_nanos: u128)
    ensures
        final(timer).total_ns == wrapping_sum(old(timer).total_ns, saturated_nanos(elapsed_nanos)),
        final(timer).samples_ns@ == old(timer).samples_ns@.push(saturated_nanos(elapsed_nanos)),
{
    let nanos = saturate_nanos(elapsed_nanos);
    timer.total_ns = timer.total_ns.wrapping_add(nanos);
    timer.samples_ns.push(nanos);
}

} // verus!
