//! Summaries of latency samples: count, extremes, mean, the sorted samples
//! from which the percentiles are read, and a bounded series for charts.

use vstd::prelude::*;
use vstd::multiset::Multiset;
use crate::stats::OpTimer;

verus! {

/// Sum of the samples.
pub open spec fn seq_sum(s: Seq<u64>) -> nat
    decreases s.len(),
{
    if s.len() == 0 {
        0
    } else {
        seq_sum(s.drop_last()) + s.last() as nat
    }
}

/// Integer mean of non-empty samples, rounded down.
pub open spec fn seq_mean(s: Seq<u64>) -> u64 {
    (seq_sum(s) / s.len()) as u64
}

/// Samples in non-decreasing order.
pub open spec fn is_sorted(s: Seq<u64>) -> bool {
    forall|i: int, j: int| 0 <= i <= j < s.len() ==> #[trigger] s[i] <= #[trigger] s[j]
}

/// Calls `slice::sort_unstable`, which the standard library documents as
/// sorting the slice (equal elements may be reordered): the contract claims
/// that the result is sorted and holds the same elements.
#[verifier::external_body]
fn sort_samples(samples: &mut Vec<u64>)
    ensures
        is_sorted(final(samples)@),
        final(samples)@.to_multiset() == old(samples)@.to_multiset(),
{
    samples.sort_unstable();
}

proof fn lemma_sum_bound(s: Seq<u64>)
    ensures
        seq_sum(s) <= s.len() * (u64::MAX as nat),
    decreases s.len(),
{
    if s.len() > 0 {
        lemma_sum_bound(s.drop_last());
        assert(seq_sum(s) <= s.len() * (u64::MAX as nat)) by (nonlinear_arith)
            requires
                seq_sum(s) == seq_sum(s.drop_last()) + s.last() as nat,
                seq_sum(s.drop_last()) <= s.drop_last().len() * (u64::MAX as nat),
                s.drop_last().len() + 1 == s.len(),
                s.last() <= u64::MAX,
        ;
    }
}

proof fn lemma_sum_between(s: Seq<u64>, lo: u64, hi: u64)
    requires
        forall|i: int| 0 <= i < s.len() ==> lo <= #[trigger] s[i] <= hi,
    ensures
        s.len() * (lo as nat) <= seq_sum(s) <= s.len() * (hi as nat),
    decreases s.len(),
{
    if s.len() > 0 {
        let front = s.drop_last();
        assert forall|i: int| 0 <= i < front.len() implies lo <= #[trigger] front[i] <= hi by {
            assert(front[i] == s[i]);
        }
        lemma_sum_between(front, lo, hi);
        assert(lo <= s.last() <= hi) by {
            assert(s[s.len() - 1] == s.last());
        }
        assert(s.len() * (lo as nat) <= seq_sum(s) <= s.len() * (hi as nat)) by (nonlinear_arith)
            requires
                seq_sum(s) == seq_sum(front) + s.last() as nat,
                front.len() * (lo as nat) <= seq_sum(front) <= front.len() * (hi as nat),
                front.len() + 1 == s.len(),
                lo <= s.last() <= hi,
        ;
    }
}

/// The integer mean of samples lies between their smallest and largest
/// values (so it is itself a `u64`).
pub proof fn lemma_mean_between(s: Seq<u64>, lo: u64, hi: u64)
    requires
        s.len() > 0,
        forall|i: int| 0 <= i < s.len() ==> lo <= #[trigger] s[i] <= hi,
    ensures
        lo as nat <= seq_sum(s) / s.len() <= hi as nat,
{
    lemma_sum_between(s, lo, hi);
    let n = s.len() as int;
    let total = seq_sum(s) as int;
    vstd::arithmetic::div_mod::lemma_fundamental_div_mod(total, n);
    vstd::arithmetic::div_mod::lemma_mod_bound(total, n);
    let q = total / n;
    assert(lo <= q <= hi) by (nonlinear_arith)
        requires
            total == n * q + total % n,
            0 <= total % n < n,
            n * lo <= total <= n * hi,
            n > 0,
    ;
}

/// The sum of the samples, which a `u128` always holds.
pub fn sum_samples(samples: &[u64]) -> (sum: u128)
    ensures
        sum == seq_sum(samples@),
{
    let mut sum: u128 = 0;
    let mut i: usize = 0;
    while i < samples.len()
        invariant
            0 <= i <= samples@.len(),
            sum == seq_sum(samples@.take(i as int)),
        decreases samples@.len() - i,
    {
        assert(samples@.take(i + 1).drop_last() == samples@.take(i as int));
        proof {
            lemma_sum_bound(samples@.take(i + 1));
            assert((i + 1) * (u64::MAX as nat) <= u128::MAX) by (nonlinear_arith)
                requires
                    i < usize::MAX,
            ;
        }
        sum = sum + samples[i] as u128;
        i = i + 1;
    }
    assert(samples@.take(samples@.len() as int) == samples@);
    sum
}

/// The summary of a set of latency samples.
#[derive(Debug)]
pub struct LatencySummary {
    pub count: u64,
    pub min_ns: Option<u64>,
    pub mean_ns: Option<u64>,
    pub max_ns: Option<u64>,
    /// The samples in increasing order; the percentiles are read from it.
    pub sorted_ns: Vec<u64>,
}

/// What the summary of `samples` holds: their count, the samples sorted,
/// and their smallest value, integer mean and largest value (none of these
/// three for no sample).
pub open spec fn summarizes(summary: LatencySummary, samples: Seq<u64>) -> bool {
    &&& summary.count == samples.len()
    &&& is_sorted(summary.sorted_ns@)
    &&& summary.sorted_ns@.to_multiset() == samples.to_multiset()
    &&& if samples.len() == 0 {
        summary.min_ns is None && summary.mean_ns is None && summary.max_ns is None
    } else {
        &&& summary.min_ns == Some(summary.sorted_ns@[0])
        &&& summary.max_ns == Some(summary.sorted_ns@.last())
        &&& summary.mean_ns == Some(seq_mean(samples))
    }
}

/// Summarizes latency samples (see `summarizes`). The smallest and largest
/// are samples, and bound every sample and the mean.
pub fn summarize_latency(latencies_ns: &[u64]) -> (summary: LatencySummary)
    ensures
        summarizes(summary, latencies_ns@),
        latencies_ns@.len() > 0 ==> {
            &&& latencies_ns@.contains(summary.sorted_ns@[0])
            &&& latencies_ns@.contains(summary.sorted_ns@.last())
            &&& forall|i: int| 0 <= i < latencies_ns@.len() ==> summary.sorted_ns@[0] <= #[trigger] latencies_ns@[i]
                <= summary.sorted_ns@.last()
            &&& summary.sorted_ns@[0] <= seq_mean(latencies_ns@) <= summary.sorted_ns@.last()
        },
{
    broadcast use vstd::seq_lib::group_to_multiset_ensures;
    let mut sorted: Vec<u64> = Vec::new();
    let mut i: usize = 0;
    while i < latencies_ns.len()
        invariant
            0 <= i <= latencies_ns@.len(),
            sorted@ == latencies_ns@.take(i as int),
        decreases latencies_ns@.len() - i,
    {
        sorted.push(latencies_ns[i]);
        assert(latencies_ns@.take(i + 1) == latencies_ns@.take(i as int).push(latencies_ns@[i as int]));
        i = i + 1;
    }
    assert(latencies_ns@.take(latencies_ns@.len() as int) == latencies_ns@);
    sort_samples(&mut sorted);
    let count = latencies_ns.len() as u64;
    if latencies_ns.len() == 0 {
        return LatencySummary { count, min_ns: None, mean_ns: None, max_ns: None, sorted_ns: sorted };
    }
    let sum = sum_samples(latencies_ns);
    proof {
        lemma_sum_bound(latencies_ns@);
    }
    let mean = (sum / (latencies_ns.len() as u128)) as u64;
    let len = sorted.len();
    proof {
        assert(sorted@.len() == latencies_ns@.len()) by {
            assert(sorted@.to_multiset().len() == latencies_ns@.to_multiset().len());
        }
        assert(latencies_ns@.contains(sorted@[0])) by {
            assert(sorted@.contains(sorted@[0]));
            vstd::seq_lib::to_multiset_contains(sorted@, sorted@[0]);
            vstd::seq_lib::to_multiset_contains(latencies_ns@, sorted@[0]);
        }
        assert(latencies_ns@.contains(sorted@.last())) by {
            assert(sorted@.contains(sorted@[len - 1]));
            vstd::seq_lib::to_multiset_contains(sorted@, sorted@[len - 1]);
            vstd::seq_lib::to_multiset_contains(latencies_ns@, sorted@[len - 1]);
        }
        assert forall|i: int| 0 <= i < latencies_ns@.len() implies sorted@[0] <= #[trigger] latencies_ns@[i]
            <= sorted@.last() by {
            assert(latencies_ns@.contains(latencies_ns@[i]));
            vstd::seq_lib::to_multiset_contains(sorted@, latencies_ns@[i]);
            vstd::seq_lib::to_multiset_contains(latencies_ns@, latencies_ns@[i]);
            assert(sorted@.contains(latencies_ns@[i]));
            let j = choose|j: int| 0 <= j < sorted@.len() && sorted@[j] == latencies_ns@[i];
            assert(sorted@[0] <= sorted@[j]);
            assert(sorted@[j] <= sorted@[len - 1]);
        }
    }
    proof {
        lemma_mean_between(latencies_ns@, sorted@[0], sorted@[len - 1]);
    }
    let min = sorted[0];
    let max = sorted[len - 1];
    LatencySummary { count, min_ns: Some(min), mean_ns: Some(mean), max_ns: Some(max), sorted_ns: sorted }
}

/// Integer mean time per call, or `None` without calls.
pub fn avg_ns(total_ns: u64, count: u64) -> (avg: Option<u64>)
    ensures
        avg == if count == 0 {
            None
        } else {
            Some((total_ns / count) as u64)
        },
{
    if count == 0 {
        None
    } else {
        Some(total_ns / count)
    }
}

/// Means of consecutive chunks of `chunk` samples (the last one may be
/// shorter).
pub open spec fn chunk_means(samples: Seq<u64>, chunk: nat) -> Seq<u64>
    decreases samples.len(),
{
    if samples.len() == 0 || chunk == 0 {
        Seq::empty()
    } else if samples.len() <= chunk {
        seq![seq_mean(samples)]
    } else {
        seq![seq_mean(samples.take(chunk as int))] + chunk_means(samples.skip(chunk as int), chunk)
    }
}

/// The chunk length that brings `len` samples down to at most `max`
/// points: `len / max` rounded up.
pub open spec fn downsample_chunk(len: nat, max: nat) -> nat {
    if len % max == 0 { len / max } else { len / max + 1 }
}

/// A series of at most `max_samples` points for a chart: no point without
/// samples or room; the samples themselves when they fit; otherwise the
/// means of consecutive chunks of `len / max_samples` (rounded up) samples.
pub open spec fn spec_downsample(samples: Seq<u64>, max_samples: nat) -> Seq<u64> {
    if samples.len() == 0 || max_samples == 0 {
        Seq::empty()
    } else if samples.len() <= max_samples {
        samples
    } else {
        chunk_means(samples, downsample_chunk(samples.len(), max_samples))
    }
}

/// Brings samples down to at most `max_samples` points (see
/// `spec_downsample`), in nanoseconds.
pub fn downsample_ns(samples_ns: &[u64], max_samples: usize) -> (points: Vec<u64>)
    ensures
        points@ == spec_downsample(samples_ns@, max_samples as nat),
{
    let len = samples_ns.len();
    let mut points: Vec<u64> = Vec::new();
    if len == 0 || max_samples == 0 {
        return points;
    }
    if len <= max_samples {
        let mut i: usize = 0;
        while i < len
            invariant
                len == samples_ns@.len(),
                0 <= i <= len,
                points@ == samples_ns@.take(i as int),
            decreases len - i,
        {
            points.push(samples_ns[i]);
            assert(samples_ns@.take(i + 1) == samples_ns@.take(i as int).push(samples_ns@[i as int]));
            i = i + 1;
        }
        assert(samples_ns@.take(len as int) == samples_ns@);
        return points;
    }
    let quotient: usize = len / max_samples;
    let chunk: usize = if len % max_samples == 0 {
        quotient
    } else {
        proof {
            vstd::arithmetic::div_mod::lemma_fundamental_div_mod(len as int, max_samples as int);
            vstd::arithmetic::div_mod::lemma_mod_bound(len as int, max_samples as int);
            assert(quotient < len) by (nonlinear_arith)
                requires
                    len == max_samples * quotient + len % max_samples,
                    len % max_samples > 0,
                    max_samples >= 1,
                    quotient >= 0,
            ;
        }
        quotient + 1
    };
    assert(chunk > 0) by {
        assert(len / max_samples >= 1) by (nonlinear_arith)
            requires
                len > max_samples,
                max_samples > 0,
        ;
    }
    let mut start: usize = 0;
    assert(samples_ns@.skip(0) == samples_ns@);
    while start < len
        invariant
            len == samples_ns@.len(),
            chunk > 0,
            0 <= start <= len,
            points@ + chunk_means(samples_ns@.skip(start as int), chunk as nat) == chunk_means(samples_ns@, chunk as nat),
        decreases len - start,
    {
        let end: usize = if len - start > chunk { start + chunk } else { len };
        let piece = slice_part(samples_ns, start, end);
        let sum = sum_samples(piece.as_slice());
        let ghost rest = samples_ns@.skip(start as int);
        proof {
            lemma_sum_bound(piece@);
            if len - start > chunk {
                assert(piece@ =~= rest.take(chunk as int));
                assert(rest.skip(chunk as int) =~= samples_ns@.skip(end as int));
            } else {
                assert(piece@ =~= rest);
                assert(samples_ns@.skip(end as int) =~= Seq::<u64>::empty());
            }
        }
        let mean = (sum / ((end - start) as u128)) as u64;
        points.push(mean);
        assert(points@ + chunk_means(samples_ns@.skip(end as int), chunk as nat) =~= chunk_means(
            samples_ns@,
            chunk as nat,
        ));
        start = end;
    }
    assert(samples_ns@.skip(len as int) =~= Seq::<u64>::empty());
    assert(points@ =~= chunk_means(samples_ns@, chunk as nat));
    points
}

/// The samples at positions `start..end`.
fn slice_part(samples: &[u64], start: usize, end: usize) -> (part: Vec<u64>)
    requires
        start <= end <= samples@.len(),
    ensures
        part@ == samples@.subrange(start as int, end as int),
{
    let mut part: Vec<u64> = Vec::new();
    let mut i: usize = start;
    while i < end
        invariant
            start <= i <= end,
            end <= samples@.len(),
            part@ == samples@.subrange(start as int, i as int),
        decreases end - i,
    {
        part.push(samples[i]);
        assert(samples@.subrange(start as int, i + 1) == samples@.subrange(start as int, i as int).push(
            samples@[i as int],
        ));
        i = i + 1;
    }
    part
}

/// How many points the chart series of one kind of call keeps.
pub const MAX_CHART_SAMPLES: usize = 1200;

/// The timing summary of one kind of database call.
#[derive(Debug)]
pub struct OpTiming {
    pub count: u64,
    pub total_ns: u64,
    pub avg_ns: Option<u64>,
    pub latency: LatencySummary,
    pub samples_ns: Vec<u64>,
}

/// What the timing summary of `count` calls timed by `timer` holds: the
/// count, the total, the mean per call (none without calls), the summary of
/// the samples, and the chart series of the samples.
pub open spec fn timing_of(timing: OpTiming, count: u64, timer: OpTimer) -> bool {
    &&& timing.count == count
    &&& timing.total_ns == timer.total_ns
    &&& timing.avg_ns == if count == 0 {
        None
    } else {
        Some((timer.total_ns / count) as u64)
    }
    &&& summarizes(timing.latency, timer.samples_ns@)
    &&& timing.samples_ns@ == spec_downsample(timer.samples_ns@, MAX_CHART_SAMPLES as nat)
}

/// Summarizes `count` calls timed by `timer` (see `timing_of`).
pub fn op_timing(count: u64, timer: &OpTimer) -> (timing: OpTiming)
    ensures
        timing_of(timing, count, *timer),
{
    let latency = summarize_latency(timer.samples_ns.as_slice());
    OpTiming {
        count,
        total_ns: timer.total_ns,
        avg_ns: avg_ns(timer.total_ns, count),
        latency,
        samples_ns: downsample_ns(timer.samples_ns.as_slice(), MAX_CHART_SAMPLES),
    }
}


proof fn lemma_chunk_means_len(samples: Seq<u64>, chunk: nat)
    requires
        chunk > 0,
    ensures
        chunk_means(samples, chunk).len() == (samples.len() + chunk - 1) / (chunk as int),
    decreases samples.len(),
{
    let len = samples.len() as int;
    let c = chunk as int;
    if len == 0 {
        assert((c - 1) / c == 0) by {
            vstd::arithmetic::div_mod::lemma_basic_div(c - 1, c);
        }
    } else if len <= c {
        assert((len + c - 1) / c == 1) by {
            vstd::arithmetic::div_mod::lemma_fundamental_div_mod_converse(len + c - 1, c, 1, len - 1);
        }
    } else {
        let rest = samples.skip(c);
        lemma_chunk_means_len(rest, chunk);
        assert((len + c - 1) / c == (len - c + c - 1) / c + 1) by {
            vstd::arithmetic::div_mod::lemma_div_plus_one(len - 1, c);
        }
    }
}

/// A chart series never has more than the points asked for.
pub proof fn lemma_downsample_fits(samples: Seq<u64>, max_samples: nat)
    ensures
        spec_downsample(samples, max_samples).len() <= max_samples,
{
    let len = samples.len() as int;
    let m = max_samples as int;
    if len > 0 && m > 0 && len > m {
        let c = downsample_chunk(samples.len(), max_samples) as int;
        vstd::arithmetic::div_mod::lemma_fundamental_div_mod(len, m);
        vstd::arithmetic::div_mod::lemma_mod_bound(len, m);
        let q = len / m;
        assert(q >= 1) by {
            vstd::arithmetic::div_mod::lemma_div_is_ordered(m, len, m);
            vstd::arithmetic::div_mod::lemma_div_by_self(m);
        }
        assert(c * m >= len) by (nonlinear_arith)
            requires
                len == m * q + len % m,
                0 <= len % m < m,
                c == if len % m == 0 { q } else { q + 1 },
        ;
        assert(c > 0);
        lemma_chunk_means_len(samples, c as nat);
        assert(len + c - 1 < c * (m + 1)) by (nonlinear_arith)
            requires
                c * m >= len,
                c > 0,
        ;
        let x = len + c - 1;
        vstd::arithmetic::div_mod::lemma_fundamental_div_mod(x, c);
        vstd::arithmetic::div_mod::lemma_mod_bound(x, c);
        assert(x / c < m + 1) by (nonlinear_arith)
            requires
                x == c * (x / c) + x % c,
                x % c >= 0,
                x < c * (m + 1),
                c > 0,
        ;
    }
}

proof fn lemma_sum_remove(s: Seq<u64>, i: int)
    requires
        0 <= i < s.len(),
    ensures
        seq_sum(s) == seq_sum(s.remove(i)) + s[i],
    decreases s.len(),
{
    if i == s.len() - 1 {
        assert(s.remove(i) =~= s.drop_last());
    } else {
        lemma_sum_remove(s.drop_last(), i);
        assert(s.remove(i).drop_last() =~= s.drop_last().remove(i));
        assert(s.remove(i).last() == s.last());
    }
}

/// Samples that are a reordering of each other have the same sum.
pub proof fn lemma_sum_ignores_order(a: Seq<u64>, b: Seq<u64>)
    requires
        a.to_multiset() == b.to_multiset(),
    ensures
        seq_sum(a) == seq_sum(b),
    decreases a.len(),
{
    broadcast use vstd::seq_lib::group_to_multiset_ensures;
    broadcast use vstd::multiset::group_multiset_axioms;

    vstd::seq_lib::to_multiset_len(a);
    vstd::seq_lib::to_multiset_len(b);
    if a.len() == 0 {
    } else {
        let x = a.last();
        let front = a.drop_last();
        assert(a =~= front.push(x));
        assert(a.contains(x)) by {
            assert(a[a.len() - 1] == x);
        }
        vstd::seq_lib::to_multiset_contains(a, x);
        vstd::seq_lib::to_multiset_contains(b, x);
        let j = choose|j: int| 0 <= j < b.len() && b[j] == x;
        lemma_sum_remove(b, j);
        assert(front.to_multiset() =~= b.remove(j).to_multiset());
        lemma_sum_ignores_order(front, b.remove(j));
    }
}

/// The summary of latency samples does not depend on their order: two
/// summaries of samples that are a reordering of each other agree in count,
/// sorted samples, smallest, mean and largest value.
pub proof fn lemma_summary_ignores_order(a: Seq<u64>, b: Seq<u64>, sa: LatencySummary, sb: LatencySummary)
    requires
        a.to_multiset() == b.to_multiset(),
        summarizes(sa, a),
        summarizes(sb, b),
    ensures
        sa.count == sb.count,
        sa.sorted_ns@ == sb.sorted_ns@,
        sa.min_ns == sb.min_ns,
        sa.mean_ns == sb.mean_ns,
        sa.max_ns == sb.max_ns,
{
    broadcast use vstd::seq_lib::group_to_multiset_ensures;

    vstd::seq_lib::to_multiset_len(a);
    vstd::seq_lib::to_multiset_len(b);
    let leq = |x: u64, y: u64| x <= y;
    assert(vstd::relations::sorted_by(sa.sorted_ns@, leq));
    assert(vstd::relations::sorted_by(sb.sorted_ns@, leq));
    assert(vstd::relations::total_ordering(leq));
    vstd::seq_lib::lemma_sorted_unique(sa.sorted_ns@, sb.sorted_ns@, leq);
    lemma_sum_ignores_order(a, b);
}

} // verus!
