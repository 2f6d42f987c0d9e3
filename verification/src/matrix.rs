//! Matrix sweeps: every combination of the swept settings, run in the order
//! of nested loops (repeat outermost, job time innermost).

use vstd::prelude::*;
use crate::config::{Args, ArgsView, BenchMode, opt_chars};

verus! {

/// The values a matrix dimension takes: the configured list, or the single
/// base value when the list is empty.
pub open spec fn spec_matrix_values<T>(configured: Seq<T>, fallback: T) -> Seq<T> {
    if configured.len() == 0 {
        seq![fallback]
    } else {
        configured
    }
}

/// The values of one matrix dimension (see `spec_matrix_values`).
pub fn matrix_values<T: Copy>(configured: &[T], fallback: T) -> (values: Vec<T>)
    ensures
        values@ == spec_matrix_values(configured@, fallback),
{
    let mut values: Vec<T> = Vec::new();
    if configured.len() == 0 {
        values.push(fallback);
        assert(values@ == seq![fallback]);
        return values;
    }
    let mut i: usize = 0;
    while i < configured.len()
        invariant
            0 <= i <= configured@.len(),
            values@ == configured@.take(i as int),
        decreases configured@.len() - i,
    {
        values.push(configured[i]);
        assert(configured@.take(i + 1) == configured@.take(i as int).push(configured@[i as int]));
        i = i + 1;
    }
    assert(configured@.take(configured@.len() as int) == configured@);
    values
}

/// A copy of a vector of plain values.
pub fn copy_values<T: Copy>(values: &Vec<T>) -> (copy: Vec<T>)
    ensures
        copy@ == values@,
{
    let mut copy: Vec<T> = Vec::new();
    let mut i: usize = 0;
    while i < values.len()
        invariant
            0 <= i <= values@.len(),
            copy@ == values@.take(i as int),
        decreases values@.len() - i,
    {
        copy.push(values[i]);
        assert(values@.take(i + 1) == values@.take(i as int).push(values@[i as int]));
        i = i + 1;
    }
    assert(values@.take(values@.len() as int) == values@);
    copy
}

/// A copy of an optional string.
pub fn copy_opt_string(s: &Option<String>) -> (copy: Option<String>)
    ensures
        opt_chars(copy) == opt_chars(*s),
{
    match s {
        Some(text) => Some(text.clone()),
        None => None,
    }
}

/// The modes a sweep runs: the configured list, or else a single mode —
/// drain-only for a fixed work-down, the base mode otherwise.
pub open spec fn spec_matrix_modes(a: ArgsView) -> Seq<BenchMode> {
    if a.matrix_modes.len() == 0 {
        seq![if a.num_total_jobs is Some { BenchMode::DrainOnly } else { a.mode }]
    } else {
        a.matrix_modes
    }
}

/// Product of the factors, multiplied left to right.
pub open spec fn product_of(factors: Seq<usize>) -> nat
    decreases factors.len(),
{
    if factors.len() == 0 {
        1
    } else {
        product_of(factors.drop_last()) * factors.last() as nat
    }
}

/// Whether multiplying the factors left to right keeps every partial
/// product within `usize`.
pub open spec fn products_fit(factors: Seq<usize>) -> bool
    decreases factors.len(),
{
    factors.len() == 0 || (products_fit(factors.drop_last()) && product_of(factors) <= usize::MAX)
}

/// The planned values of every swept dimension, with the run count.
#[derive(Debug)]
pub struct MatrixPlan {
    pub tasks: Vec<u64>,
    pub modes: Vec<BenchMode>,
    pub producers: Vec<usize>,
    pub consumers: Vec<usize>,
    pub buckets: Vec<u32>,
    pub producer_batches: Vec<usize>,
    pub receive_batches: Vec<usize>,
    pub job_ms: Vec<u64>,
    pub repeats: usize,
    pub total_runs: usize,
}

impl MatrixPlan {
    /// The sizes of the dimensions, outermost loop first: repeat, tasks,
    /// mode, producers, consumers, buckets, producer batch, receive batch,
    /// job time.
    pub open spec fn radices(&self) -> Seq<usize> {
        seq![
            self.repeats,
            self.tasks.len(),
            self.modes.len(),
            self.producers.len(),
            self.consumers.len(),
            self.buckets.len(),
            self.producer_batches.len(),
            self.receive_batches.len(),
            self.job_ms.len(),
        ]
    }

    /// The sizes in the order in which the run count multiplies them.
    pub open spec fn count_factors(&self) -> Seq<usize> {
        seq![
            self.tasks.len(),
            self.producers.len(),
            self.consumers.len(),
            self.buckets.len(),
            self.producer_batches.len(),
            self.receive_batches.len(),
            self.job_ms.len(),
            self.modes.len(),
            self.repeats,
        ]
    }

    /// The plan that the settings `a` describe.
    pub open spec fn planned_from(&self, a: ArgsView) -> bool {
        &&& self.tasks@ == spec_matrix_values(a.matrix_tasks, a.tasks)
        &&& self.modes@ == spec_matrix_modes(a)
        &&& self.producers@ == spec_matrix_values(a.matrix_producers, a.producers)
        &&& self.consumers@ == spec_matrix_values(a.matrix_consumers, a.consumers)
        &&& self.buckets@ == spec_matrix_values(a.matrix_buckets, a.buckets)
        &&& self.producer_batches@ == spec_matrix_values(a.matrix_producer_batches, a.producer_batch)
        &&& self.receive_batches@ == spec_matrix_values(a.matrix_receive_batches, a.consumer_batch)
        &&& self.job_ms@ == spec_matrix_values(a.matrix_job_ms, a.job_ms)
        &&& self.repeats == a.matrix_repeats
    }

    /// Well-formed plan: every dimension non-empty, at least one repeat, and
    /// the run count is the product of the sizes.
    pub open spec fn wf(&self) -> bool {
        &&& self.tasks@.len() > 0
        &&& self.modes@.len() > 0
        &&& self.producers@.len() > 0
        &&& self.consumers@.len() > 0
        &&& self.buckets@.len() > 0
        &&& self.producer_batches@.len() > 0
        &&& self.receive_batches@.len() > 0
        &&& self.job_ms@.len() > 0
        &&& self.repeats > 0
        &&& products_fit(self.count_factors())
        &&& self.total_runs == product_of(self.count_factors())
    }

    /// Plans the sweep that `base` asks for. Returns `None` exactly when the
    /// run count overflows `usize` (the product is formed in the order of
    /// `count_factors`).
    pub fn new(base: &Args) -> (plan: Option<MatrixPlan>)
        requires
            base.matrix_repeats > 0,
        ensures
            match plan {
                Some(p) => p.planned_from(base@) && p.wf(),
                None => forall|p: MatrixPlan| #[trigger] p.planned_from(base@) ==> !products_fit(p.count_factors()),
            },
    {
        let tasks = matrix_values(base.matrix_tasks.as_slice(), base.tasks);
        let producers = matrix_values(base.matrix_producers.as_slice(), base.producers);
        let consumers = matrix_values(base.matrix_consumers.as_slice(), base.consumers);
        let buckets = matrix_values(base.matrix_buckets.as_slice(), base.buckets);
        let producer_batches = matrix_values(base.matrix_producer_batches.as_slice(), base.producer_batch);
        let receive_batches = matrix_values(base.matrix_receive_batches.as_slice(), base.consumer_batch);
        let job_ms = matrix_values(base.matrix_job_ms.as_slice(), base.job_ms);
        let modes = if base.matrix_modes.len() == 0 {
            let mut single: Vec<BenchMode> = Vec::new();
            single.push(if base.num_total_jobs.is_some() { BenchMode::DrainOnly } else { base.mode });
            assert(single@ == spec_matrix_modes(base@));
            single
        } else {
            copy_values(&base.matrix_modes)
        };
        let repeats = base.matrix_repeats;
        let mut factors: Vec<usize> = Vec::new();
        factors.push(tasks.len());
        factors.push(producers.len());
        factors.push(consumers.len());
        factors.push(buckets.len());
        factors.push(producer_batches.len());
        factors.push(receive_batches.len());
        factors.push(job_ms.len());
        factors.push(modes.len());
        factors.push(repeats);
        let ghost shape = MatrixPlan {
            tasks, modes, producers, consumers, buckets, producer_batches, receive_batches, job_ms, repeats,
            total_runs: 0,
        }.count_factors();
        assert(factors@ =~= shape);
        let mut total: usize = 1;
        let mut i: usize = 0;
        #[verifier::loop_isolation(false)]
        while i < factors.len()
            invariant
                0 <= i <= factors@.len(),
                products_fit(factors@.take(i as int)),
                total == product_of(factors@.take(i as int)),
            decreases factors@.len() - i,
        {
            assert(factors@.take(i + 1).drop_last() == factors@.take(i as int));
            match total.checked_mul(factors[i]) {
                Some(next) => {
                    total = next;
                },
                None => {
                    proof {
                        if products_fit(factors@) {
                            lemma_products_fit_prefix(factors@, i as int + 1);
                        }
                        assert forall|p: MatrixPlan| #[trigger] p.planned_from(base@) implies !products_fit(
                            p.count_factors(),
                        ) by {
                            assert(p.count_factors() =~= factors@);
                        }
                    }
                    return None;
                },
            }
            i = i + 1;
        }
        assert(factors@.take(factors@.len() as int) == factors@);
        Some(MatrixPlan {
            tasks,
            modes,
            producers,
            consumers,
            buckets,
            producer_batches,
            receive_batches,
            job_ms,
            repeats,
            total_runs: total,
        })
    }
}

proof fn lemma_products_fit_prefix(factors: Seq<usize>, n: int)
    requires
        0 <= n <= factors.len(),
        products_fit(factors),
    ensures
        products_fit(factors.take(n)),
    decreases factors.len(),
{
    if n < factors.len() {
        assert(factors.drop_last().take(n) == factors.take(n));
        lemma_products_fit_prefix(factors.drop_last(), n);
    } else {
        assert(factors.take(n) == factors);
    }
}

} // verus!

verus! {

/// The digits of `k` in the mixed radix `radices` (most significant first):
/// the loop indices of the `k`-th iteration of nested loops over ranges of
/// these sizes.
pub open spec fn decode_digits(k: nat, radices: Seq<usize>) -> Seq<usize>
    decreases radices.len(),
{
    if radices.len() == 0 {
        Seq::empty()
    } else {
        let r = radices.last() as nat;
        decode_digits(k / r, radices.drop_last()).push((k % r) as usize)
    }
}

/// The iteration number of the nested loops at the given loop indices.
pub open spec fn encode_digits(digits: Seq<usize>, radices: Seq<usize>) -> nat
    decreases radices.len(),
{
    if radices.len() == 0 || digits.len() == 0 {
        0
    } else {
        encode_digits(digits.drop_last(), radices.drop_last()) * radices.last() as nat
            + digits.last() as nat
    }
}

/// Loop indices that are all within their ranges.
pub open spec fn digits_in_range(digits: Seq<usize>, radices: Seq<usize>) -> bool {
    digits.len() == radices.len() && forall|i: int| 0 <= i < digits.len() ==> #[trigger] digits[i] < radices[i]
}

pub open spec fn radices_positive(radices: Seq<usize>) -> bool {
    forall|i: int| 0 <= i < radices.len() ==> #[trigger] radices[i] > 0
}

proof fn lemma_quotient_bound(k: int, r: int, p: int)
    requires
        r > 0,
        0 <= k < p * r,
    ensures
        k / r < p,
        0 <= k / r,
{
    vstd::arithmetic::div_mod::lemma_fundamental_div_mod(k, r);
    let q = k / r;
    assert(0 <= k % r < r) by {
        vstd::arithmetic::div_mod::lemma_mod_bound(k, r);
    }
    assert(0 <= q) by {
        vstd::arithmetic::div_mod::lemma_div_pos_is_pos(k, r);
    }
    assert(q < p) by (nonlinear_arith)
        requires
            k == r * q + k % r,
            0 <= k % r,
            k < p * r,
            r > 0,
    ;
}

/// Decoding an iteration number below the product of the ranges gives
/// loop indices within range, from which the number is recovered.
pub proof fn lemma_decode_then_encode(k: nat, radices: Seq<usize>)
    requires
        radices_positive(radices),
        k < product_of(radices),
    ensures
        digits_in_range(decode_digits(k, radices), radices),
        encode_digits(decode_digits(k, radices), radices) == k,
    decreases radices.len(),
{
    if radices.len() > 0 {
        let init = radices.drop_last();
        let r = radices.last() as nat;
        assert(r > 0) by {
            assert(radices[radices.len() - 1] > 0);
        }
        let q = k / r;
        let d = k % r;
        lemma_quotient_bound(k as int, r as int, product_of(init) as int);
        vstd::arithmetic::div_mod::lemma_fundamental_div_mod(k as int, r as int);
        assert(radices_positive(init)) by {
            assert forall|i: int| 0 <= i < init.len() implies #[trigger] init[i] > 0 by {
                assert(radices[i] > 0);
            }
        }
        lemma_decode_then_encode(q, init);
        let ds = decode_digits(k, radices);
        assert(ds.drop_last() =~= decode_digits(q, init));
        assert(ds.last() == d as usize);
        assert forall|i: int| 0 <= i < ds.len() implies #[trigger] ds[i] < radices[i] by {
            if i < ds.len() - 1 {
                assert(ds[i] == decode_digits(q, init)[i]);
                assert(init[i] == radices[i]);
            }
        }
        assert(encode_digits(ds, radices) == q * r + d) by (nonlinear_arith)
            requires
                encode_digits(ds, radices) == encode_digits(ds.drop_last(), init) * r + ds.last() as nat,
                encode_digits(ds.drop_last(), init) == q,
                ds.last() == d,
        ;
        assert(q * r + d == k) by (nonlinear_arith)
            requires
                k == r * q + d,
        ;
    }
}

/// Encoding loop indices within range gives an iteration number below the
/// product of the ranges, which decodes back to the same indices.
pub proof fn lemma_encode_then_decode(digits: Seq<usize>, radices: Seq<usize>)
    requires
        radices_positive(radices),
        digits_in_range(digits, radices),
    ensures
        encode_digits(digits, radices) < product_of(radices),
        decode_digits(encode_digits(digits, radices), radices) == digits,
    decreases radices.len(),
{
    if radices.len() > 0 {
        let init = radices.drop_last();
        let front = digits.drop_last();
        let r = radices.last() as nat;
        let d = digits.last() as nat;
        assert(r > 0 && d < r) by {
            assert(radices[radices.len() - 1] > 0);
            assert(digits[digits.len() - 1] < radices[radices.len() - 1]);
        }
        assert(radices_positive(init)) by {
            assert forall|i: int| 0 <= i < init.len() implies #[trigger] init[i] > 0 by {
                assert(radices[i] > 0);
            }
        }
        assert(digits_in_range(front, init)) by {
            assert forall|i: int| 0 <= i < front.len() implies #[trigger] front[i] < init[i] by {
                assert(digits[i] < radices[i]);
            }
        }
        lemma_encode_then_decode(front, init);
        let e = encode_digits(front, init);
        let p = product_of(init);
        let x = encode_digits(digits, radices);
        assert(x == e * r + d);
        assert(x < p * r) by (nonlinear_arith)
            requires
                x == e * r + d,
                e < p,
                d < r,
        ;
        vstd::arithmetic::div_mod::lemma_fundamental_div_mod_converse(x as int, r as int, e as int, d as int);
        assert(decode_digits(x, radices) =~= decode_digits(e, init).push(d as usize));
        assert(digits =~= front.push(digits.last()));
    }
}

proof fn lemma_product_push(factors: Seq<usize>, x: usize)
    ensures
        product_of(factors.push(x)) == product_of(factors) * x,
{
    assert(factors.push(x).drop_last() =~= factors);
}

proof fn lemma_product_of_nine(a: usize, b: usize, c: usize, d: usize, e: usize, f: usize, g: usize, h: usize, i: usize)
    ensures
        product_of(seq![a, b, c, d, e, f, g, h, i]) == a * b * c * d * e * f * g * h * i,
{
    let s0 = Seq::<usize>::empty();
    let s1 = s0.push(a);
    let s2 = s1.push(b);
    let s3 = s2.push(c);
    let s4 = s3.push(d);
    let s5 = s4.push(e);
    let s6 = s5.push(f);
    let s7 = s6.push(g);
    let s8 = s7.push(h);
    let s9 = s8.push(i);
    lemma_product_push(s0, a);
    lemma_product_push(s1, b);
    lemma_product_push(s2, c);
    lemma_product_push(s3, d);
    lemma_product_push(s4, e);
    lemma_product_push(s5, f);
    lemma_product_push(s6, g);
    lemma_product_push(s7, h);
    lemma_product_push(s8, i);
    assert(product_of(s0) == 1);
    assert(product_of(s1) == a) by (nonlinear_arith)
        requires
            product_of(s1) == product_of(s0) * a,
            product_of(s0) == 1,
    ;
    assert(product_of(s2) == a * b) by (nonlinear_arith)
        requires
            product_of(s2) == product_of(s1) * b,
            product_of(s1) == a,
    ;
    assert(product_of(s3) == a * b * c) by (nonlinear_arith)
        requires
            product_of(s3) == product_of(s2) * c,
            product_of(s2) == a * b,
    ;
    assert(product_of(s4) == a * b * c * d) by (nonlinear_arith)
        requires
            product_of(s4) == product_of(s3) * d,
            product_of(s3) == a * b * c,
    ;
    assert(product_of(s5) == a * b * c * d * e) by (nonlinear_arith)
        requires
            product_of(s5) == product_of(s4) * e,
            product_of(s4) == a * b * c * d,
    ;
    assert(product_of(s6) == a * b * c * d * e * f) by (nonlinear_arith)
        requires
            product_of(s6) == product_of(s5) * f,
            product_of(s5) == a * b * c * d * e,
    ;
    assert(product_of(s7) == a * b * c * d * e * f * g) by (nonlinear_arith)
        requires
            product_of(s7) == product_of(s6) * g,
            product_of(s6) == a * b * c * d * e * f,
    ;
    assert(product_of(s8) == a * b * c * d * e * f * g * h) by (nonlinear_arith)
        requires
            product_of(s8) == product_of(s7) * h,
            product_of(s7) == a * b * c * d * e * f * g,
    ;
    assert(product_of(s9) == a * b * c * d * e * f * g * h * i) by (nonlinear_arith)
        requires
            product_of(s9) == product_of(s8) * i,
            product_of(s8) == a * b * c * d * e * f * g * h,
    ;
    assert(seq![a, b, c, d, e, f, g, h, i] =~= s9);
}

proof fn lemma_plan_product(plan: MatrixPlan)
    ensures
        product_of(plan.radices()) == product_of(plan.count_factors()),
{
    let (r, t, m, p, c, b, pb, rb, j) = (
        plan.repeats,
        plan.tasks.len(),
        plan.modes.len(),
        plan.producers.len(),
        plan.consumers.len(),
        plan.buckets.len(),
        plan.producer_batches.len(),
        plan.receive_batches.len(),
        plan.job_ms.len(),
    );
    lemma_product_of_nine(r, t, m, p, c, b, pb, rb, j);
    lemma_product_of_nine(t, p, c, b, pb, rb, j, m, r);
    assert(r * t * m * p * c * b * pb * rb * j == t * p * c * b * pb * rb * j * m * r) by (nonlinear_arith);
}

/// One run of a sweep: its position and the swept values it uses.
#[derive(Clone, Copy, Debug, PartialEq, Eq, Structural)]
pub struct MatrixCell {
    /// 1-based position of the run in the sweep.
    pub run_index: usize,
    /// 1-based repeat number.
    pub repeat: usize,
    pub tasks: u64,
    pub mode: BenchMode,
    pub producers: usize,
    pub consumers: usize,
    pub buckets: u32,
    pub producer_batch: usize,
    pub consumer_batch: usize,
    pub job_ms: u64,
}

/// The run at 0-based position `k`, given its loop indices.
pub open spec fn cell_of_digits(plan: MatrixPlan, k: nat, d: Seq<usize>) -> MatrixCell {
    MatrixCell {
        run_index: (k + 1) as usize,
        repeat: (d[0] + 1) as usize,
        tasks: plan.tasks@[d[1] as int],
        mode: plan.modes@[d[2] as int],
        producers: plan.producers@[d[3] as int],
        consumers: plan.consumers@[d[4] as int],
        buckets: plan.buckets@[d[5] as int],
        producer_batch: plan.producer_batches@[d[6] as int],
        consumer_batch: plan.receive_batches@[d[7] as int],
        job_ms: plan.job_ms@[d[8] as int],
    }
}

/// The run at 0-based position `k` of the sweep.
pub open spec fn spec_matrix_cell(plan: MatrixPlan, k: nat) -> MatrixCell {
    cell_of_digits(plan, k, decode_digits(k, plan.radices()))
}

proof fn lemma_plan_radices_positive(plan: MatrixPlan)
    requires
        plan.wf(),
    ensures
        radices_positive(plan.radices()),
        product_of(plan.radices()) == plan.total_runs,
{
    lemma_plan_product(plan);
    let rs = plan.radices();
    assert(rs[0] > 0 && rs[1] > 0 && rs[2] > 0 && rs[3] > 0 && rs[4] > 0 && rs[5] > 0 && rs[6] > 0
        && rs[7] > 0 && rs[8] > 0);
    assert forall|i: int| 0 <= i < rs.len() implies #[trigger] rs[i] > 0 by {
        assert(i == 0 || i == 1 || i == 2 || i == 3 || i == 4 || i == 5 || i == 6 || i == 7 || i == 8);
    }
}

/// The run at 0-based position `k` of the sweep.
pub fn matrix_cell(plan: &MatrixPlan, k: usize) -> (cell: MatrixCell)
    requires
        plan.wf(),
        k < plan.total_runs,
    ensures
        cell == spec_matrix_cell(*plan, k as nat),
{
    let mut radices: Vec<usize> = Vec::new();
    radices.push(plan.repeats);
    radices.push(plan.tasks.len());
    radices.push(plan.modes.len());
    radices.push(plan.producers.len());
    radices.push(plan.consumers.len());
    radices.push(plan.buckets.len());
    radices.push(plan.producer_batches.len());
    radices.push(plan.receive_batches.len());
    radices.push(plan.job_ms.len());
    assert(radices@ =~= plan.radices());
    proof {
        lemma_plan_radices_positive(*plan);
        lemma_decode_then_encode(k as nat, radices@);
    }
    let mut digits: Vec<usize> = Vec::new();
    let mut n: usize = 0;
    while n < 9
        invariant
            0 <= n <= 9,
            digits@.len() == n,
        decreases 9 - n,
    {
        digits.push(0);
        n = n + 1;
    }
    let mut rest: usize = k;
    let mut j: usize = 9;
    assert(radices@.take(9) =~= radices@);
    assert(digits@.skip(9) =~= Seq::<usize>::empty());
    while j > 0
        invariant
            0 <= j <= 9,
            radices@ == plan.radices(),
            radices_positive(radices@),
            digits@.len() == 9,
            rest <= k,
            decode_digits(k as nat, radices@) =~= decode_digits(rest as nat, radices@.take(j as int))
                + digits@.skip(j as int),
        decreases j,
    {
        let r = radices[j - 1];
        assert(r > 0) by {
            assert(radices@[j - 1] > 0);
        }
        let d = rest % r;
        let ghost prefix = radices@.take(j as int);
        assert(prefix.drop_last() =~= radices@.take(j - 1));
        assert(prefix.last() == r);
        let ghost old_digits = digits@;
        digits.set(j - 1, d);
        assert(digits@.skip(j - 1) =~= seq![d] + old_digits.skip(j as int));
        assert(decode_digits(rest as nat, prefix) == decode_digits((rest / r) as nat, radices@.take(j - 1)).push(d));
        rest = rest / r;
        j = j - 1;
    }
    assert(radices@.take(0) =~= Seq::<usize>::empty());
    assert(decode_digits(k as nat, radices@) =~= digits@);
    assert(digits[1] < plan.tasks.len() && digits[2] < plan.modes.len() && digits[3] < plan.producers.len()
        && digits[4] < plan.consumers.len() && digits[5] < plan.buckets.len()
        && digits[6] < plan.producer_batches.len() && digits[7] < plan.receive_batches.len()
        && digits[8] < plan.job_ms.len() && digits[0] < plan.repeats) by {
        assert(digits_in_range(digits@, radices@));
        assert(digits@[0] < radices@[0]);
        assert(digits@[1] < radices@[1]);
        assert(digits@[2] < radices@[2]);
        assert(digits@[3] < radices@[3]);
        assert(digits@[4] < radices@[4]);
        assert(digits@[5] < radices@[5]);
        assert(digits@[6] < radices@[6]);
        assert(digits@[7] < radices@[7]);
        assert(digits@[8] < radices@[8]);
    }
    MatrixCell {
        run_index: k + 1,
        repeat: digits[0] + 1,
        tasks: plan.tasks[digits[1]],
        mode: plan.modes[digits[2]],
        producers: plan.producers[digits[3]],
        consumers: plan.consumers[digits[4]],
        buckets: plan.buckets[digits[5]],
        producer_batch: plan.producer_batches[digits[6]],
        consumer_batch: plan.receive_batches[digits[7]],
        job_ms: plan.job_ms[digits[8]],
    }
}

/// Every run of the sweep, in order.
pub fn matrix_cells(plan: &MatrixPlan) -> (cells: Vec<MatrixCell>)
    requires
        plan.wf(),
    ensures
        cells@.len() == plan.total_runs,
        forall|k: int| 0 <= k < plan.total_runs ==> #[trigger] cells@[k] == spec_matrix_cell(*plan, k as nat),
{
    let mut cells: Vec<MatrixCell> = Vec::new();
    let mut k: usize = 0;
    while k < plan.total_runs
        invariant
            plan.wf(),
            0 <= k <= plan.total_runs,
            cells@.len() == k,
            forall|i: int| 0 <= i < k ==> #[trigger] cells@[i] == spec_matrix_cell(*plan, i as nat),
        decreases plan.total_runs - k,
    {
        let cell = matrix_cell(plan, k);
        cells.push(cell);
        k = k + 1;
    }
    cells
}

/// A sweep runs every combination of the swept values exactly once: the
/// loop indices of any combination (all within their ranges) are those of
/// exactly one position below the run count.
pub proof fn lemma_sweep_runs_each_combination_once(plan: MatrixPlan, digits: Seq<usize>)
    requires
        plan.wf(),
        digits_in_range(digits, plan.radices()),
    ensures
        encode_digits(digits, plan.radices()) < plan.total_runs,
        decode_digits(encode_digits(digits, plan.radices()), plan.radices()) == digits,
        forall|k: nat|
            k < plan.total_runs && #[trigger] decode_digits(k, plan.radices()) == digits ==> k == encode_digits(
                digits,
                plan.radices(),
            ),
{
    lemma_plan_radices_positive(plan);
    lemma_encode_then_decode(digits, plan.radices());
    assert forall|k: nat|
        k < plan.total_runs && #[trigger] decode_digits(k, plan.radices()) == digits implies k == encode_digits(
            digits,
            plan.radices(),
        ) by {
        lemma_decode_then_encode(k, plan.radices());
    }
}

/// A sweep runs every combination of the listed values: for any repeat
/// and any listed value in each dimension, some run of the sweep uses
/// exactly those values (and `lemma_sweep_runs_each_combination_once`
/// makes that run unique).
pub proof fn lemma_sweep_runs_every_listed_combination(
    plan: MatrixPlan,
    r: int,
    t: int,
    m: int,
    p: int,
    c: int,
    b: int,
    pb: int,
    rb: int,
    j: int,
)
    requires
        plan.wf(),
        0 <= r < plan.repeats,
        0 <= t < plan.tasks@.len(),
        0 <= m < plan.modes@.len(),
        0 <= p < plan.producers@.len(),
        0 <= c < plan.consumers@.len(),
        0 <= b < plan.buckets@.len(),
        0 <= pb < plan.producer_batches@.len(),
        0 <= rb < plan.receive_batches@.len(),
        0 <= j < plan.job_ms@.len(),
    ensures
        exists|k: nat|
            k < plan.total_runs && #[trigger] spec_matrix_cell(plan, k) == (MatrixCell {
                run_index: (k + 1) as usize,
                repeat: (r + 1) as usize,
                tasks: plan.tasks@[t],
                mode: plan.modes@[m],
                producers: plan.producers@[p],
                consumers: plan.consumers@[c],
                buckets: plan.buckets@[b],
                producer_batch: plan.producer_batches@[pb],
                consumer_batch: plan.receive_batches@[rb],
                job_ms: plan.job_ms@[j],
            }),
{
    let digits = seq![
        r as usize,
        t as usize,
        m as usize,
        p as usize,
        c as usize,
        b as usize,
        pb as usize,
        rb as usize,
        j as usize,
    ];
    let rs = plan.radices();
    assert(digits_in_range(digits, rs)) by {
        assert forall|i: int| 0 <= i < digits.len() implies #[trigger] digits[i] < rs[i] by {
            assert(i == 0 || i == 1 || i == 2 || i == 3 || i == 4 || i == 5 || i == 6 || i == 7 || i == 8);
        }
    }
    lemma_sweep_runs_each_combination_once(plan, digits);
    let k = encode_digits(digits, rs);
    assert(decode_digits(k, rs) == digits);
    assert(spec_matrix_cell(plan, k) == cell_of_digits(plan, k, digits));
}

/// Every run of a sweep uses, in each dimension, one of the listed values,
/// and a repeat number from 1 to the repeat count; runs are numbered from
/// 1 in sweep order.
pub proof fn lemma_sweep_uses_only_listed_values(plan: MatrixPlan, k: nat)
    requires
        plan.wf(),
        k < plan.total_runs,
    ensures
        spec_matrix_cell(plan, k).run_index == k + 1,
        1 <= spec_matrix_cell(plan, k).repeat <= plan.repeats,
        plan.tasks@.contains(spec_matrix_cell(plan, k).tasks),
        plan.modes@.contains(spec_matrix_cell(plan, k).mode),
        plan.producers@.contains(spec_matrix_cell(plan, k).producers),
        plan.consumers@.contains(spec_matrix_cell(plan, k).consumers),
        plan.buckets@.contains(spec_matrix_cell(plan, k).buckets),
        plan.producer_batches@.contains(spec_matrix_cell(plan, k).producer_batch),
        plan.receive_batches@.contains(spec_matrix_cell(plan, k).consumer_batch),
        plan.job_ms@.contains(spec_matrix_cell(plan, k).job_ms),
{
    lemma_sweep_positions_in_range(plan, k);
    let d = decode_digits(k, plan.radices());
    let rs = plan.radices();
    assert(d[0] < rs[0] && d[1] < rs[1] && d[2] < rs[2] && d[3] < rs[3] && d[4] < rs[4] && d[5] < rs[5]
        && d[6] < rs[6] && d[7] < rs[7] && d[8] < rs[8]);
    assert(k + 1 <= plan.total_runs);
    let cell = spec_matrix_cell(plan, k);
    assert(plan.tasks@[d[1] as int] == cell.tasks);
    assert(plan.modes@[d[2] as int] == cell.mode);
    assert(plan.producers@[d[3] as int] == cell.producers);
    assert(plan.consumers@[d[4] as int] == cell.consumers);
    assert(plan.buckets@[d[5] as int] == cell.buckets);
    assert(plan.producer_batches@[d[6] as int] == cell.producer_batch);
    assert(plan.receive_batches@[d[7] as int] == cell.consumer_batch);
    assert(plan.job_ms@[d[8] as int] == cell.job_ms);
}

/// `a` comes before `b` in lexicographic order: equal up to some position,
/// smaller there.
pub open spec fn lex_before(a: Seq<usize>, b: Seq<usize>) -> bool {
    a.len() == b.len() && exists|i: int|
        0 <= i < a.len() && #[trigger] a[i] < b[i] && forall|j: int| 0 <= j < i ==> a[j] == b[j]
}

proof fn lemma_decode_ordered(k: nat, l: nat, radices: Seq<usize>)
    requires
        radices_positive(radices),
        radices.len() > 0,
        k < l < product_of(radices),
    ensures
        lex_before(decode_digits(k, radices), decode_digits(l, radices)),
    decreases radices.len(),
{
    let init = radices.drop_last();
    let r = radices.last() as nat;
    assert(r > 0) by {
        assert(radices[radices.len() - 1] > 0);
    }
    assert(radices_positive(init)) by {
        assert forall|i: int| 0 <= i < init.len() implies #[trigger] init[i] > 0 by {
            assert(radices[i] > 0);
        }
    }
    let (qk, ql) = (k / r, l / r);
    vstd::arithmetic::div_mod::lemma_div_is_ordered(k as int, l as int, r as int);
    lemma_quotient_bound(l as int, r as int, product_of(init) as int);
    vstd::arithmetic::div_mod::lemma_fundamental_div_mod(k as int, r as int);
    vstd::arithmetic::div_mod::lemma_fundamental_div_mod(l as int, r as int);
    let dk = decode_digits(k, radices);
    let dl = decode_digits(l, radices);
    assert(dk.drop_last() =~= decode_digits(qk, init));
    assert(dl.drop_last() =~= decode_digits(ql, init));
    lemma_decode_len(qk, init);
    lemma_decode_len(ql, init);
    if qk == ql {
        assert(k % r < l % r);
        let i = dk.len() - 1;
        assert(dk[i] < dl[i]);
        assert forall|j: int| 0 <= j < i implies dk[j] == dl[j] by {
            assert(dk[j] == dk.drop_last()[j]);
            assert(dl[j] == dl.drop_last()[j]);
        }
    } else {
        if init.len() == 0 {
            assert(product_of(init) == 1);
        }
        lemma_decode_ordered(qk, ql, init);
        let pk = decode_digits(qk, init);
        let pl = decode_digits(ql, init);
        let i = choose|i: int| 0 <= i < pk.len() && #[trigger] pk[i] < pl[i] && forall|j: int| 0 <= j < i ==> pk[j] == pl[j];
        assert(dk[i] == pk[i] && dl[i] == pl[i]);
        assert forall|j: int| 0 <= j < i implies dk[j] == dl[j] by {
            assert(dk[j] == pk[j]);
            assert(dl[j] == pl[j]);
        }
    }
}

proof fn lemma_decode_len(k: nat, radices: Seq<usize>)
    requires
        radices_positive(radices),
    ensures
        decode_digits(k, radices).len() == radices.len(),
    decreases radices.len(),
{
    if radices.len() > 0 {
        let init = radices.drop_last();
        let r = radices.last() as nat;
        assert(r > 0) by {
            assert(radices[radices.len() - 1] > 0);
        }
        assert(radices_positive(init)) by {
            assert forall|i: int| 0 <= i < init.len() implies #[trigger] init[i] > 0 by {
                assert(radices[i] > 0);
            }
        }
        lemma_decode_len(k / r, init);
        assert(decode_digits(k, radices).drop_last() =~= decode_digits(k / r, init));
    }
}

/// A sweep runs its combinations in the order of nested loops: an earlier
/// position has loop indices that come first lexicographically (repeat
/// outermost, job time innermost).
pub proof fn lemma_sweep_in_nested_loop_order(plan: MatrixPlan, k: nat, l: nat)
    requires
        plan.wf(),
        k < l < plan.total_runs,
    ensures
        lex_before(decode_digits(k, plan.radices()), decode_digits(l, plan.radices())),
{
    lemma_plan_radices_positive(plan);
    lemma_decode_ordered(k, l, plan.radices());
}

/// Every position of a sweep runs a combination of values taken from the
/// planned lists (its loop indices are within range).
pub proof fn lemma_sweep_positions_in_range(plan: MatrixPlan, k: nat)
    requires
        plan.wf(),
        k < plan.total_runs,
    ensures
        digits_in_range(decode_digits(k, plan.radices()), plan.radices()),
        encode_digits(decode_digits(k, plan.radices()), plan.radices()) == k,
{
    lemma_plan_radices_positive(plan);
    lemma_decode_then_encode(k, plan.radices());
}

} // verus!

verus! {

/// The settings of one sweep run: the base settings with the swept values
/// of `cell`, a fixed work-down exactly for drain runs, no report files of
/// its own, and a reset schema.
pub open spec fn cell_args(a: ArgsView, cell: MatrixCell) -> ArgsView {
    ArgsView {
        tasks: cell.tasks,
        mode: cell.mode,
        num_total_jobs: if cell.mode == BenchMode::DrainOnly {
            Some(cell.tasks)
        } else {
            None
        },
        producers: cell.producers,
        consumers: cell.consumers,
        buckets: cell.buckets,
        producer_batch: cell.producer_batch,
        consumer_batch: cell.consumer_batch,
        job_ms: cell.job_ms,
        output: None,
        export: None,
        no_html: true,
        reset: true,
        ..a
    }
}

impl Args {
    /// The settings for the sweep run `cell` (see `cell_args`).
    pub fn for_matrix_cell(&self, cell: &MatrixCell) -> (run: Args)
        ensures
            run@ == cell_args(self@, *cell),
    {
        Args {
            endpoint: self.endpoint.clone(),
            user: self.user.clone(),
            pass: self.pass.clone(),
            namespace: self.namespace.clone(),
            database: self.database.clone(),
            tasks: cell.tasks,
            mode: cell.mode,
            num_total_jobs: if cell.mode == BenchMode::DrainOnly {
                Some(cell.tasks)
            } else {
                None
            },
            producers: cell.producers,
            consumers: cell.consumers,
            buckets: cell.buckets,
            producer_batch: cell.producer_batch,
            consumer_batch: cell.consumer_batch,
            payload_bytes: self.payload_bytes,
            lease_secs: self.lease_secs,
            job_ms: cell.job_ms,
            run: copy_opt_string(&self.run),
            output: None,
            export: None,
            no_html: true,
            separate_clients: self.separate_clients,
            reset: true,
            matrix: self.matrix,
            matrix_tasks: copy_values(&self.matrix_tasks),
            matrix_producers: copy_values(&self.matrix_producers),
            matrix_consumers: copy_values(&self.matrix_consumers),
            matrix_buckets: copy_values(&self.matrix_buckets),
            matrix_producer_batches: copy_values(&self.matrix_producer_batches),
            matrix_receive_batches: copy_values(&self.matrix_receive_batches),
            matrix_job_ms: copy_values(&self.matrix_job_ms),
            matrix_modes: copy_values(&self.matrix_modes),
            matrix_repeats: self.matrix_repeats,
            matrix_explain: self.matrix_explain,
        }
    }
}

/// The name of the queue that the benchmark drives.
pub const QUEUE: &'static str = "bench";

/// The name of the queue layout, as the reports record it.
pub const QUEUE_MODEL: &'static str = "record_range_minimal_tokens";

/// The configuration part of a sweep report.
#[derive(Debug)]
pub struct MatrixConfig {
    pub endpoint: String,
    pub namespace: String,
    pub database: String,
    pub queue: String,
    pub total_runs: usize,
    pub repeats: usize,
    pub matrix_tasks: Vec<u64>,
    pub matrix_producers: Vec<usize>,
    pub matrix_consumers: Vec<usize>,
    pub matrix_buckets: Vec<u32>,
    pub matrix_producer_batches: Vec<usize>,
    pub matrix_receive_batches: Vec<usize>,
    pub matrix_job_ms: Vec<u64>,
    pub matrix_modes: Vec<BenchMode>,
    pub payload_bytes: usize,
    pub lease_secs: u64,
    pub separate_clients: bool,
    pub queue_model: String,
    pub captured_explain: bool,
}

/// The configuration of a sweep, for its report: connection settings, the
/// planned lists and run count, and the fixed queue description (every run
/// uses its own clients).
pub fn matrix_config(base: &Args, plan: MatrixPlan) -> (config: MatrixConfig)
    ensures
        config.endpoint@ == base.endpoint@,
        config.namespace@ == base.namespace@,
        config.database@ == base.database@,
        config.queue@ == QUEUE@,
        config.total_runs == plan.total_runs,
        config.repeats == base.matrix_repeats,
        config.matrix_tasks@ == plan.tasks@,
        config.matrix_producers@ == plan.producers@,
        config.matrix_consumers@ == plan.consumers@,
        config.matrix_buckets@ == plan.buckets@,
        config.matrix_producer_batches@ == plan.producer_batches@,
        config.matrix_receive_batches@ == plan.receive_batches@,
        config.matrix_job_ms@ == plan.job_ms@,
        config.matrix_modes@ == plan.modes@,
        config.payload_bytes == base.payload_bytes,
        config.lease_secs == base.lease_secs,
        config.separate_clients,
        config.queue_model@ == QUEUE_MODEL@,
        config.captured_explain == base.matrix_explain,
{
    MatrixConfig {
        endpoint: base.endpoint.clone(),
        namespace: base.namespace.clone(),
        database: base.database.clone(),
        queue: String::from_str(QUEUE),
        total_runs: plan.total_runs,
        repeats: base.matrix_repeats,
        matrix_tasks: plan.tasks,
        matrix_producers: plan.producers,
        matrix_consumers: plan.consumers,
        matrix_buckets: plan.buckets,
        matrix_producer_batches: plan.producer_batches,
        matrix_receive_batches: plan.receive_batches,
        matrix_job_ms: plan.job_ms,
        matrix_modes: plan.modes,
        payload_bytes: base.payload_bytes,
        lease_secs: base.lease_secs,
        separate_clients: true,
        queue_model: String::from_str(QUEUE_MODEL),
        captured_explain: base.matrix_explain,
    }
}

} // verus!
