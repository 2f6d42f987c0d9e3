//! What producers enqueue: which task ids each producer inserts, in which
//! batches, and the key and bucket of each job.

use vstd::prelude::*;
use vstd::utf8::encode_utf8;
use crate::hashing::{xxh3_64, xxh3_64_of};
use crate::matrix::QUEUE;
use crate::text::{decimal_chars, hex_chars, push_char, push_decimal, push_hex};

verus! {

/// How many task ids below `tasks` producer `producer_id` of `producers`
/// inserts: those congruent to its id.
pub open spec fn producer_task_count(producer_id: u64, producers: u64, tasks: u64) -> nat {
    if producer_id >= tasks {
        0
    } else {
        ((tasks - producer_id - 1) as nat / producers as nat + 1) as nat
    }
}

/// The `k`-th task id of producer `producer_id`.
pub open spec fn producer_task_id(producer_id: u64, producers: u64, k: nat) -> int {
    producer_id + k * producers
}

/// The task ids that producer `producer_id` inserts, in order:
/// `producer_id, producer_id + producers, ...` below `tasks`.
pub open spec fn producer_task_ids(producer_id: u64, producers: u64, tasks: u64) -> Seq<u64> {
    Seq::new(
        producer_task_count(producer_id, producers, tasks),
        |k: int| producer_task_id(producer_id, producers, k as nat) as u64,
    )
}

proof fn lemma_task_id_bound(producer_id: u64, producers: u64, tasks: u64, k: nat)
    requires
        producers > 0,
        k < producer_task_count(producer_id, producers, tasks),
    ensures
        producer_task_id(producer_id, producers, k) < tasks,
{
    let x = (tasks - producer_id - 1) as int;
    let p = producers as int;
    vstd::arithmetic::div_mod::lemma_fundamental_div_mod(x, p);
    vstd::arithmetic::div_mod::lemma_mod_bound(x, p);
    let q = x / p;
    assert(k * p <= x) by (nonlinear_arith)
        requires
            k <= q,
            x == p * q + x % p,
            x % p >= 0,
            p > 0,
    ;
}

/// Walks through the task ids of one producer, a batch at a time.
#[derive(Debug)]
pub struct ProducerCursor {
    pub producer_id: u64,
    pub producers: u64,
    pub tasks: u64,
    /// Largest batch; 0 puts every remaining id in one batch.
    pub batch: usize,
    /// How many ids have been handed out.
    pub emitted: u64,
}

impl ProducerCursor {
    pub open spec fn wf(&self) -> bool {
        &&& self.producers > 0
        &&& self.emitted <= producer_task_count(self.producer_id, self.producers, self.tasks)
    }

    /// The ids of this producer.
    pub open spec fn ids(&self) -> Seq<u64> {
        producer_task_ids(self.producer_id, self.producers, self.tasks)
    }

    /// The cursor of producer `producer_id` out of `producers`, over task ids
    /// below `tasks`, in batches of at most `batch` ids.
    pub fn new(producer_id: u64, producers: u64, tasks: u64, batch: usize) -> (cursor: ProducerCursor)
        requires
            producers > 0,
        ensures
            cursor.wf(),
            cursor.producer_id == producer_id,
            cursor.producers == producers,
            cursor.tasks == tasks,
            cursor.batch == batch,
            cursor.emitted == 0,
    {
        ProducerCursor { producer_id, producers, tasks, batch, emitted: 0 }
    }

    fn count(&self) -> (count: u64)
        requires
            self.wf(),
        ensures
            count == producer_task_count(self.producer_id, self.producers, self.tasks),
    {
        if self.producer_id >= self.tasks {
            0
        } else {
            (self.tasks - self.producer_id - 1) / self.producers + 1
        }
    }

    /// The next batch of task ids: the next `batch` ids of this producer (all
    /// remaining ones when `batch` is 0), fewer at the end, none once all
    /// were handed out. Consecutive batches follow each other without gap or
    /// overlap.
    pub fn next_batch(&mut self) -> (ids: Vec<u64>)
        requires
            old(self).wf(),
        ensures
            final(self).wf(),
            final(self).producer_id == old(self).producer_id,
            final(self).producers == old(self).producers,
            final(self).tasks == old(self).tasks,
            final(self).batch == old(self).batch,
            final(self).emitted == if old(self).batch == 0 || old(self).emitted + old(self).batch
                >= producer_task_count(old(self).producer_id, old(self).producers, old(self).tasks) {
                producer_task_count(old(self).producer_id, old(self).producers, old(self).tasks) as int
            } else {
                old(self).emitted + old(self).batch
            },
            ids@ == old(self).ids().subrange(old(self).emitted as int, final(self).emitted as int),
            final(self).emitted == batch_end(old(self).ids().len(), old(self).emitted as nat, old(self).batch as nat),
            producer_batches(old(self).ids(), old(self).emitted as nat, old(self).batch as nat) == if ids@.len()
                == 0 {
                Seq::<Seq<u64>>::empty()
            } else {
                seq![ids@] + producer_batches(final(self).ids(), final(self).emitted as nat, final(self).batch as nat)
            },
    {
        let count = self.count();
        let mut ids: Vec<u64> = Vec::new();
        let ghost start = self.emitted;
        while self.emitted < count && (self.batch == 0 || ids.len() < self.batch)
            invariant
                self.wf(),
                self.producer_id == old(self).producer_id,
                self.producers == old(self).producers,
                self.tasks == old(self).tasks,
                self.batch == old(self).batch,
                count == producer_task_count(self.producer_id, self.producers, self.tasks),
                start <= self.emitted,
                ids@.len() == self.emitted - start,
                self.batch > 0 ==> ids@.len() <= self.batch,
                ids@ == self.ids().subrange(start as int, self.emitted as int),
            decreases count - self.emitted,
        {
            proof {
                lemma_task_id_bound(self.producer_id, self.producers, self.tasks, self.emitted as nat);
                assert(self.emitted * self.producers <= self.tasks) by (nonlinear_arith)
                    requires
                        self.producer_id + self.emitted * self.producers < self.tasks,
                ;
            }
            let id = self.producer_id + self.emitted * self.producers;
            ids.push(id);
            self.emitted = self.emitted + 1;
            assert(ids@ =~= self.ids().subrange(start as int, self.emitted as int));
        }
        proof {
            let all = producer_batches(old(self).ids(), start as nat, self.batch as nat);
            if start < count {
                assert(all =~= seq![ids@] + producer_batches(self.ids(), self.emitted as nat, self.batch as nat));
            }
        }
        ids
    }
}

/// Where the batch that starts at position `from` ends, among `len` ids,
/// for batches of at most `batch` ids (0: all the rest).
pub open spec fn batch_end(len: nat, from: nat, batch: nat) -> nat {
    if batch == 0 || from + batch >= len {
        len
    } else {
        from + batch
    }
}

/// The batches in which a producer hands out `ids` from position `from` on:
/// what consecutive calls of `next_batch` return until the ids run out (see
/// its contract: each call returns the first of these batches and leaves the
/// rest).
pub open spec fn producer_batches(ids: Seq<u64>, from: nat, batch: nat) -> Seq<Seq<u64>>
    decreases ids.len() - from,
{
    if from >= ids.len() {
        Seq::empty()
    } else {
        seq![ids.subrange(from as int, batch_end(ids.len(), from, batch) as int)] + producer_batches(
            ids,
            batch_end(ids.len(), from, batch),
            batch,
        )
    }
}

/// A producer's batches hand out its ids from `from` on, each once and in
/// order: together they are exactly those ids; none is empty; each holds at
/// most `batch` ids, and all but the last exactly `batch`.
pub proof fn lemma_batches_hand_out_every_id(ids: Seq<u64>, from: nat, batch: nat)
    requires
        from <= ids.len(),
    ensures
        producer_batches(ids, from, batch).flatten() == ids.skip(from as int),
        forall|i: int|
            0 <= i < producer_batches(ids, from, batch).len() ==> #[trigger] producer_batches(
                ids,
                from,
                batch,
            )[i].len() > 0 && (batch > 0 ==> producer_batches(ids, from, batch)[i].len() <= batch),
        forall|i: int|
            0 <= i < producer_batches(ids, from, batch).len() - 1 ==> batch > 0
                && #[trigger] producer_batches(ids, from, batch)[i].len() == batch,
    decreases ids.len() - from,
{
    let bs = producer_batches(ids, from, batch);
    if from >= ids.len() {
        assert(ids.skip(from as int) =~= Seq::<u64>::empty());
    } else {
        let end = batch_end(ids.len(), from, batch);
        let rest = producer_batches(ids, end, batch);
        lemma_batches_hand_out_every_id(ids, end, batch);
        assert(bs.drop_first() =~= rest);
        assert(bs.first() == ids.subrange(from as int, end as int));
        assert(ids.skip(from as int) =~= ids.subrange(from as int, end as int) + ids.skip(end as int));
        assert forall|i: int| 0 < i < bs.len() implies #[trigger] bs[i] == rest[i - 1] by {}
        if batch == 0 {
            assert(rest.len() == 0);
        }
    }
}

/// How many task ids producers `0..upto` of `producers` insert together.
pub open spec fn total_task_count(producers: u64, tasks: u64, upto: nat) -> nat
    decreases upto,
{
    if upto == 0 {
        0
    } else {
        total_task_count(producers, tasks, (upto - 1) as nat) + producer_task_count(
            (upto - 1) as u64,
            producers,
            tasks,
        )
    }
}

proof fn lemma_task_count_step(p: u64, producers: u64, t: u64)
    requires
        producers > 0,
        p < producers,
        t < u64::MAX,
    ensures
        producer_task_count(p, producers, (t + 1) as u64) == producer_task_count(p, producers, t) + if t
            % producers == p {
            1int
        } else {
            0int
        },
{
    let pp = producers as int;
    let ti = t as int;
    vstd::arithmetic::div_mod::lemma_fundamental_div_mod(ti, pp);
    vstd::arithmetic::div_mod::lemma_mod_bound(ti, pp);
    vstd::arithmetic::div_mod::lemma_div_pos_is_pos(ti, pp);
    if p > t {
        assert(ti % pp <= ti) by (nonlinear_arith)
            requires
                ti == pp * (ti / pp) + ti % pp,
                ti / pp >= 0,
                ti % pp >= 0,
                pp > 0,
        ;
    } else if p == t {
        vstd::arithmetic::div_mod::lemma_small_mod(t as nat, producers as nat);
        vstd::arithmetic::div_mod::lemma_basic_div(0, pp);
    } else {
        let x = (t - p - 1) as int;
        vstd::arithmetic::div_mod::lemma_fundamental_div_mod(x + 1, pp);
        vstd::arithmetic::div_mod::lemma_mod_bound(x + 1, pp);
        vstd::arithmetic::div_mod::lemma_div_pos_is_pos(x + 1, pp);
        let q = (x + 1) / pp;
        let r = (x + 1) % pp;
        assert(x + 1 == q * pp + r) by (nonlinear_arith)
            requires
                x + 1 == pp * q + r,
        ;
        if r == 0 {
            assert(q >= 1) by (nonlinear_arith)
                requires
                    x + 1 == q * pp + r,
                    r == 0,
                    x >= 0,
                    q >= 0,
                    pp > 0,
            ;
            assert(x == (q - 1) * pp + (pp - 1)) by (nonlinear_arith)
                requires
                    x + 1 == q * pp,
            ;
            vstd::arithmetic::div_mod::lemma_fundamental_div_mod_converse(x, pp, q - 1, pp - 1);
            vstd::arithmetic::div_mod::lemma_fundamental_div_mod_converse(t as int, pp, q, p as int);
        } else {
            vstd::arithmetic::div_mod::lemma_fundamental_div_mod_converse(x, pp, q, r - 1);
            if p + r < pp {
                vstd::arithmetic::div_mod::lemma_fundamental_div_mod_converse(t as int, pp, q, p + r);
            } else {
                assert(t as int == (q + 1) * pp + (p + r - pp)) by (nonlinear_arith)
                    requires
                        t as int == q * pp + r + p,
                ;
                vstd::arithmetic::div_mod::lemma_fundamental_div_mod_converse(
                    t as int,
                    pp,
                    q + 1,
                    p + r - pp,
                );
            }
        }
    }
}

proof fn lemma_total_task_count_step(producers: u64, t: u64, upto: nat)
    requires
        producers > 0,
        upto <= producers,
        t < u64::MAX,
    ensures
        total_task_count(producers, (t + 1) as u64, upto) == total_task_count(producers, t, upto) + if t
            % producers < upto {
            1int
        } else {
            0int
        },
    decreases upto,
{
    if upto > 0 {
        lemma_total_task_count_step(producers, t, (upto - 1) as nat);
        lemma_task_count_step((upto - 1) as u64, producers, t);
    }
}

proof fn lemma_total_task_count_zero(producers: u64, upto: nat)
    ensures
        total_task_count(producers, 0, upto) == 0,
    decreases upto,
{
    if upto > 0 {
        lemma_total_task_count_zero(producers, (upto - 1) as nat);
    }
}

/// The producers together insert `tasks` jobs: their task counts add up to
/// the number of tasks (and by `lemma_each_task_has_one_producer` no task
/// id goes to two producers, so every task is inserted exactly once).
pub proof fn lemma_producers_insert_every_task_once(producers: u64, tasks: u64)
    requires
        producers > 0,
    ensures
        total_task_count(producers, tasks, producers as nat) == tasks,
    decreases tasks,
{
    if tasks == 0 {
        lemma_total_task_count_zero(producers, producers as nat);
    } else {
        let t = (tasks - 1) as u64;
        lemma_producers_insert_every_task_once(producers, t);
        lemma_total_task_count_step(producers, t, producers as nat);
        vstd::arithmetic::div_mod::lemma_mod_bound(t as int, producers as int);
    }
}

/// Every task id below `tasks` is inserted by exactly one producer, the one
/// whose id is the task id modulo the producer count.
pub proof fn lemma_each_task_has_one_producer(producers: u64, tasks: u64, task: u64)
    requires
        producers > 0,
        task < tasks,
    ensures
        producer_task_ids((task % producers) as u64, producers, tasks).contains(task),
        forall|p: u64|
            p < producers && p != task % producers ==> !#[trigger] producer_task_ids(p, producers, tasks).contains(
                task,
            ),
{
    let pid = (task % producers) as u64;
    let k = (task / producers) as nat;
    vstd::arithmetic::div_mod::lemma_fundamental_div_mod(task as int, producers as int);
    assert(task == pid + k * producers) by (nonlinear_arith)
        requires
            task == producers * (task / producers) + task % producers,
            pid == task % producers,
            k == task / producers,
    ;
    let count = producer_task_count(pid, producers, tasks);
    assert(pid <= task);
    let x = (tasks - pid - 1) as int;
    vstd::arithmetic::div_mod::lemma_div_is_ordered(k * producers, x, producers as int);
    vstd::arithmetic::div_mod::lemma_div_multiples_vanish(k as int, producers as int);
    assert(k * producers <= x);
    assert((k * producers) / (producers as int) == k) by {
        vstd::arithmetic::mul::lemma_mul_is_commutative(k as int, producers as int);
    }
    assert(k < count);
    let ids = producer_task_ids(pid, producers, tasks);
    assert(ids[k as int] == task);
    assert forall|p: u64|
        p < producers && p != task % producers implies !#[trigger] producer_task_ids(p, producers, tasks).contains(
            task,
        ) by {
        let other = producer_task_ids(p, producers, tasks);
        if other.contains(task) {
            let j = choose|j: int| 0 <= j < other.len() && #[trigger] other[j] == task;
            lemma_task_id_bound(p, producers, tasks, j as nat);
            assert(task == p + j * producers);
            vstd::arithmetic::div_mod::lemma_fundamental_div_mod_converse(
                task as int,
                producers as int,
                j,
                p as int,
            );
        }
    }
}

/// The key under which a task's id is hashed: `task:<id>`.
pub open spec fn task_hash_key(task_id: u64) -> Seq<char> {
    "task:"@ + decimal_chars(task_id as nat)
}

/// The hash of a task that places it in a bucket.
pub open spec fn task_hash(task_id: u64) -> u64 {
    xxh3_64_of(encode_utf8(task_hash_key(task_id)))
}

/// The job key: the hash in 16 hex digits, `:`, the task id.
pub open spec fn job_key_chars(hash: u64, task_id: u64) -> Seq<char> {
    hex_chars(hash as nat, 16) + ":"@ + decimal_chars(task_id as nat)
}

/// A job as a producer inserts it: a payload row and a ready token, both
/// keyed by `job_key` and placed in `bucket`.
#[derive(Debug)]
pub struct JobPlan {
    pub job_key: String,
    pub queue: String,
    pub bucket: u32,
    pub state: String,
    pub sent_at_ns: i64,
    pub available_ns: i64,
    pub attempts: u32,
    pub max_attempts: u32,
}

/// How many times a job may be leased before it is dead.
pub const MAX_ATTEMPTS: u32 = 5;

/// The job of `task_id`, given its hash: bucket `hash % buckets`, active,
/// available at once, not yet attempted, at most `MAX_ATTEMPTS` attempts.
pub fn job_from_hash(task_id: u64, hash: u64, buckets: u32, sent_at_ns: i64) -> (job: JobPlan)
    requires
        buckets > 0,
    ensures
        job.job_key@ == job_key_chars(hash, task_id),
        job.queue@ == QUEUE@,
        job.bucket == hash % (buckets as u64),
        job.state@ == "active"@,
        job.sent_at_ns == sent_at_ns,
        job.available_ns == 0,
        job.attempts == 0,
        job.max_attempts == MAX_ATTEMPTS,
{
    let bucket = (hash % (buckets as u64)) as u32;
    let mut job_key = String::new();
    push_hex(&mut job_key, hash, 16);
    push_char(&mut job_key, ':');
    push_decimal(&mut job_key, task_id);
    proof {
        reveal_strlit(":");
        assert(Seq::<char>::empty() + hex_chars(hash as nat, 16) =~= hex_chars(hash as nat, 16));
        assert(hex_chars(hash as nat, 16).push(':') + decimal_chars(task_id as nat) =~= job_key_chars(hash, task_id));
    }
    JobPlan {
        job_key,
        queue: String::from_str(QUEUE),
        bucket,
        state: String::from_str("active"),
        sent_at_ns,
        available_ns: 0,
        attempts: 0,
        max_attempts: MAX_ATTEMPTS,
    }
}

/// The job of `task_id`, hashed into one of `buckets` buckets, sent at
/// `sent_at_ns` (see `job_from_hash`, with the hash `task_hash`).
pub fn make_job(task_id: u64, buckets: u32, sent_at_ns: i64) -> (job: JobPlan)
    requires
        buckets > 0,
    ensures
        job.job_key@ == job_key_chars(task_hash(task_id), task_id),
        job.queue@ == QUEUE@,
        job.bucket == task_hash(task_id) % (buckets as u64),
        job.state@ == "active"@,
        job.sent_at_ns == sent_at_ns,
        job.available_ns == 0,
        job.attempts == 0,
        job.max_attempts == MAX_ATTEMPTS,
{
    let mut hash_key = String::from_str("task:");
    push_decimal(&mut hash_key, task_id);
    let hash = xxh3_64(hash_key.as_str().as_bytes());
    job_from_hash(task_id, hash, buckets, sent_at_ns)
}

} // verus!
