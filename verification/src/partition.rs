//! Rendezvous hashing of buckets onto the active workers: every worker
//! scores every bucket, and the highest score owns it.

use vstd::prelude::*;
use vstd::bytes::{spec_u32_to_le_bytes, u32_to_le_bytes};
use vstd::utf8::encode_utf8;
use crate::hashing::{push_bytes, xxh3_64, xxh3_64_of};

verus! {

/// The bytes that are hashed to score `worker_id` for `bucket`: the bucket
/// in little-endian order, then the worker id in UTF-8.
pub open spec fn owner_score_input(bucket: u32, worker_id: Seq<char>) -> Seq<u8> {
    spec_u32_to_le_bytes(bucket) + encode_utf8(worker_id)
}

/// The rendezvous score of a worker for a bucket.
pub open spec fn owner_score(bucket: u32, worker_id: Seq<char>) -> u64 {
    xxh3_64_of(owner_score_input(bucket, worker_id))
}

/// The rendezvous score of `worker_id` for `bucket`.
pub fn partition_owner_score(bucket: u32, worker_id: &str) -> (score: u64)
    ensures
        score == owner_score(bucket, worker_id@),
{
    let mut bytes = u32_to_le_bytes(bucket);
    push_bytes(&mut bytes, worker_id.as_bytes());
    xxh3_64(bytes.as_slice())
}

/// Index of the last maximum of `scores` (the element that
/// `Iterator::max_by_key` picks); 0 for an empty sequence.
pub open spec fn last_max_index(scores: Seq<u64>) -> int
    decreases scores.len(),
{
    if scores.len() <= 1 {
        0
    } else {
        let k = last_max_index(scores.drop_last());
        if scores.last() >= scores[k] {
            scores.len() - 1
        } else {
            k
        }
    }
}

proof fn lemma_last_max_index(scores: Seq<u64>)
    requires
        scores.len() > 0,
    ensures
        0 <= last_max_index(scores) < scores.len(),
        forall|j: int| 0 <= j < scores.len() ==> #[trigger] scores[j] <= scores[last_max_index(scores)],
        forall|j: int| last_max_index(scores) < j < scores.len() ==> #[trigger] scores[j] < scores[last_max_index(scores)],
    decreases scores.len(),
{
    if scores.len() > 1 {
        let prefix = scores.drop_last();
        lemma_last_max_index(prefix);
        let k = last_max_index(prefix);
        assert(prefix[k] == scores[k]);
        let m = last_max_index(scores);
        assert forall|j: int| 0 <= j < scores.len() implies #[trigger] scores[j] <= scores[m] by {
            if j < scores.len() - 1 {
                assert(prefix[j] == scores[j]);
            }
        }
        assert forall|j: int| m < j < scores.len() implies #[trigger] scores[j] < scores[m] by {
            if j < scores.len() - 1 {
                assert(prefix[j] == scores[j]);
            }
        }
    }
}

/// Picks the owner among candidates with the given scores: the last one with
/// the highest score.
pub fn owner_index_by_scores(scores: &[u64]) -> (owner: usize)
    requires
        scores@.len() > 0,
    ensures
        owner == last_max_index(scores@),
        owner < scores@.len(),
        forall|j: int| 0 <= j < scores@.len() ==> #[trigger] scores@[j] <= scores@[owner as int],
        forall|j: int| owner < j < scores@.len() ==> #[trigger] scores@[j] < scores@[owner as int],
{
    let mut best: usize = 0;
    let mut i: usize = 1;
    while i < scores.len()
        invariant
            1 <= i <= scores@.len(),
            best < i,
            best == last_max_index(scores@.take(i as int)),
        decreases scores@.len() - i,
    {
        assert(scores@.take(i + 1).drop_last() == scores@.take(i as int));
        assert(scores@.take(i + 1)[best as int] == scores@[best as int]);
        assert(scores@.take(i + 1).last() == scores@[i as int]);
        if scores[i] >= scores[best] {
            best = i;
        }
        i = i + 1;
    }
    assert(scores@.take(scores@.len() as int) == scores@);
    proof {
        lemma_last_max_index(scores@);
    }
    best
}

/// The scores of all workers for one bucket.
pub open spec fn bucket_scores(workers: Seq<Seq<char>>, bucket: u32) -> Seq<u64> {
    Seq::new(workers.len(), |k: int| owner_score(bucket, workers[k]))
}

/// Index of the worker that owns `bucket`.
pub open spec fn bucket_owner(workers: Seq<Seq<char>>, bucket: u32) -> int {
    last_max_index(bucket_scores(workers, bucket))
}

/// Whether `worker_id` is the owner of `bucket` among `workers`.
pub open spec fn owns_bucket(workers: Seq<Seq<char>>, worker_id: Seq<char>, bucket: u32) -> bool {
    workers.len() > 0 && workers[bucket_owner(workers, bucket)] == worker_id
}

/// The buckets below `count` that `worker_id` owns, in increasing order.
pub open spec fn owned_buckets_below(workers: Seq<Seq<char>>, worker_id: Seq<char>, count: nat) -> Seq<u32>
    decreases count,
{
    if count == 0 {
        Seq::empty()
    } else {
        let rest = owned_buckets_below(workers, worker_id, (count - 1) as nat);
        if owns_bucket(workers, worker_id, (count - 1) as u32) {
            rest.push((count - 1) as u32)
        } else {
            rest
        }
    }
}

/// The ids of the worker rows, as character sequences.
pub open spec fn worker_ids(workers: Seq<String>) -> Seq<Seq<char>> {
    workers.map_values(|w: String| w@)
}

/// The buckets in `0..buckets` that `worker_id` leases, given the ids of the
/// active workers: those whose rendezvous owner is `worker_id`. With no
/// active worker, nothing is leased.
pub fn partition_lease_targets(workers: &[String], worker_id: &str, buckets: u32) -> (targets: Vec<u32>)
    ensures
        targets@ == owned_buckets_below(worker_ids(workers@), worker_id@, buckets as nat),
{
    let ghost ids = worker_ids(workers@);
    let mut targets: Vec<u32> = Vec::new();
    if workers.len() == 0 {
        proof {
            lemma_owned_buckets_none(ids, worker_id@, buckets as nat);
        }
        return targets;
    }
    let own_id = String::from_str(worker_id);
    let mut bucket: u32 = 0;
    while bucket < buckets
        invariant
            own_id@ == worker_id@,
            workers@.len() > 0,
            ids == worker_ids(workers@),
            bucket <= buckets,
            targets@ == owned_buckets_below(ids, worker_id@, bucket as nat),
        decreases buckets - bucket,
    {
        let mut scores: Vec<u64> = Vec::new();
        let mut k: usize = 0;
        while k < workers.len()
            invariant
                0 <= k <= workers@.len(),
                ids == worker_ids(workers@),
                scores@ == bucket_scores(ids, bucket).take(k as int),
            decreases workers@.len() - k,
        {
            let score = partition_owner_score(bucket, workers[k].as_str());
            scores.push(score);
            assert(scores@ == bucket_scores(ids, bucket).take(k + 1));
            k = k + 1;
        }
        assert(scores@ == bucket_scores(ids, bucket));
        let owner = owner_index_by_scores(scores.as_slice());
        assert(ids[owner as int] == workers@[owner as int]@);
        if workers[owner] == own_id {
            targets.push(bucket);
        }
        bucket = bucket + 1;
    }
    targets
}

proof fn lemma_owned_buckets_none(workers: Seq<Seq<char>>, worker_id: Seq<char>, count: nat)
    requires
        workers.len() == 0,
    ensures
        owned_buckets_below(workers, worker_id, count) == Seq::<u32>::empty(),
    decreases count,
{
    if count > 0 {
        lemma_owned_buckets_none(workers, worker_id, (count - 1) as nat);
    }
}

/// Membership in `owned_buckets_below`: a bucket is listed exactly when it is
/// below the count and `worker_id` owns it.
pub proof fn lemma_owned_buckets_contains(workers: Seq<Seq<char>>, worker_id: Seq<char>, count: nat, bucket: u32)
    ensures
        owned_buckets_below(workers, worker_id, count).contains(bucket) <==> (bucket < count && owns_bucket(
            workers,
            worker_id,
            bucket,
        )),
    decreases count,
{
    if count > 0 {
        lemma_owned_buckets_contains(workers, worker_id, (count - 1) as nat, bucket);
        let rest = owned_buckets_below(workers, worker_id, (count - 1) as nat);
        if owns_bucket(workers, worker_id, (count - 1) as u32) {
            let full = rest.push((count - 1) as u32);
            assert(full[rest.len() as int] == (count - 1) as u32);
            if full.contains(bucket) {
                let i = choose|i: int| 0 <= i < full.len() && #[trigger] full[i] == bucket;
                if i < rest.len() {
                    assert(rest[i] == bucket);
                }
            }
            if rest.contains(bucket) {
                let i = choose|i: int| 0 <= i < rest.len() && #[trigger] rest[i] == bucket;
                assert(full[i] == bucket);
            }
        }
    }
}

/// Rendezvous ownership partitions the buckets: when the active worker ids
/// are distinct, every bucket below `buckets` is leased by exactly one of
/// them — the one that `bucket_owner` names — and by no other.
pub proof fn lemma_every_bucket_has_exactly_one_owner(workers: Seq<Seq<char>>, buckets: u32, bucket: u32)
    requires
        workers.len() > 0,
        bucket < buckets,
        forall|i: int, j: int| 0 <= i < j < workers.len() ==> workers[i] != workers[j],
    ensures
        0 <= bucket_owner(workers, bucket) < workers.len(),
        owned_buckets_below(workers, workers[bucket_owner(workers, bucket)], buckets as nat).contains(bucket),
        forall|k: int|
            0 <= k < workers.len() && k != bucket_owner(workers, bucket) ==> !#[trigger] owned_buckets_below(
                workers,
                workers[k],
                buckets as nat,
            ).contains(bucket),
{
    lemma_last_max_index(bucket_scores(workers, bucket));
    let owner = bucket_owner(workers, bucket);
    lemma_owned_buckets_contains(workers, workers[owner], buckets as nat, bucket);
    assert forall|k: int|
        0 <= k < workers.len() && k != owner implies !#[trigger] owned_buckets_below(
            workers,
            workers[k],
            buckets as nat,
        ).contains(bucket) by {
        lemma_owned_buckets_contains(workers, workers[k], buckets as nat, bucket);
        assert(workers[owner] != workers[k]);
    }
}

/// A worker leases only buckets that exist, in increasing order without
/// repetition.
pub proof fn lemma_lease_targets_increasing(workers: Seq<Seq<char>>, worker_id: Seq<char>, count: nat)
    requires
        count <= u32::MAX + 1,
    ensures
        forall|i: int|
            0 <= i < owned_buckets_below(workers, worker_id, count).len() ==> #[trigger] owned_buckets_below(
                workers,
                worker_id,
                count,
            )[i] < count,
        forall|i: int, j: int|
            0 <= i < j < owned_buckets_below(workers, worker_id, count).len() ==> #[trigger] owned_buckets_below(
                workers,
                worker_id,
                count,
            )[i] < #[trigger] owned_buckets_below(workers, worker_id, count)[j],
    decreases count,
{
    if count > 0 {
        lemma_lease_targets_increasing(workers, worker_id, (count - 1) as nat);
        let rest = owned_buckets_below(workers, worker_id, (count - 1) as nat);
        let all = owned_buckets_below(workers, worker_id, count);
        assert forall|i: int| 0 <= i < all.len() implies #[trigger] all[i] < count by {
            if i < rest.len() {
                assert(all[i] == rest[i]);
            }
        }
        assert forall|i: int, j: int| 0 <= i < j < all.len() implies #[trigger] all[i] < #[trigger] all[j] by {
            assert(all[i] == rest[i]);
            assert(rest[i] < count - 1);
            if j < rest.len() {
                assert(all[j] == rest[j]);
            }
        }
    }
}

} // verus!
