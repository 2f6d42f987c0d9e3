//! Per-worker bucket bookkeeping: which owned bucket to poll next, and how
//! long to back off after a bucket came back empty.

use vstd::prelude::*;
use vstd::arithmetic::power2::pow2;

verus! {

/// Number of nanoseconds in one millisecond.
pub const NANOS_PER_MILLI: u64 = 1_000_000;

/// The backoff that follows `empty_misses` consecutive empty polls of one
/// bucket, in milliseconds: doubling from 1 ms and capped at 32 ms.
pub open spec fn backoff_millis(empty_misses: u32) -> nat {
    pow2(if empty_misses < 5 { empty_misses as nat } else { 5 })
}

/// Backoff after `empty_misses` consecutive empty receives on a bucket, in
/// nanoseconds: `2^min(empty_misses, 5)` milliseconds.
pub fn bucket_empty_backoff(empty_misses: u32) -> (nanos: u64)
    ensures
        nanos == backoff_millis(empty_misses) * NANOS_PER_MILLI,
{
    let capped: u32 = if empty_misses < 5 { empty_misses } else { 5 };
    let shift: u64 = capped as u64;
    proof {
        vstd::arithmetic::power2::lemma2_to64();
        assert(pow2(shift as nat) <= 32);
        vstd::bits::lemma_u64_shl_is_mul(1, shift);
    }
    let millis: u64 = 1u64 << shift;
    millis * NANOS_PER_MILLI
}

} // verus!

verus! {

/// What a consumer remembers of one bucket it owns. Times are nanoseconds on
/// the worker's own monotonic clock.
#[derive(Clone, Copy, Debug, PartialEq, Eq, Structural)]
pub struct BucketState {
    pub bucket: u32,
    pub empty_misses: u32,
    pub ready_at_ns: u64,
}

/// A bucket that the worker has just taken over: no misses, ready at once.
pub open spec fn fresh_state(bucket: u32, now_ns: u64) -> BucketState {
    BucketState { bucket, empty_misses: 0, ready_at_ns: now_ns }
}

/// The previous states keyed by bucket; a later state of the same bucket
/// shadows an earlier one.
pub open spec fn state_map(states: Seq<BucketState>) -> Map<u32, BucketState>
    decreases states.len(),
{
    if states.len() == 0 {
        Map::empty()
    } else {
        state_map(states.drop_last()).insert(states.last().bucket, states.last())
    }
}

/// The states for `owned`, in its order: each bucket takes the remembered
/// state still available for it (which is then used up), or a fresh one.
pub open spec fn merged_states(
    available: Map<u32, BucketState>,
    owned: Seq<u32>,
    now_ns: u64,
) -> Seq<BucketState>
    decreases owned.len(),
{
    if owned.len() == 0 {
        Seq::empty()
    } else {
        let b = owned[0];
        let head = if available.contains_key(b) {
            available[b]
        } else {
            fresh_state(b, now_ns)
        };
        seq![head] + merged_states(available.remove(b), owned.drop_first(), now_ns)
    }
}

proof fn lemma_merged_states_buckets(available: Map<u32, BucketState>, owned: Seq<u32>, now_ns: u64)
    requires
        forall|b: u32| #[trigger] available.contains_key(b) ==> available[b].bucket == b,
    ensures
        merged_states(available, owned, now_ns).len() == owned.len(),
        forall|j: int|
            0 <= j < owned.len() ==> #[trigger] merged_states(available, owned, now_ns)[j].bucket
                == owned[j],
    decreases owned.len(),
{
    if owned.len() > 0 {
        let b = owned[0];
        let rest = available.remove(b);
        assert forall|c: u32| #[trigger] rest.contains_key(c) implies rest[c].bucket == c by {
            assert(available.contains_key(c));
        }
        lemma_merged_states_buckets(rest, owned.drop_first(), now_ns);
        let m = merged_states(available, owned, now_ns);
        assert forall|j: int| 0 <= j < owned.len() implies #[trigger] m[j].bucket == owned[j] by {
            if j > 0 {
                assert(owned.drop_first()[j - 1] == owned[j]);
            }
        }
    }
}

proof fn lemma_state_map_keys(states: Seq<BucketState>)
    ensures
        forall|b: u32| #[trigger] state_map(states).contains_key(b) ==> state_map(states)[b].bucket
            == b,
    decreases states.len(),
{
    if states.len() > 0 {
        lemma_state_map_keys(states.drop_last());
        let m = state_map(states);
        assert forall|b: u32| #[trigger] m.contains_key(b) implies m[b].bucket == b by {
            if b != states.last().bucket {
                assert(state_map(states.drop_last()).contains_key(b));
            }
        }
    }
}

/// Carries the remembered state of each bucket that is still owned over to
/// the new ownership list, in the order of `owned_buckets`; buckets owned for
/// the first time start fresh at `now_ns`. Buckets no longer owned are
/// dropped. The result lists exactly `owned_buckets`.
pub fn merge_bucket_states(previous: Vec<BucketState>, owned_buckets: Vec<u32>, now_ns: u64) -> (merged: Vec<BucketState>)
    ensures
        merged@ == merged_states(state_map(previous@), owned_buckets@, now_ns),
        merged@.len() == owned_buckets@.len(),
        forall|j: int| 0 <= j < owned_buckets@.len() ==> #[trigger] merged@[j].bucket == owned_buckets@[j],
{
    broadcast use vstd::std_specs::hash::group_hash_axioms;
    let mut by_bucket: std::collections::HashMap<u32, BucketState> = std::collections::HashMap::new();
    let mut i: usize = 0;
    while i < previous.len()
        invariant
            0 <= i <= previous@.len(),
            by_bucket@ == state_map(previous@.take(i as int)),
        decreases previous@.len() - i,
    {
        let state = previous[i];
        by_bucket.insert(state.bucket, state);
        assert(previous@.take(i + 1).drop_last() == previous@.take(i as int));
        i = i + 1;
    }
    assert(previous@.take(previous@.len() as int) == previous@);
    let ghost target = merged_states(state_map(previous@), owned_buckets@, now_ns);
    let mut merged: Vec<BucketState> = Vec::new();
    let mut j: usize = 0;
    assert(owned_buckets@.skip(0) == owned_buckets@);
    while j < owned_buckets.len()
        invariant
            0 <= j <= owned_buckets@.len(),
            merged@ + merged_states(by_bucket@, owned_buckets@.skip(j as int), now_ns) == target,
        decreases owned_buckets@.len() - j,
    {
        let bucket = owned_buckets[j];
        let ghost before = by_bucket@;
        let state = match by_bucket.remove(&bucket) {
            Some(state) => state,
            None => BucketState { bucket, empty_misses: 0, ready_at_ns: now_ns },
        };
        assert(owned_buckets@.skip(j as int).drop_first() == owned_buckets@.skip(j + 1));
        assert(by_bucket@ == before.remove(bucket));
        merged.push(state);
        assert(merged@ + merged_states(by_bucket@, owned_buckets@.skip(j + 1), now_ns) == target);
        j = j + 1;
    }
    proof {
        lemma_state_map_keys(previous@);
        lemma_merged_states_buckets(state_map(previous@), owned_buckets@, now_ns);
    }
    merged
}

/// Whether a bucket may be polled at `now_ns`.
pub open spec fn is_ready(state: BucketState, now_ns: u64) -> bool {
    state.ready_at_ns <= now_ns
}

/// The index visited `offset` steps after `cursor`, wrapping around.
pub open spec fn probe_index(len: int, cursor: int, offset: int) -> int {
    (cursor + offset) % len
}

/// The first ready bucket met when probing from `offset` onward, or `None`.
pub open spec fn first_ready_from(states: Seq<BucketState>, cursor: int, now_ns: u64, offset: int) -> Option<int>
    decreases states.len() - offset,
{
    if offset < 0 || offset >= states.len() {
        None
    } else if is_ready(states[probe_index(states.len() as int, cursor, offset)], now_ns) {
        Some(probe_index(states.len() as int, cursor, offset))
    } else {
        first_ready_from(states, cursor, now_ns, offset + 1)
    }
}

/// Round-robin choice of the next bucket to poll: starting at `cursor` and
/// wrapping around once, the first bucket whose backoff has expired.
pub fn next_ready_bucket_index(bucket_states: &[BucketState], cursor: usize, now_ns: u64) -> (index: Option<usize>)
    requires
        bucket_states@.len() == 0 || cursor + bucket_states@.len() - 1 <= usize::MAX,
    ensures
        first_ready_from(bucket_states@, cursor as int, now_ns, 0) == match index {
            Some(i) => Some(i as int),
            None => None::<int>,
        },
        match index {
            Some(i) => exists|k: int|
                #![trigger probe_index(bucket_states@.len() as int, cursor as int, k)]
                0 <= k < bucket_states@.len() && i == probe_index(bucket_states@.len() as int, cursor as int, k)
                    && is_ready(bucket_states@[i as int], now_ns)
                    && forall|j: int| 0 <= j < k ==> !is_ready(
                        #[trigger] bucket_states@[probe_index(bucket_states@.len() as int, cursor as int, j)],
                        now_ns,
                    ),
            None => forall|j: int| 0 <= j < bucket_states@.len() ==> !is_ready(
                #[trigger] bucket_states@[probe_index(bucket_states@.len() as int, cursor as int, j)],
                now_ns,
            ),
        },
{
    let len = bucket_states.len();
    let mut offset: usize = 0;
    while offset < len
        invariant
            len == bucket_states@.len(),
            0 <= offset <= len,
            len == 0 || cursor + len - 1 <= usize::MAX,
            forall|j: int| 0 <= j < offset ==> !is_ready(
                #[trigger] bucket_states@[probe_index(len as int, cursor as int, j)],
                now_ns,
            ),
            first_ready_from(bucket_states@, cursor as int, now_ns, 0) == first_ready_from(
                bucket_states@,
                cursor as int,
                now_ns,
                offset as int,
            ),
        decreases len - offset,
    {
        let index = (cursor + offset) % len;
        assert(index == probe_index(len as int, cursor as int, offset as int));
        if bucket_states[index].ready_at_ns <= now_ns {
            return Some(index);
        }
        offset = offset + 1;
    }
    None
}

/// Smallest time, among the buckets not yet ready, until one becomes ready;
/// `None` when every bucket is already past its ready time.
pub open spec fn min_pending_wait(states: Seq<BucketState>, now_ns: u64) -> Option<nat>
    decreases states.len(),
{
    if states.len() == 0 {
        None
    } else {
        let rest = min_pending_wait(states.drop_last(), now_ns);
        let last = states.last();
        if last.ready_at_ns >= now_ns {
            let wait = (last.ready_at_ns - now_ns) as nat;
            match rest {
                Some(m) => Some(if m <= wait { m } else { wait }),
                None => Some(wait),
            }
        } else {
            rest
        }
    }
}

/// How long to sleep when no bucket is ready: until the earliest bucket
/// becomes ready, 1 ms when none is pending, and never more than 10 ms.
pub open spec fn bucket_sleep_nanos(states: Seq<BucketState>, now_ns: u64) -> nat {
    let wait = match min_pending_wait(states, now_ns) {
        Some(w) => w,
        None => NANOS_PER_MILLI as nat,
    };
    if wait <= 10 * NANOS_PER_MILLI { wait } else { 10 * NANOS_PER_MILLI as nat }
}

/// Time to sleep before polling again when no bucket is ready, in
/// nanoseconds (see `bucket_sleep_nanos`).
pub fn next_bucket_sleep(bucket_states: &[BucketState], now_ns: u64) -> (nanos: u64)
    ensures
        nanos == bucket_sleep_nanos(bucket_states@, now_ns),
{
    let mut best: Option<u64> = None;
    let mut i: usize = 0;
    while i < bucket_states.len()
        invariant
            0 <= i <= bucket_states@.len(),
            match best {
                Some(b) => min_pending_wait(bucket_states@.take(i as int), now_ns) == Some(b as nat),
                None => min_pending_wait(bucket_states@.take(i as int), now_ns) == None::<nat>,
            },
        decreases bucket_states@.len() - i,
    {
        let state = bucket_states[i];
        assert(bucket_states@.take(i + 1).drop_last() == bucket_states@.take(i as int));
        if state.ready_at_ns >= now_ns {
            let wait = state.ready_at_ns - now_ns;
            best = match best {
                Some(b) => Some(if b <= wait { b } else { wait }),
                None => Some(wait),
            };
        }
        i = i + 1;
    }
    assert(bucket_states@.take(bucket_states@.len() as int) == bucket_states@);
    let wait = match best {
        Some(b) => b,
        None => NANOS_PER_MILLI,
    };
    if wait <= 10 * NANOS_PER_MILLI { wait } else { 10 * NANOS_PER_MILLI }
}

} // verus!
