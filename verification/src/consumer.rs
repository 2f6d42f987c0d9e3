//! The decisions of a consumer worker, as a state machine. The worker's
//! loop performs each action (a database call or a sleep) and reports back;
//! the machine decides what comes next.

use vstd::prelude::*;
use crate::buckets::{
    BucketState, NANOS_PER_MILLI, backoff_millis, bucket_empty_backoff, bucket_sleep_nanos,
    first_ready_from, is_ready, merge_bucket_states, merged_states, next_bucket_sleep,
    next_ready_bucket_index, state_map,
};
use crate::stats::WorkerStats;
use crate::text::{decimal_chars, push_decimal};

verus! {

/// Nanoseconds in one second.
pub const NANOS_PER_SEC: u64 = 1_000_000_000;

/// Where the consumer loop stands.
#[derive(Clone, Copy, Debug, PartialEq, Eq, Structural)]
pub enum ConsumerPhase {
    /// At the top of the loop: check for completion and for a refresh.
    Top,
    /// Waiting for the owned buckets to be reloaded.
    AwaitRefresh,
    /// Buckets are known: check that there are some, and the heartbeat.
    Polling,
    /// Waiting for the heartbeat to be written.
    AwaitHeartbeat,
    /// Choose a ready bucket.
    Picking,
    /// Waiting for the jobs claimed from the bucket at `index`.
    AwaitReceive { index: usize },
    /// Waiting for the claimed jobs to be acknowledged.
    AwaitAck,
}

/// What the consumer loop must do next.
#[derive(Clone, Copy, Debug, PartialEq, Eq, Structural)]
pub enum ConsumerAction {
    /// Every job has been consumed: stop.
    Finish,
    /// Recompute the owned buckets (and recover their expired leases).
    RefreshBuckets,
    /// Sleep this long, then ask again.
    Sleep { nanos: u64 },
    /// Extend this worker's registration lease.
    Heartbeat,
    /// Claim jobs from `bucket`, the state at `index`.
    Receive { index: usize, bucket: u32 },
}

/// The state of one consumer worker. Times are nanoseconds on the worker's
/// monotonic clock.
#[derive(Debug)]
pub struct ConsumerMachine {
    pub tasks: u64,
    pub heartbeat_interval_ns: u128,
    pub bucket_states: Vec<BucketState>,
    pub cursor: usize,
    pub last_heartbeat_ns: u64,
    /// `None` until the first refresh, which is then due at once.
    pub last_refresh_ns: Option<u64>,
    pub stats: WorkerStats,
    pub phase: ConsumerPhase,
}

/// Time elapsed from `then` to `now`, zero if `now` is earlier.
pub open spec fn elapsed_between(then: u64, now: u64) -> nat {
    if now >= then { (now - then) as nat } else { 0 }
}

/// Heartbeat (and refresh) interval for a lease of `lease_secs` seconds: a
/// third of the lease, at least one second.
pub open spec fn heartbeat_interval_nanos(lease_secs: u64) -> nat {
    ((if lease_secs / 3 >= 1 { lease_secs / 3 } else { 1 }) * NANOS_PER_SEC) as nat
}

impl ConsumerMachine {
    /// The machine's invariant: the cursor points into the bucket list (or is
    /// 0 when it is empty), a pending receive names an existing bucket, and
    /// no more latencies are kept than jobs were claimed.
    pub open spec fn wf(&self) -> bool {
        &&& self.bucket_states@.len() <= usize::MAX / 2
        &&& self.stats.latency_ns@.len() <= self.stats.claimed
        &&& if self.bucket_states@.len() == 0 {
            self.cursor == 0
        } else {
            self.cursor < self.bucket_states@.len()
        }
        &&& self.phase matches ConsumerPhase::AwaitReceive { index } ==> index
            < self.bucket_states@.len()
    }

    pub open spec fn refresh_due(&self, now_ns: u64) -> bool {
        match self.last_refresh_ns {
            None => true,
            Some(last) => elapsed_between(last, now_ns) >= self.heartbeat_interval_ns,
        }
    }

    pub open spec fn heartbeat_due(&self, now_ns: u64) -> bool {
        elapsed_between(self.last_heartbeat_ns, now_ns) >= self.heartbeat_interval_ns
    }

    /// The action `next_action` chooses, and the phase it leaves.
    pub open spec fn decision(&self, consumed: u64, now_ns: u64) -> (ConsumerAction, ConsumerPhase) {
        let len = self.bucket_states@.len();
        if self.phase == ConsumerPhase::Top && consumed >= self.tasks {
            (ConsumerAction::Finish, ConsumerPhase::Top)
        } else if self.phase == ConsumerPhase::Top && (len == 0 || self.refresh_due(now_ns)) {
            (ConsumerAction::RefreshBuckets, ConsumerPhase::AwaitRefresh)
        } else if (self.phase == ConsumerPhase::Top || self.phase == ConsumerPhase::Polling) && len
            == 0 {
            (ConsumerAction::Sleep { nanos: (10 * NANOS_PER_MILLI) as u64 }, ConsumerPhase::Top)
        } else if (self.phase == ConsumerPhase::Top || self.phase == ConsumerPhase::Polling)
            && self.heartbeat_due(now_ns) {
            (ConsumerAction::Heartbeat, ConsumerPhase::AwaitHeartbeat)
        } else {
            match first_ready_from(self.bucket_states@, self.cursor as int, now_ns, 0) {
                Some(i) => (
                    ConsumerAction::Receive {
                        index: i as usize,
                        bucket: self.bucket_states@[i].bucket,
                    },
                    ConsumerPhase::AwaitReceive { index: i as usize },
                ),
                None => (
                    ConsumerAction::Sleep {
                        nanos: bucket_sleep_nanos(self.bucket_states@, now_ns) as u64,
                    },
                    ConsumerPhase::Top,
                ),
            }
        }
    }

    /// A consumer that must consume `tasks` jobs in all, with a registration
    /// lease of `lease_secs` seconds, registered at `now_ns`.
    pub fn new(tasks: u64, lease_secs: u64, now_ns: u64) -> (machine: ConsumerMachine)
        ensures
            machine.wf(),
            machine.tasks == tasks,
            machine.heartbeat_interval_ns == heartbeat_interval_nanos(lease_secs),
            machine.bucket_states@ == Seq::<BucketState>::empty(),
            machine.cursor == 0,
            machine.last_heartbeat_ns == now_ns,
            machine.last_refresh_ns == None::<u64>,
            machine.stats.claimed == 0,
            machine.stats.empty_polls == 0,
            machine.stats.bucket_refreshes == 0,
            machine.stats.latency_ns@ == Seq::<u64>::empty(),
            machine.phase == ConsumerPhase::Top,
    {
        let third: u64 = lease_secs / 3;
        let secs: u64 = if third >= 1 { third } else { 1 };
        let interval: u128 = (secs as u128) * (NANOS_PER_SEC as u128);
        ConsumerMachine {
            tasks,
            heartbeat_interval_ns: interval,
            bucket_states: Vec::new(),
            cursor: 0,
            last_heartbeat_ns: now_ns,
            last_refresh_ns: None,
            stats: WorkerStats::new(),
            phase: ConsumerPhase::Top,
        }
    }

    fn is_refresh_due(&self, now_ns: u64) -> (due: bool)
        ensures
            due == self.refresh_due(now_ns),
    {
        match self.last_refresh_ns {
            None => true,
            Some(last) => {
                let elapsed: u64 = if now_ns >= last { now_ns - last } else { 0 };
                elapsed as u128 >= self.heartbeat_interval_ns
            },
        }
    }

    fn is_heartbeat_due(&self, now_ns: u64) -> (due: bool)
        ensures
            due == self.heartbeat_due(now_ns),
    {
        let last = self.last_heartbeat_ns;
        let elapsed: u64 = if now_ns >= last { now_ns - last } else { 0 };
        elapsed as u128 >= self.heartbeat_interval_ns
    }

    /// Decides the next step of the loop at `now_ns`, when `consumed` jobs
    /// have been consumed by all workers together. `Finish` comes exactly when
    /// the loop is at its top and every job is consumed; a `Receive` names a
    /// bucket that is ready, the first one found round-robin from the cursor,
    /// and moves the cursor past it.
    pub fn next_action(&mut self, consumed: u64, now_ns: u64) -> (action: ConsumerAction)
        requires
            old(self).wf(),
            old(self).phase == ConsumerPhase::Top || old(self).phase == ConsumerPhase::Polling
                || old(self).phase == ConsumerPhase::Picking,
            old(self).stats.empty_polls < u64::MAX,
        ensures
            final(self).wf(),
            (action, final(self).phase) == old(self).decision(consumed, now_ns),
            final(self).cursor == match action {
                ConsumerAction::Receive { index, bucket } => ((index + 1) % (old(self).bucket_states@.len() as int)) as usize,
                _ => old(self).cursor,
            },
            final(self).stats.empty_polls == old(self).stats.empty_polls + if action is Sleep {
                1int
            } else {
                0int
            },
            action is Finish <==> (old(self).phase == ConsumerPhase::Top && consumed >= old(self).tasks),
            action matches ConsumerAction::Receive { index, bucket } ==> {
                &&& index < old(self).bucket_states@.len()
                &&& old(self).bucket_states@[index as int].bucket == bucket
                &&& is_ready(old(self).bucket_states@[index as int], now_ns)
            },
            final(self).tasks == old(self).tasks,
            final(self).heartbeat_interval_ns == old(self).heartbeat_interval_ns,
            final(self).bucket_states@ == old(self).bucket_states@,
            final(self).last_heartbeat_ns == old(self).last_heartbeat_ns,
            final(self).last_refresh_ns == old(self).last_refresh_ns,
            final(self).stats.claimed == old(self).stats.claimed,
            final(self).stats.bucket_refreshes == old(self).stats.bucket_refreshes,
            final(self).stats.latency_ns@ == old(self).stats.latency_ns@,
    {
        let len = self.bucket_states.len();
        if self.phase == ConsumerPhase::Top {
            if consumed >= self.tasks {
                return ConsumerAction::Finish;
            }
            if len == 0 || self.is_refresh_due(now_ns) {
                self.phase = ConsumerPhase::AwaitRefresh;
                return ConsumerAction::RefreshBuckets;
            }
            self.phase = ConsumerPhase::Polling;
        }
        if self.phase == ConsumerPhase::Polling {
            if len == 0 {
                self.stats.empty_polls = self.stats.empty_polls + 1;
                self.phase = ConsumerPhase::Top;
                return ConsumerAction::Sleep { nanos: 10 * NANOS_PER_MILLI };
            }
            if self.is_heartbeat_due(now_ns) {
                self.phase = ConsumerPhase::AwaitHeartbeat;
                return ConsumerAction::Heartbeat;
            }
            self.phase = ConsumerPhase::Picking;
        }
        match next_ready_bucket_index(self.bucket_states.as_slice(), self.cursor, now_ns) {
            None => {
                let nanos = next_bucket_sleep(self.bucket_states.as_slice(), now_ns);
                self.stats.empty_polls = self.stats.empty_polls + 1;
                self.phase = ConsumerPhase::Top;
                ConsumerAction::Sleep { nanos }
            },
            Some(index) => {
                self.cursor = (index + 1) % len;
                self.phase = ConsumerPhase::AwaitReceive { index };
                ConsumerAction::Receive { index, bucket: self.bucket_states[index].bucket }
            },
        }
    }

    /// Records the buckets that this worker owns after a refresh at
    /// `now_ns`: their states carry over (see `merge_bucket_states`), the
    /// cursor is clamped into the new list, and polling resumes.
    pub fn on_buckets_refreshed(&mut self, owned_buckets: Vec<u32>, now_ns: u64)
        requires
            old(self).wf(),
            old(self).phase == ConsumerPhase::AwaitRefresh,
            old(self).stats.bucket_refreshes < u64::MAX,
            owned_buckets@.len() <= usize::MAX / 2,
        ensures
            final(self).wf(),
            final(self).bucket_states@ == merged_states(state_map(old(self).bucket_states@), owned_buckets@, now_ns),
            final(self).cursor == if old(self).cursor < owned_buckets@.len() {
                old(self).cursor as int
            } else if owned_buckets@.len() == 0 {
                0
            } else {
                owned_buckets@.len() - 1
            },
            final(self).last_refresh_ns == Some(now_ns),
            final(self).stats.bucket_refreshes == old(self).stats.bucket_refreshes + 1,
            final(self).phase == ConsumerPhase::Polling,
            final(self).tasks == old(self).tasks,
            final(self).heartbeat_interval_ns == old(self).heartbeat_interval_ns,
            final(self).last_heartbeat_ns == old(self).last_heartbeat_ns,
            final(self).stats.claimed == old(self).stats.claimed,
            final(self).stats.empty_polls == old(self).stats.empty_polls,
            final(self).stats.latency_ns@ == old(self).stats.latency_ns@,
    {
        let mut previous: Vec<BucketState> = Vec::new();
        std::mem::swap(&mut previous, &mut self.bucket_states);
        let merged = merge_bucket_states(previous, owned_buckets, now_ns);
        let limit: usize = if merged.len() == 0 { 0 } else { merged.len() - 1 };
        self.bucket_states = merged;
        if self.cursor > limit {
            self.cursor = limit;
        }
        self.stats.bucket_refreshes = self.stats.bucket_refreshes + 1;
        self.last_refresh_ns = Some(now_ns);
        self.phase = ConsumerPhase::Polling;
    }

    /// Records that the heartbeat was written at `now_ns`; a bucket is
    /// picked next.
    pub fn on_heartbeat_sent(&mut self, now_ns: u64)
        requires
            old(self).wf(),
            old(self).phase == ConsumerPhase::AwaitHeartbeat,
        ensures
            final(self).wf(),
            final(self).last_heartbeat_ns == now_ns,
            final(self).phase == ConsumerPhase::Picking,
            final(self).tasks == old(self).tasks,
            final(self).heartbeat_interval_ns == old(self).heartbeat_interval_ns,
            final(self).bucket_states@ == old(self).bucket_states@,
            final(self).cursor == old(self).cursor,
            final(self).last_refresh_ns == old(self).last_refresh_ns,
            final(self).stats.claimed == old(self).stats.claimed,
            final(self).stats.empty_polls == old(self).stats.empty_polls,
            final(self).stats.bucket_refreshes == old(self).stats.bucket_refreshes,
            final(self).stats.latency_ns@ == old(self).stats.latency_ns@,
    {
        self.last_heartbeat_ns = now_ns;
        self.phase = ConsumerPhase::Picking;
    }

    /// Records how many jobs the pending receive claimed, at `now_ns`. An
    /// empty receive counts an empty poll and backs the bucket off
    /// (`bucket_empty_backoff` of its misses); a non-empty one makes the
    /// bucket ready again at once, and the jobs must then be acknowledged.
    /// Returns whether there are jobs to acknowledge.
    pub fn on_jobs_received(&mut self, received: usize, now_ns: u64) -> (must_ack: bool)
        requires
            old(self).wf(),
            old(self).phase is AwaitReceive,
            received == 0 ==> old(self).stats.empty_polls < u64::MAX,
            received == 0 ==> ({
                let index = old(self).phase->AwaitReceive_index;
                let misses = old(self).bucket_states@[index as int].empty_misses;
                let next = if misses < u32::MAX { (misses + 1) as u32 } else { misses };
                now_ns + backoff_millis(next) * NANOS_PER_MILLI <= u64::MAX
            }),
        ensures
            final(self).wf(),
            must_ack == (received > 0),
            ({
                let index = old(self).phase->AwaitReceive_index as int;
                let old_state = old(self).bucket_states@[index];
                let misses = if received == 0 {
                    if old_state.empty_misses < u32::MAX { (old_state.empty_misses + 1) as u32 } else { old_state.empty_misses }
                } else {
                    0u32
                };
                &&& final(self).bucket_states@ == old(self).bucket_states@.update(
                    index,
                    BucketState {
                        bucket: old_state.bucket,
                        empty_misses: misses,
                        ready_at_ns: if received == 0 {
                            (now_ns + backoff_millis(misses) * NANOS_PER_MILLI) as u64
                        } else {
                            now_ns
                        },
                    },
                )
            }),
            final(self).stats.empty_polls == old(self).stats.empty_polls + if received == 0 {
                1int
            } else {
                0int
            },
            final(self).phase == if received == 0 {
                ConsumerPhase::Top
            } else {
                ConsumerPhase::AwaitAck
            },
            final(self).tasks == old(self).tasks,
            final(self).heartbeat_interval_ns == old(self).heartbeat_interval_ns,
            final(self).cursor == old(self).cursor,
            final(self).last_heartbeat_ns == old(self).last_heartbeat_ns,
            final(self).last_refresh_ns == old(self).last_refresh_ns,
            final(self).stats.claimed == old(self).stats.claimed,
            final(self).stats.bucket_refreshes == old(self).stats.bucket_refreshes,
            final(self).stats.latency_ns@ == old(self).stats.latency_ns@,
    {
        let index = match self.phase {
            ConsumerPhase::AwaitReceive { index } => index,
            _ => 0,
        };
        let state = self.bucket_states[index];
        if received == 0 {
            self.stats.empty_polls = self.stats.empty_polls + 1;
            let misses = state.empty_misses.saturating_add(1);
            let backoff = bucket_empty_backoff(misses);
            self.bucket_states.set(
                index,
                BucketState { bucket: state.bucket, empty_misses: misses, ready_at_ns: now_ns + backoff },
            );
            self.phase = ConsumerPhase::Top;
            false
        } else {
            self.bucket_states.set(
                index,
                BucketState { bucket: state.bucket, empty_misses: 0, ready_at_ns: now_ns },
            );
            self.phase = ConsumerPhase::AwaitAck;
            true
        }
    }

    /// Records the acknowledgment of claimed jobs: `claimed` of them were
    /// still leased and are now done, with `latencies_ns` their end-to-end
    /// latencies (one per acknowledged job that was claimed here, so at most
    /// `claimed`; as many as `claimed` keeps one latency per claimed job). When none was acknowledged, an empty poll is counted and
    /// the loop must sleep for 1 ms (returned); otherwise the latencies are
    /// kept and the claimed count grows. The loop then starts over.
    pub fn on_jobs_acked(&mut self, claimed: u64, latencies_ns: Vec<u64>) -> (sleep_nanos: Option<u64>)
        requires
            old(self).wf(),
            old(self).phase == ConsumerPhase::AwaitAck,
            claimed == 0 ==> old(self).stats.empty_polls < u64::MAX,
            claimed > 0 ==> old(self).stats.claimed + claimed <= u64::MAX,
            latencies_ns@.len() <= claimed,
        ensures
            final(self).wf(),
            old(self).stats.latency_ns@.len() == old(self).stats.claimed && latencies_ns@.len() == claimed
                ==> final(self).stats.latency_ns@.len() == final(self).stats.claimed,
            sleep_nanos == if claimed == 0 {
                Some(NANOS_PER_MILLI)
            } else {
                None::<u64>
            },
            final(self).stats.empty_polls == old(self).stats.empty_polls + if claimed == 0 {
                1int
            } else {
                0int
            },
            final(self).stats.claimed == old(self).stats.claimed + claimed,
            final(self).stats.latency_ns@ == if claimed == 0 {
                old(self).stats.latency_ns@
            } else {
                old(self).stats.latency_ns@ + latencies_ns@
            },
            final(self).phase == ConsumerPhase::Top,
            final(self).tasks == old(self).tasks,
            final(self).heartbeat_interval_ns == old(self).heartbeat_interval_ns,
            final(self).bucket_states@ == old(self).bucket_states@,
            final(self).cursor == old(self).cursor,
            final(self).last_heartbeat_ns == old(self).last_heartbeat_ns,
            final(self).last_refresh_ns == old(self).last_refresh_ns,
            final(self).stats.bucket_refreshes == old(self).stats.bucket_refreshes,
    {
        self.phase = ConsumerPhase::Top;
        if claimed == 0 {
            self.stats.empty_polls = self.stats.empty_polls + 1;
            return Some(NANOS_PER_MILLI);
        }
        let mut latencies = latencies_ns;
        self.stats.latency_ns.append(&mut latencies);
        self.stats.claimed = self.stats.claimed + claimed;
        None
    }
}


/// The shape of a hyphenated UUID text: 36 characters, hyphens at 8, 13,
/// 18 and 23, and a lowercase hexadecimal digit everywhere else.
pub open spec fn is_uuid_text(text: Seq<char>) -> bool {
    &&& text.len() == 36
    &&& forall|i: int|
        0 <= i < 36 ==> if i == 8 || i == 13 || i == 18 || i == 23 {
            #[trigger] text[i] == '-'
        } else {
            ('0' <= text[i] <= '9') || ('a' <= text[i] <= 'f')
        }
}

/// Calls `uuid::Uuid::new_v4` and writes the id with its `Display`
/// (hyphenated, lowercase). The id is random; what is claimed is the shape
/// of every such text (`is_uuid_text`).
#[verifier::external_body]
fn new_v4_uuid_text() -> (text: String)
    ensures
        is_uuid_text(text@),
{
    uuid::Uuid::new_v4().to_string()
}

/// A worker id: `worker-`, the consumer's number, `-`, a unique suffix.
pub open spec fn worker_id_chars(consumer_id: usize, unique: Seq<char>) -> Seq<char> {
    "worker-"@ + decimal_chars(consumer_id as nat) + "-"@ + unique
}

/// The worker id of consumer `consumer_id` with the given unique suffix.
pub fn worker_id_from(consumer_id: usize, unique: &str) -> (id: String)
    ensures
        id@ == worker_id_chars(consumer_id, unique@),
{
    let mut id = String::from_str("worker-");
    push_decimal(&mut id, consumer_id as u64);
    id.append("-");
    id.append(unique);
    id
}

/// A fresh worker id for consumer `consumer_id`, unique by a random UUID.
pub fn new_worker_id(consumer_id: usize) -> (id: String)
    ensures
        exists|unique: Seq<char>| is_uuid_text(unique) && id@ == #[trigger] worker_id_chars(consumer_id, unique),
{
    let unique = new_v4_uuid_text();
    let id = worker_id_from(consumer_id, unique.as_str());
    assert(id@ == worker_id_chars(consumer_id, unique@));
    id
}

} // verus!
