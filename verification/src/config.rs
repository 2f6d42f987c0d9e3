//! The benchmark's settings, and the checks made on them before anything
//! runs.

use vstd::prelude::*;

verus! {

/// Which part of the queue's life a run measures.
#[derive(Clone, Copy, Debug, PartialEq, Eq, Structural)]
pub enum BenchMode {
    /// Producers only.
    InsertOnly,
    /// Producers fill the queue, then consumers drain it.
    DrainOnly,
    /// Producers and consumers at the same time.
    Concurrent,
}

/// All settings of a benchmark run (or of a matrix sweep of runs).
#[derive(Clone, Debug)]
pub struct Args {
    pub endpoint: String,
    pub user: String,
    pub pass: String,
    pub namespace: String,
    pub database: String,
    pub tasks: u64,
    pub mode: BenchMode,
    pub num_total_jobs: Option<u64>,
    pub producers: usize,
    pub consumers: usize,
    pub buckets: u32,
    pub producer_batch: usize,
    pub consumer_batch: usize,
    pub payload_bytes: usize,
    pub lease_secs: u64,
    pub job_ms: u64,
    pub run: Option<String>,
    pub output: Option<String>,
    pub export: Option<String>,
    pub no_html: bool,
    pub separate_clients: bool,
    pub reset: bool,
    pub matrix: bool,
    pub matrix_tasks: Vec<u64>,
    pub matrix_producers: Vec<usize>,
    pub matrix_consumers: Vec<usize>,
    pub matrix_buckets: Vec<u32>,
    pub matrix_producer_batches: Vec<usize>,
    pub matrix_receive_batches: Vec<usize>,
    pub matrix_job_ms: Vec<u64>,
    pub matrix_modes: Vec<BenchMode>,
    pub matrix_repeats: usize,
    pub matrix_explain: bool,
}

/// The settings as mathematical values.
pub ghost struct ArgsView {
    pub endpoint: Seq<char>,
    pub user: Seq<char>,
    pub pass: Seq<char>,
    pub namespace: Seq<char>,
    pub database: Seq<char>,
    pub tasks: u64,
    pub mode: BenchMode,
    pub num_total_jobs: Option<u64>,
    pub producers: usize,
    pub consumers: usize,
    pub buckets: u32,
    pub producer_batch: usize,
    pub consumer_batch: usize,
    pub payload_bytes: usize,
    pub lease_secs: u64,
    pub job_ms: u64,
    pub run: Option<Seq<char>>,
    pub output: Option<Seq<char>>,
    pub export: Option<Seq<char>>,
    pub no_html: bool,
    pub separate_clients: bool,
    pub reset: bool,
    pub matrix: bool,
    pub matrix_tasks: Seq<u64>,
    pub matrix_producers: Seq<usize>,
    pub matrix_consumers: Seq<usize>,
    pub matrix_buckets: Seq<u32>,
    pub matrix_producer_batches: Seq<usize>,
    pub matrix_receive_batches: Seq<usize>,
    pub matrix_job_ms: Seq<u64>,
    pub matrix_modes: Seq<BenchMode>,
    pub matrix_repeats: usize,
    pub matrix_explain: bool,
}

/// The characters of an optional string.
pub open spec fn opt_chars(s: Option<String>) -> Option<Seq<char>> {
    match s {
        Some(s) => Some(s@),
        None => None,
    }
}

impl View for Args {
    type V = ArgsView;

    open spec fn view(&self) -> ArgsView {
        ArgsView {
            endpoint: self.endpoint@,
            user: self.user@,
            pass: self.pass@,
            namespace: self.namespace@,
            database: self.database@,
            tasks: self.tasks,
            mode: self.mode,
            num_total_jobs: self.num_total_jobs,
            producers: self.producers,
            consumers: self.consumers,
            buckets: self.buckets,
            producer_batch: self.producer_batch,
            consumer_batch: self.consumer_batch,
            payload_bytes: self.payload_bytes,
            lease_secs: self.lease_secs,
            job_ms: self.job_ms,
            run: opt_chars(self.run),
            output: opt_chars(self.output),
            export: opt_chars(self.export),
            no_html: self.no_html,
            separate_clients: self.separate_clients,
            reset: self.reset,
            matrix: self.matrix,
            matrix_tasks: self.matrix_tasks@,
            matrix_producers: self.matrix_producers@,
            matrix_consumers: self.matrix_consumers@,
            matrix_buckets: self.matrix_buckets@,
            matrix_producer_batches: self.matrix_producer_batches@,
            matrix_receive_batches: self.matrix_receive_batches@,
            matrix_job_ms: self.matrix_job_ms@,
            matrix_modes: self.matrix_modes@,
            matrix_repeats: self.matrix_repeats,
            matrix_explain: self.matrix_explain,
        }
    }
}

/// Whether the settings ask for a matrix sweep rather than a single run.
pub open spec fn spec_is_matrix(a: ArgsView) -> bool {
    a.matrix || a.matrix_tasks.len() != 0 || a.matrix_producers.len() != 0
        || a.matrix_consumers.len() != 0 || a.matrix_buckets.len() != 0
        || a.matrix_producer_batches.len() != 0 || a.matrix_receive_batches.len() != 0
        || a.matrix_job_ms.len() != 0 || a.matrix_modes.len() != 0 || a.matrix_repeats > 1
}

/// A setting that the benchmark refuses.
#[derive(Debug)]
pub enum ArgsError {
    NumTotalJobsWithInsertOnly,
    ZeroProducers,
    ZeroConsumers,
    ZeroBuckets,
    ZeroProducerBatch,
    ZeroConsumerBatch,
    ZeroMatrixRepeats,
    /// A matrix list, named by its flag, holds a zero.
    ZeroMatrixEntry { name: String },
    /// The `--run` name is empty or holds a path separator.
    InvalidRunName,
}

/// An `ArgsError` as a mathematical value.
pub ghost enum ArgsErrorView {
    NumTotalJobsWithInsertOnly,
    ZeroProducers,
    ZeroConsumers,
    ZeroBuckets,
    ZeroProducerBatch,
    ZeroConsumerBatch,
    ZeroMatrixRepeats,
    ZeroMatrixEntry { name: Seq<char> },
    InvalidRunName,
}

impl View for ArgsError {
    type V = ArgsErrorView;

    open spec fn view(&self) -> ArgsErrorView {
        match self {
            ArgsError::NumTotalJobsWithInsertOnly => ArgsErrorView::NumTotalJobsWithInsertOnly,
            ArgsError::ZeroProducers => ArgsErrorView::ZeroProducers,
            ArgsError::ZeroConsumers => ArgsErrorView::ZeroConsumers,
            ArgsError::ZeroBuckets => ArgsErrorView::ZeroBuckets,
            ArgsError::ZeroProducerBatch => ArgsErrorView::ZeroProducerBatch,
            ArgsError::ZeroConsumerBatch => ArgsErrorView::ZeroConsumerBatch,
            ArgsError::ZeroMatrixRepeats => ArgsErrorView::ZeroMatrixRepeats,
            ArgsError::ZeroMatrixEntry { name } => ArgsErrorView::ZeroMatrixEntry { name: name@ },
            ArgsError::InvalidRunName => ArgsErrorView::InvalidRunName,
        }
    }
}

/// The message that reports an error.
pub open spec fn error_message(e: ArgsErrorView) -> Seq<char> {
    match e {
        ArgsErrorView::NumTotalJobsWithInsertOnly => "--num-total-jobs is a drain/workdown input; use --tasks with --mode insert-only"@,
        ArgsErrorView::ZeroProducers => "--producers must be greater than zero"@,
        ArgsErrorView::ZeroConsumers => "--consumers must be greater than zero"@,
        ArgsErrorView::ZeroBuckets => "--buckets must be greater than zero"@,
        ArgsErrorView::ZeroProducerBatch => "--producer-batch must be greater than zero"@,
        ArgsErrorView::ZeroConsumerBatch => "--consumer-batch must be greater than zero"@,
        ArgsErrorView::ZeroMatrixRepeats => "--matrix-repeats must be greater than zero"@,
        ArgsErrorView::ZeroMatrixEntry { name } => "--"@ + name + " entries must be greater than zero"@,
        ArgsErrorView::InvalidRunName => "--run name must be non-empty and contain no path separators"@,
    }
}

impl ArgsError {
    /// The text of the error.
    pub fn message(&self) -> (text: String)
        ensures
            text@ == error_message(self@),
    {
        match self {
            ArgsError::NumTotalJobsWithInsertOnly => String::from_str(
                "--num-total-jobs is a drain/workdown input; use --tasks with --mode insert-only",
            ),
            ArgsError::ZeroProducers => String::from_str("--producers must be greater than zero"),
            ArgsError::ZeroConsumers => String::from_str("--consumers must be greater than zero"),
            ArgsError::ZeroBuckets => String::from_str("--buckets must be greater than zero"),
            ArgsError::ZeroProducerBatch => String::from_str(
                "--producer-batch must be greater than zero",
            ),
            ArgsError::ZeroConsumerBatch => String::from_str(
                "--consumer-batch must be greater than zero",
            ),
            ArgsError::ZeroMatrixRepeats => String::from_str(
                "--matrix-repeats must be greater than zero",
            ),
            ArgsError::ZeroMatrixEntry { name } => {
                let mut text = String::from_str("--");
                text.append(name.as_str());
                text.append(" entries must be greater than zero");
                text
            },
            ArgsError::InvalidRunName => String::from_str(
                "--run name must be non-empty and contain no path separators",
            ),
        }
    }
}

impl Args {
    /// Whether these settings ask for a matrix sweep: `--matrix`, any matrix
    /// list, or more than one repeat.
    pub fn is_matrix(&self) -> (matrix: bool)
        ensures
            matrix == spec_is_matrix(self@),
    {
        self.matrix || !self.matrix_tasks.is_empty() || !self.matrix_producers.is_empty()
            || !self.matrix_consumers.is_empty() || !self.matrix_buckets.is_empty()
            || !self.matrix_producer_batches.is_empty() || !self.matrix_receive_batches.is_empty()
            || !self.matrix_job_ms.is_empty() || !self.matrix_modes.is_empty()
            || self.matrix_repeats > 1
    }
}

/// The result of checking one matrix list: an error naming the flag when
/// the list holds a zero.
pub open spec fn non_zero_check(name: Seq<char>, has_zero: bool) -> Result<(), ArgsErrorView> {
    if has_zero {
        Err(ArgsErrorView::ZeroMatrixEntry { name })
    } else {
        Ok(())
    }
}

/// The outcome of a check, as a mathematical value.
pub open spec fn check_view(r: Result<(), ArgsError>) -> Result<(), ArgsErrorView> {
    match r {
        Ok(()) => Ok(()),
        Err(e) => Err(e@),
    }
}

/// Refuses a list of `u64` settings that holds a zero.
pub fn validate_non_zero_u64(name: &str, values: &[u64]) -> (result: Result<(), ArgsError>)
    ensures
        check_view(result) == non_zero_check(name@, values@.contains(0u64)),
{
    let mut i: usize = 0;
    while i < values.len()
        invariant
            0 <= i <= values@.len(),
            forall|j: int| 0 <= j < i ==> values@[j] != 0,
        decreases values@.len() - i,
    {
        if values[i] == 0 {
            assert(values@.contains(0u64)) by {
                assert(values@[i as int] == 0);
            }
            return Err(ArgsError::ZeroMatrixEntry { name: String::from_str(name) });
        }
        i = i + 1;
    }
    Ok(())
}

/// Refuses a list of `usize` settings that holds a zero.
pub fn validate_non_zero_usize(name: &str, values: &[usize]) -> (result: Result<(), ArgsError>)
    ensures
        check_view(result) == non_zero_check(name@, values@.contains(0usize)),
{
    let mut i: usize = 0;
    while i < values.len()
        invariant
            0 <= i <= values@.len(),
            forall|j: int| 0 <= j < i ==> values@[j] != 0,
        decreases values@.len() - i,
    {
        if values[i] == 0 {
            assert(values@.contains(0usize)) by {
                assert(values@[i as int] == 0);
            }
            return Err(ArgsError::ZeroMatrixEntry { name: String::from_str(name) });
        }
        i = i + 1;
    }
    Ok(())
}

/// Refuses a list of `u32` settings that holds a zero.
pub fn validate_non_zero_u32(name: &str, values: &[u32]) -> (result: Result<(), ArgsError>)
    ensures
        check_view(result) == non_zero_check(name@, values@.contains(0u32)),
{
    let mut i: usize = 0;
    while i < values.len()
        invariant
            0 <= i <= values@.len(),
            forall|j: int| 0 <= j < i ==> values@[j] != 0,
        decreases values@.len() - i,
    {
        if values[i] == 0 {
            assert(values@.contains(0u32)) by {
                assert(values@[i as int] == 0);
            }
            return Err(ArgsError::ZeroMatrixEntry { name: String::from_str(name) });
        }
        i = i + 1;
    }
    Ok(())
}

/// The first rule that the settings break, in the order the benchmark
/// checks them, or `Ok` when they break none.
pub open spec fn spec_validate_args(a: ArgsView) -> Result<(), ArgsErrorView> {
    if !spec_is_matrix(a) && a.num_total_jobs is Some && a.mode == BenchMode::InsertOnly {
        Err(ArgsErrorView::NumTotalJobsWithInsertOnly)
    } else if a.producers == 0 {
        Err(ArgsErrorView::ZeroProducers)
    } else if a.consumers == 0 {
        Err(ArgsErrorView::ZeroConsumers)
    } else if a.buckets == 0 {
        Err(ArgsErrorView::ZeroBuckets)
    } else if a.producer_batch == 0 {
        Err(ArgsErrorView::ZeroProducerBatch)
    } else if a.consumer_batch == 0 {
        Err(ArgsErrorView::ZeroConsumerBatch)
    } else if a.matrix_repeats == 0 {
        Err(ArgsErrorView::ZeroMatrixRepeats)
    } else if a.matrix_tasks.contains(0u64) {
        Err(ArgsErrorView::ZeroMatrixEntry { name: "matrix-tasks"@ })
    } else if a.matrix_producers.contains(0usize) {
        Err(ArgsErrorView::ZeroMatrixEntry { name: "matrix-producers"@ })
    } else if a.matrix_consumers.contains(0usize) {
        Err(ArgsErrorView::ZeroMatrixEntry { name: "matrix-consumers"@ })
    } else if a.matrix_buckets.contains(0u32) {
        Err(ArgsErrorView::ZeroMatrixEntry { name: "matrix-buckets"@ })
    } else if a.matrix_producer_batches.contains(0usize) {
        Err(ArgsErrorView::ZeroMatrixEntry { name: "matrix-producer-batches"@ })
    } else if a.matrix_receive_batches.contains(0usize) {
        Err(ArgsErrorView::ZeroMatrixEntry { name: "matrix-receive-batches"@ })
    } else {
        Ok(())
    }
}

/// Checks the settings, in the benchmark's order: `--num-total-jobs` is not
/// for an insert-only single run; worker counts, bucket count, batch sizes
/// and repeats are positive; the matrix lists (but for job times and modes)
/// hold no zero.
pub fn validate_args(args: &Args) -> (result: Result<(), ArgsError>)
    ensures
        check_view(result) == spec_validate_args(args@),
{
    if !args.is_matrix() && args.num_total_jobs.is_some() && args.mode == BenchMode::InsertOnly {
        return Err(ArgsError::NumTotalJobsWithInsertOnly);
    }
    if args.producers == 0 {
        return Err(ArgsError::ZeroProducers);
    }
    if args.consumers == 0 {
        return Err(ArgsError::ZeroConsumers);
    }
    if args.buckets == 0 {
        return Err(ArgsError::ZeroBuckets);
    }
    if args.producer_batch == 0 {
        return Err(ArgsError::ZeroProducerBatch);
    }
    if args.consumer_batch == 0 {
        return Err(ArgsError::ZeroConsumerBatch);
    }
    if args.matrix_repeats == 0 {
        return Err(ArgsError::ZeroMatrixRepeats);
    }
    validate_non_zero_u64("matrix-tasks", args.matrix_tasks.as_slice())?;
    validate_non_zero_usize("matrix-producers", args.matrix_producers.as_slice())?;
    validate_non_zero_usize("matrix-consumers", args.matrix_consumers.as_slice())?;
    validate_non_zero_u32("matrix-buckets", args.matrix_buckets.as_slice())?;
    validate_non_zero_usize("matrix-producer-batches", args.matrix_producer_batches.as_slice())?;
    validate_non_zero_usize("matrix-receive-batches", args.matrix_receive_batches.as_slice())?;
    Ok(())
}

/// The mode a single run actually uses: a fixed work-down
/// (`--num-total-jobs`) turns a concurrent run into a drain run.
pub open spec fn spec_effective_mode(num_total_jobs: Option<u64>, mode: BenchMode) -> BenchMode {
    if num_total_jobs is Some && mode == BenchMode::Concurrent {
        BenchMode::DrainOnly
    } else {
        mode
    }
}

/// The mode that a run with these settings executes.
pub fn effective_mode(args: &Args) -> (mode: BenchMode)
    ensures
        mode == spec_effective_mode(args.num_total_jobs, args.mode),
{
    if args.num_total_jobs.is_some() && args.mode == BenchMode::Concurrent {
        BenchMode::DrainOnly
    } else {
        args.mode
    }
}

/// A sweep is asked for by `--matrix`, by any non-empty matrix list or by
/// more than one repeat, and by nothing else: settings with none of these
/// make a single run.
pub proof fn lemma_matrix_settings_ask_for_a_sweep(a: ArgsView)
    ensures
        a.matrix ==> spec_is_matrix(a),
        a.matrix_tasks.len() > 0 ==> spec_is_matrix(a),
        a.matrix_producers.len() > 0 ==> spec_is_matrix(a),
        a.matrix_consumers.len() > 0 ==> spec_is_matrix(a),
        a.matrix_buckets.len() > 0 ==> spec_is_matrix(a),
        a.matrix_producer_batches.len() > 0 ==> spec_is_matrix(a),
        a.matrix_receive_batches.len() > 0 ==> spec_is_matrix(a),
        a.matrix_job_ms.len() > 0 ==> spec_is_matrix(a),
        a.matrix_modes.len() > 0 ==> spec_is_matrix(a),
        a.matrix_repeats > 1 ==> spec_is_matrix(a),
        !a.matrix && a.matrix_tasks.len() == 0 && a.matrix_producers.len() == 0 && a.matrix_consumers.len()
            == 0 && a.matrix_buckets.len() == 0 && a.matrix_producer_batches.len() == 0
            && a.matrix_receive_batches.len() == 0 && a.matrix_job_ms.len() == 0 && a.matrix_modes.len()
            == 0 && a.matrix_repeats <= 1 ==> !spec_is_matrix(a),
{
}

/// Accepted settings have positive worker counts, bucket count, batch sizes
/// and repeats, and no zero in the matrix lists of tasks, producers,
/// consumers, buckets, producer batches and receive batches; settings that
/// break any of these are refused.
pub proof fn lemma_accepted_settings_have_no_zero(a: ArgsView)
    ensures
        spec_validate_args(a) is Ok ==> {
            &&& a.producers > 0
            &&& a.consumers > 0
            &&& a.buckets > 0
            &&& a.producer_batch > 0
            &&& a.consumer_batch > 0
            &&& a.matrix_repeats > 0
            &&& !a.matrix_tasks.contains(0u64)
            &&& !a.matrix_producers.contains(0usize)
            &&& !a.matrix_consumers.contains(0usize)
            &&& !a.matrix_buckets.contains(0u32)
            &&& !a.matrix_producer_batches.contains(0usize)
            &&& !a.matrix_receive_batches.contains(0usize)
        },
        a.producers == 0 || a.consumers == 0 || a.buckets == 0 || a.producer_batch == 0
            || a.consumer_batch == 0 || a.matrix_repeats == 0 || a.matrix_tasks.contains(0u64)
            || a.matrix_producers.contains(0usize) || a.matrix_consumers.contains(0usize)
            || a.matrix_buckets.contains(0u32) || a.matrix_producer_batches.contains(0usize)
            || a.matrix_receive_batches.contains(0usize) ==> spec_validate_args(a) is Err,
{
}

/// A run executes the mode asked for, with one exception: a concurrent run
/// with a fixed work-down (`--num-total-jobs`) drains instead.
pub proof fn lemma_runs_execute_the_requested_mode(num_total_jobs: Option<u64>, mode: BenchMode)
    ensures
        mode != BenchMode::Concurrent ==> spec_effective_mode(num_total_jobs, mode) == mode,
        num_total_jobs is None ==> spec_effective_mode(num_total_jobs, mode) == mode,
        mode == BenchMode::Concurrent && num_total_jobs is Some ==> spec_effective_mode(num_total_jobs, mode)
            == BenchMode::DrainOnly,
{
}

} // verus!
