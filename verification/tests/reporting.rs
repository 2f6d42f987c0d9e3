use surreal_queue_bench::clock::{elapsed_ns, nanos_as_i64, nanos_from_epoch, saturate_nanos, unix_ns_i64};
use surreal_queue_bench::config::{Args, BenchMode};
use surreal_queue_bench::report::{build_json_timings, json_config, summary_counts, BenchCounters, BenchResult};
use surreal_queue_bench::stats::{collect_worker_latencies, observe_duration, worker_totals, OpTimer, WorkerStats};
use surreal_queue_bench::summary::{avg_ns, downsample_ns, op_timing, summarize_latency};
use surreal_queue_bench::text::{encode_report_data, render_html_report, REPORT_PLACEHOLDER};

fn stats(claimed: u64, empty_polls: u64, bucket_refreshes: u64, latency_ns: Vec<u64>) -> WorkerStats {
    WorkerStats { claimed, empty_polls, bucket_refreshes, latency_ns }
}

#[test]
fn latencies_are_gathered_worker_after_worker() {
    let workers = vec![stats(0, 0, 0, vec![3, 1]), stats(0, 0, 0, vec![]), stats(0, 0, 0, vec![9])];
    assert_eq!(collect_worker_latencies(&workers, 16), vec![3, 1, 9]);
}

#[test]
fn worker_totals_add_up_and_detect_overflow() {
    let workers = vec![stats(1, 2, 3, vec![]), stats(10, 20, 30, vec![])];
    let totals = worker_totals(&workers);
    assert_eq!(totals.claimed, Some(11));
    assert_eq!(totals.empty_polls, Some(22));
    assert_eq!(totals.bucket_refreshes, Some(33));
    let workers = vec![stats(u64::MAX, 1, 0, vec![]), stats(1, 1, 0, vec![])];
    let totals = worker_totals(&workers);
    assert_eq!(totals.claimed, None);
    assert_eq!(totals.empty_polls, Some(2));
}

#[test]
fn observing_saturates_and_wraps_like_the_atomic_counter() {
    let mut timer = OpTimer::new();
    observe_duration(&mut timer, 5);
    observe_duration(&mut timer, u128::MAX);
    assert_eq!(timer.samples_ns, vec![5, u64::MAX]);
    assert_eq!(timer.total_ns, 4);
}

#[test]
fn latency_summary_of_samples() {
    let summary = summarize_latency(&[30, 10, 20, 25]);
    assert_eq!(summary.count, 4);
    assert_eq!(summary.min_ns, Some(10));
    assert_eq!(summary.max_ns, Some(30));
    assert_eq!(summary.mean_ns, Some(21));
    assert_eq!(summary.sorted_ns, vec![10, 20, 25, 30]);
    let empty = summarize_latency(&[]);
    assert_eq!(empty.count, 0);
    assert_eq!(empty.min_ns, None);
    assert_eq!(empty.mean_ns, None);
    assert_eq!(empty.max_ns, None);
}

#[test]
fn the_mean_of_huge_samples_does_not_overflow() {
    let summary = summarize_latency(&[u64::MAX, u64::MAX, u64::MAX - 2]);
    assert_eq!(summary.mean_ns, Some(u64::MAX - 1 - 0));
}

#[test]
fn average_per_call() {
    assert_eq!(avg_ns(100, 0), None);
    assert_eq!(avg_ns(100, 3), Some(33));
}

fn reference_downsample(samples: &[u64], max_samples: usize) -> Vec<u64> {
    if samples.is_empty() || max_samples == 0 {
        return Vec::new();
    }
    if samples.len() <= max_samples {
        return samples.to_vec();
    }
    let chunk_size = samples.len().div_ceil(max_samples);
    samples
        .chunks(chunk_size)
        .map(|chunk| {
            let sum: u128 = chunk.iter().map(|v| u128::from(*v)).sum();
            (sum / chunk.len() as u128) as u64
        })
        .collect()
}

#[test]
fn downsampling_averages_chunks() {
    assert_eq!(downsample_ns(&[], 5), Vec::<u64>::new());
    assert_eq!(downsample_ns(&[1, 2], 0), Vec::<u64>::new());
    assert_eq!(downsample_ns(&[1, 2, 3], 3), vec![1, 2, 3]);
    assert_eq!(downsample_ns(&[1, 3, 5, 7, 9], 2), vec![3, 8]);
    let samples: Vec<u64> = (0..2503).map(|i| (i * 7919 % 1000) as u64).collect();
    for max in [1usize, 2, 7, 1200, 2502] {
        assert_eq!(downsample_ns(&samples, max), reference_downsample(&samples, max));
    }
}

#[test]
fn op_timing_summarizes_a_timer() {
    let mut timer = OpTimer::new();
    for d in [4u128, 8, 6] {
        observe_duration(&mut timer, d);
    }
    let timing = op_timing(2, &timer);
    assert_eq!(timing.count, 2);
    assert_eq!(timing.total_ns, 18);
    assert_eq!(timing.avg_ns, Some(9));
    assert_eq!(timing.latency.min_ns, Some(4));
    assert_eq!(timing.latency.max_ns, Some(8));
    assert_eq!(timing.samples_ns, vec![4, 8, 6]);
}

#[test]
fn timings_count_each_call_by_its_completions() {
    let mut counters = BenchCounters::new();
    counters.ack_batches_completed = 3;
    observe_duration(&mut counters.ack_query, 30);
    counters.heartbeat_count = 1;
    let timings = build_json_timings(&counters);
    assert_eq!(timings.ack_query.count, 3);
    assert_eq!(timings.ack_query.avg_ns, Some(10));
    assert_eq!(timings.heartbeat.count, 1);
    assert_eq!(timings.heartbeat.avg_ns, Some(0));
    assert_eq!(timings.producer_query.avg_ns, None);
}

fn result(inserted: u64, consumed: u64) -> BenchResult {
    let mut counters = BenchCounters::new();
    counters.producer_batches_started = 5;
    counters.producer_batches_completed = 4;
    counters.receive_calls_started = 2;
    counters.receive_calls_completed = 3;
    counters.ack_errors = 1;
    BenchResult {
        inserted,
        consumed,
        worker_stats: vec![stats(1, 2, 3, vec![]), stats(4, 5, 6, vec![])],
        counters,
        latency_ns: Vec::new(),
        mode: BenchMode::Concurrent,
    }
}

#[test]
fn summary_counts_of_a_run() {
    let counts = summary_counts(&result(10, 7)).unwrap();
    assert_eq!(counts.final_backlog, 3);
    assert!(!counts.drained);
    assert_eq!(counts.producer_batches_in_flight, 1);
    assert_eq!(counts.receive_calls_in_flight, 0);
    assert_eq!(counts.ack_errors, 1);
    assert_eq!(counts.empty_polls, 7);
    assert_eq!(counts.bucket_refreshes, 9);
    let drained = summary_counts(&result(7, 7)).unwrap();
    assert!(drained.drained);
    assert_eq!(drained.final_backlog, 0);
    let behind = summary_counts(&result(2, 7)).unwrap();
    assert_eq!(behind.final_backlog, -5);
}

#[test]
fn an_overflowing_backlog_has_no_summary() {
    assert!(summary_counts(&result(i64::MAX as u64, u64::MAX)).is_none());
    assert!(summary_counts(&result(u64::MAX, 0)).is_some());
}

#[test]
fn json_config_describes_the_run() {
    let args = Args {
        endpoint: "e".to_string(),
        user: "u".to_string(),
        pass: "p".to_string(),
        namespace: "n".to_string(),
        database: "d".to_string(),
        tasks: 12,
        mode: BenchMode::Concurrent,
        num_total_jobs: Some(12),
        producers: 1,
        consumers: 2,
        buckets: 8,
        producer_batch: 3,
        consumer_batch: 4,
        payload_bytes: 5,
        lease_secs: 6,
        job_ms: 7,
        run: None,
        output: None,
        export: None,
        no_html: false,
        separate_clients: false,
        reset: true,
        matrix: false,
        matrix_tasks: Vec::new(),
        matrix_producers: Vec::new(),
        matrix_consumers: Vec::new(),
        matrix_buckets: Vec::new(),
        matrix_producer_batches: Vec::new(),
        matrix_receive_batches: Vec::new(),
        matrix_job_ms: Vec::new(),
        matrix_modes: Vec::new(),
        matrix_repeats: 1,
        matrix_explain: false,
    };
    let config = json_config(&args, BenchMode::DrainOnly);
    assert_eq!(config.num_total_jobs, 12);
    assert_eq!(config.shards, 8);
    assert_eq!(config.buckets, 8);
    assert!(config.fixed_workdown);
    assert!(config.separate_clients);
    assert_eq!(config.mode, BenchMode::DrainOnly);
    assert_eq!(config.queue, "bench");
}

#[test]
fn report_data_is_escaped_like_the_replace_chain() {
    let json = "{\"a\":\"<b>&c</b>\u{2028}\u{2029}é\"}";
    let expected = json
        .replace('<', "\\u003c")
        .replace('>', "\\u003e")
        .replace('&', "\\u0026")
        .replace('\u{2028}', "\\u2028")
        .replace('\u{2029}', "\\u2029");
    assert_eq!(encode_report_data(json), expected);
    assert_eq!(encode_report_data(""), "");
}

#[test]
fn the_page_embeds_the_data_at_every_placeholder() {
    let template = "<p>__REPORT_JSON__</p><i>__REPORT_JSON_</i>__REPORT_JSON____REPORT_JSON__";
    let page = render_html_report(template, "{\"x\":\"<\"}");
    assert_eq!(page, template.replace(REPORT_PLACEHOLDER, "{\"x\":\"\\u003c\"}"));
    assert_eq!(render_html_report("no marker", "{}"), "no marker");
}

#[test]
fn clocks_saturate() {
    assert_eq!(saturate_nanos(5), 5);
    assert_eq!(saturate_nanos(u128::MAX), u64::MAX);
    assert_eq!(nanos_as_i64(7), 7);
    assert_eq!(nanos_as_i64(u64::MAX), i64::MAX);
    assert!(unix_ns_i64() > 1_600_000_000_000_000_000);
    let started = std::time::Instant::now();
    let first = elapsed_ns(&started);
    let second = elapsed_ns(&started);
    assert!(second >= first);
}

#[test]
fn escaped_data_has_no_markup_characters() {
    let encoded = encode_report_data("</script><script>alert(1)&x</script>");
    assert!(!encoded.contains('<') && !encoded.contains('>') && !encoded.contains('&'));
}

#[test]
fn chart_series_never_exceed_the_limit() {
    let samples: Vec<u64> = (0..5000).collect();
    for max in [1usize, 3, 1200, 4999, 5000, 7000] {
        assert!(downsample_ns(&samples, max).len() <= max);
    }
}

#[test]
fn the_mean_lies_between_the_extremes() {
    let summary = summarize_latency(&[7, 1, 1, 100]);
    let (min, mean, max) = (summary.min_ns.unwrap(), summary.mean_ns.unwrap(), summary.max_ns.unwrap());
    assert!(min <= mean && mean <= max);
    assert_eq!(mean, 27);
}

#[test]
fn epoch_readings_clamp_and_count_before_the_epoch_as_zero() {
    assert_eq!(nanos_from_epoch(None), 0);
    assert_eq!(nanos_from_epoch(Some(0)), 0);
    assert_eq!(nanos_from_epoch(Some(1_700_000_000_000_000_000)), 1_700_000_000_000_000_000);
    assert_eq!(nanos_from_epoch(Some(i64::MAX as u128)), i64::MAX);
    assert_eq!(nanos_from_epoch(Some(u128::MAX)), i64::MAX);
}

#[test]
fn every_timing_block_is_the_op_timing_of_its_counter_and_timer() {
    let mut counters = BenchCounters::new();
    counters.producer_batches_completed = 2;
    for d in [40u128, 10, 30] {
        observe_duration(&mut counters.producer_query, d);
    }
    counters.receive_calls_completed = 1;
    observe_duration(&mut counters.select_query, 9);
    let timings = build_json_timings(&counters);
    let insert = &timings.producer_query;
    assert_eq!(insert.count, 2);
    assert_eq!(insert.total_ns, 80);
    assert_eq!(insert.avg_ns, Some(40));
    assert_eq!(insert.latency.count, 3);
    assert_eq!(insert.latency.sorted_ns, vec![10, 30, 40]);
    assert_eq!(insert.latency.min_ns, Some(10));
    assert_eq!(insert.latency.mean_ns, Some(26));
    assert_eq!(insert.latency.max_ns, Some(40));
    assert_eq!(insert.samples_ns, vec![40, 10, 30]);
    let receive = &timings.select_query;
    assert_eq!((receive.count, receive.avg_ns, receive.latency.min_ns), (1, Some(9), Some(9)));
    assert_eq!(receive.samples_ns, vec![9]);
    let refresh = &timings.bucket_refresh;
    assert_eq!((refresh.count, refresh.avg_ns, refresh.latency.count), (0, None, 0));
    assert!(refresh.samples_ns.is_empty() && refresh.latency.min_ns.is_none());
}

#[test]
fn a_latency_summary_ignores_the_order_of_samples() {
    let a = summarize_latency(&[5, 1, 9, 1, 3]);
    let b = summarize_latency(&[1, 3, 9, 5, 1]);
    assert_eq!(a.count, b.count);
    assert_eq!(a.sorted_ns, b.sorted_ns);
    assert_eq!((a.min_ns, a.mean_ns, a.max_ns), (b.min_ns, b.mean_ns, b.max_ns));
    assert_eq!(a.sorted_ns, vec![1, 1, 3, 5, 9]);
}
