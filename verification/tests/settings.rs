use surreal_queue_bench::config::{
    effective_mode, validate_args, validate_non_zero_u32, validate_non_zero_u64,
    validate_non_zero_usize, Args, ArgsError, BenchMode,
};
use surreal_queue_bench::paths::{html_output_path, resolve_run_paths, wants_report};

fn base_args() -> Args {
    Args {
        endpoint: "127.0.0.1:8000".to_string(),
        user: "root".to_string(),
        pass: "root".to_string(),
        namespace: "queue_bench".to_string(),
        database: "queue_bench".to_string(),
        tasks: 50_000,
        mode: BenchMode::Concurrent,
        num_total_jobs: None,
        producers: 4,
        consumers: 4,
        buckets: 1024,
        producer_batch: 250,
        consumer_batch: 100,
        payload_bytes: 0,
        lease_secs: 30,
        job_ms: 0,
        run: None,
        output: None,
        export: None,
        no_html: false,
        separate_clients: false,
        reset: true,
        matrix: false,
        matrix_tasks: Vec::new(),
        matrix_producers: Vec::new(),
        matrix_consumers: Vec::new(),
        matrix_buckets: Vec::new(),
        matrix_producer_batches: Vec::new(),
        matrix_receive_batches: Vec::new(),
        matrix_job_ms: Vec::new(),
        matrix_modes: Vec::new(),
        matrix_repeats: 1,
        matrix_explain: false,
    }
}

fn error_text(result: Result<(), ArgsError>) -> String {
    match result {
        Ok(()) => String::new(),
        Err(e) => e.message(),
    }
}

#[test]
fn default_settings_are_a_single_valid_run() {
    let args = base_args();
    assert!(!args.is_matrix());
    assert!(validate_args(&args).is_ok());
}

#[test]
fn any_matrix_setting_makes_a_matrix() {
    let mut args = base_args();
    args.matrix = true;
    assert!(args.is_matrix());
    let mut args = base_args();
    args.matrix_job_ms = vec![0, 5];
    assert!(args.is_matrix());
    let mut args = base_args();
    args.matrix_modes = vec![BenchMode::InsertOnly];
    assert!(args.is_matrix());
    let mut args = base_args();
    args.matrix_repeats = 2;
    assert!(args.is_matrix());
}

#[test]
fn num_total_jobs_is_refused_for_a_single_insert_only_run() {
    let mut args = base_args();
    args.num_total_jobs = Some(10);
    args.mode = BenchMode::InsertOnly;
    assert_eq!(
        error_text(validate_args(&args)),
        "--num-total-jobs is a drain/workdown input; use --tasks with --mode insert-only"
    );
    args.matrix = true;
    assert!(validate_args(&args).is_ok());
}

#[test]
fn zero_counts_are_refused_in_order() {
    let mut args = base_args();
    args.producers = 0;
    args.consumers = 0;
    assert_eq!(error_text(validate_args(&args)), "--producers must be greater than zero");
    args.producers = 1;
    assert_eq!(error_text(validate_args(&args)), "--consumers must be greater than zero");
    args.consumers = 1;
    args.buckets = 0;
    assert_eq!(error_text(validate_args(&args)), "--buckets must be greater than zero");
    args.buckets = 1;
    args.producer_batch = 0;
    assert_eq!(error_text(validate_args(&args)), "--producer-batch must be greater than zero");
    args.producer_batch = 1;
    args.consumer_batch = 0;
    assert_eq!(error_text(validate_args(&args)), "--consumer-batch must be greater than zero");
    args.consumer_batch = 1;
    args.matrix_repeats = 0;
    assert_eq!(error_text(validate_args(&args)), "--matrix-repeats must be greater than zero");
}

#[test]
fn zero_matrix_entries_are_refused_by_name() {
    let mut args = base_args();
    args.matrix_buckets = vec![16, 0];
    args.matrix_consumers = vec![1, 0];
    assert_eq!(
        error_text(validate_args(&args)),
        "--matrix-consumers entries must be greater than zero"
    );
    args.matrix_consumers = vec![1];
    assert_eq!(error_text(validate_args(&args)), "--matrix-buckets entries must be greater than zero");
    args.matrix_buckets = vec![16];
    args.matrix_job_ms = vec![0];
    assert!(validate_args(&args).is_ok());
}

#[test]
fn non_zero_checks_find_a_zero_anywhere() {
    assert!(validate_non_zero_u64("matrix-tasks", &[1, 2, 3]).is_ok());
    assert_eq!(
        error_text(validate_non_zero_u64("matrix-tasks", &[1, 0, 3])),
        "--matrix-tasks entries must be greater than zero"
    );
    assert!(validate_non_zero_usize("x", &[]).is_ok());
    assert!(validate_non_zero_usize("x", &[0]).is_err());
    assert!(validate_non_zero_u32("x", &[7, 0]).is_err());
    assert!(validate_non_zero_u32("x", &[7]).is_ok());
}

#[test]
fn a_fixed_workdown_turns_concurrent_into_drain() {
    let mut args = base_args();
    assert_eq!(effective_mode(&args), BenchMode::Concurrent);
    args.num_total_jobs = Some(100);
    assert_eq!(effective_mode(&args), BenchMode::DrainOnly);
    args.mode = BenchMode::InsertOnly;
    assert_eq!(effective_mode(&args), BenchMode::InsertOnly);
}

#[test]
fn html_path_is_skipped_by_no_html_then_prefers_export() {
    let mut args = base_args();
    assert_eq!(html_output_path(&args), None);
    assert!(!wants_report(&args));
    args.output = Some("out/report.json".to_string());
    assert_eq!(html_output_path(&args), Some("out/report.html".to_string()));
    assert!(wants_report(&args));
    args.output = Some("out/report".to_string());
    assert_eq!(html_output_path(&args), Some("out/report.html".to_string()));
    args.no_html = true;
    assert_eq!(html_output_path(&args), None);
    assert!(wants_report(&args));
    args.export = Some("page.htm".to_string());
    assert_eq!(html_output_path(&args), None);
    args.no_html = false;
    assert_eq!(html_output_path(&args), Some("page.htm".to_string()));
}

#[test]
fn a_run_name_fills_in_the_report_paths() {
    let mut args = base_args();
    args.run = Some("quick".to_string());
    let dir = resolve_run_paths(&mut args).ok().unwrap();
    assert_eq!(dir, Some("runs/quick".to_string()));
    assert_eq!(args.output, Some("runs/quick/report.json".to_string()));
    assert_eq!(args.export, Some("runs/quick/report.html".to_string()));
}

#[test]
fn a_run_name_keeps_given_paths_and_no_html() {
    let mut args = base_args();
    args.run = Some("r1".to_string());
    args.output = Some("mine.json".to_string());
    args.no_html = true;
    let dir = resolve_run_paths(&mut args).ok().unwrap();
    assert_eq!(dir, Some("runs/r1".to_string()));
    assert_eq!(args.output, Some("mine.json".to_string()));
    assert_eq!(args.export, None);
}

#[test]
fn bad_run_names_are_refused() {
    for name in ["", "a/b", "a\\b", "/"] {
        let mut args = base_args();
        args.run = Some(name.to_string());
        let err = resolve_run_paths(&mut args).err().unwrap();
        assert_eq!(err.message(), "--run name must be non-empty and contain no path separators");
        assert_eq!(args.output, None);
    }
    let mut args = base_args();
    assert_eq!(resolve_run_paths(&mut args).ok().unwrap(), None);
}
