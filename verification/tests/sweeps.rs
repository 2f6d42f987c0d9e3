use surreal_queue_bench::config::{Args, BenchMode};
use surreal_queue_bench::matrix::{matrix_cell, matrix_cells, matrix_config, matrix_values, MatrixPlan};

fn base_args() -> Args {
    Args {
        endpoint: "e".to_string(),
        user: "u".to_string(),
        pass: "p".to_string(),
        namespace: "n".to_string(),
        database: "d".to_string(),
        tasks: 100,
        mode: BenchMode::Concurrent,
        num_total_jobs: None,
        producers: 4,
        consumers: 4,
        buckets: 64,
        producer_batch: 10,
        consumer_batch: 20,
        payload_bytes: 3,
        lease_secs: 30,
        job_ms: 0,
        run: Some("sweep".to_string()),
        output: Some("out.json".to_string()),
        export: Some("out.html".to_string()),
        no_html: false,
        separate_clients: false,
        reset: false,
        matrix: true,
        matrix_tasks: Vec::new(),
        matrix_producers: Vec::new(),
        matrix_consumers: Vec::new(),
        matrix_buckets: Vec::new(),
        matrix_producer_batches: Vec::new(),
        matrix_receive_batches: Vec::new(),
        matrix_job_ms: Vec::new(),
        matrix_modes: Vec::new(),
        matrix_repeats: 1,
        matrix_explain: true,
    }
}

#[test]
fn matrix_values_fall_back_to_the_base_value() {
    assert_eq!(matrix_values::<u64>(&[], 7), vec![7]);
    assert_eq!(matrix_values(&[1usize, 2, 3], 7), vec![1, 2, 3]);
}

#[test]
fn plan_without_lists_is_a_single_run() {
    let args = base_args();
    let plan = MatrixPlan::new(&args).unwrap();
    assert_eq!(plan.total_runs, 1);
    assert_eq!(plan.modes, vec![BenchMode::Concurrent]);
    let mut args = base_args();
    args.num_total_jobs = Some(5);
    let plan = MatrixPlan::new(&args).unwrap();
    assert_eq!(plan.modes, vec![BenchMode::DrainOnly]);
}

#[test]
fn cells_follow_nested_loop_order() {
    let mut args = base_args();
    args.matrix_tasks = vec![10, 20];
    args.matrix_modes = vec![BenchMode::InsertOnly, BenchMode::DrainOnly];
    args.matrix_consumers = vec![1, 2, 3];
    args.matrix_job_ms = vec![0, 5];
    args.matrix_repeats = 2;
    let plan = MatrixPlan::new(&args).unwrap();
    assert_eq!(plan.total_runs, 2 * 2 * 3 * 2 * 2);
    let cells = matrix_cells(&plan);
    let mut expected = Vec::new();
    for repeat in 1..=2usize {
        for &tasks in &[10u64, 20] {
            for &mode in &[BenchMode::InsertOnly, BenchMode::DrainOnly] {
                for &consumers in &[1usize, 2, 3] {
                    for &job_ms in &[0u64, 5] {
                        expected.push((repeat, tasks, mode, consumers, job_ms));
                    }
                }
            }
        }
    }
    assert_eq!(cells.len(), expected.len());
    for (k, (cell, want)) in cells.iter().zip(expected.iter()).enumerate() {
        assert_eq!(cell.run_index, k + 1);
        assert_eq!((cell.repeat, cell.tasks, cell.mode, cell.consumers, cell.job_ms), *want);
        assert_eq!(cell.producers, 4);
        assert_eq!(cell.buckets, 64);
        assert_eq!(cell.producer_batch, 10);
        assert_eq!(cell.consumer_batch, 20);
    }
    assert_eq!(matrix_cell(&plan, 13), cells[13]);
}

#[test]
fn an_overflowing_run_count_has_no_plan() {
    let mut args = base_args();
    args.matrix_repeats = usize::MAX;
    args.matrix_tasks = vec![1, 2];
    assert!(MatrixPlan::new(&args).is_none());
    args.matrix_tasks = vec![1];
    assert_eq!(MatrixPlan::new(&args).unwrap().total_runs, usize::MAX);
}

#[test]
fn run_settings_take_the_cell_and_write_no_files() {
    let mut args = base_args();
    args.matrix_modes = vec![BenchMode::DrainOnly, BenchMode::Concurrent];
    let plan = MatrixPlan::new(&args).unwrap();
    let cells = matrix_cells(&plan);
    let drain = args.for_matrix_cell(&cells[0]);
    assert_eq!(drain.mode, BenchMode::DrainOnly);
    assert_eq!(drain.num_total_jobs, Some(100));
    assert_eq!(drain.output, None);
    assert_eq!(drain.export, None);
    assert!(drain.no_html);
    assert!(drain.reset);
    assert_eq!(drain.endpoint, "e");
    assert_eq!(drain.run, Some("sweep".to_string()));
    assert_eq!(drain.payload_bytes, 3);
    let concurrent = args.for_matrix_cell(&cells[1]);
    assert_eq!(concurrent.mode, BenchMode::Concurrent);
    assert_eq!(concurrent.num_total_jobs, None);
}

#[test]
fn matrix_config_records_the_plan() {
    let mut args = base_args();
    args.matrix_producers = vec![1, 2];
    args.matrix_repeats = 3;
    let plan = MatrixPlan::new(&args).unwrap();
    let config = matrix_config(&args, plan);
    assert_eq!(config.total_runs, 6);
    assert_eq!(config.repeats, 3);
    assert_eq!(config.matrix_producers, vec![1, 2]);
    assert_eq!(config.matrix_tasks, vec![100]);
    assert_eq!(config.queue, "bench");
    assert_eq!(config.queue_model, "record_range_minimal_tokens");
    assert!(config.separate_clients);
    assert!(config.captured_explain);
}
