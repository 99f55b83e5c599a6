use pdh::aggregate::Summary;
use pdh::aggregate::aggregate;
use pdh::aggregate::run_pipeline;
use pdh::batch::partition_batches;
use pdh::dispatch::DetectError;
use pdh::dispatch::FailureMode;
use pdh::dispatch::ImageOutcome;
use pdh::dispatch::add_faces;
use pdh::dispatch::collect_outcomes;
use pdh::dispatch::count_faces;
use pdh::scan::filter_image_paths;
use pdh::schema::BBox;
use pdh::schema::Detection;
use pdh::schema::DetectionResult;

fn face(x: u32, y: u32) -> Detection {
    Detection::new(0, BBox::from_rect(x, y, 10, 10), Some(900000))
}

fn result_with_faces(path: &str, n: usize) -> DetectionResult {
    let mut detections = Vec::new();
    let mut i: u32 = 0;
    while (i as usize) < n {
        detections.push(face(i, i));
        i += 1;
    }
    DetectionResult::new(String::from(path), detections)
}

#[test]
fn partition_makes_ceil_n_over_w_batches() {
    let items: Vec<u32> = vec![1, 2, 3, 4, 5];
    let batches = partition_batches(items, 2);
    assert_eq!(batches.len(), 3);
    assert_eq!(batches[0], vec![1, 2]);
    assert_eq!(batches[1], vec![3, 4]);
    assert_eq!(batches[2], vec![5]);
}

#[test]
fn partition_exact_multiple_has_full_batches() {
    let items: Vec<u32> = vec![1, 2, 3, 4];
    let batches = partition_batches(items, 2);
    assert_eq!(batches.len(), 2);
    assert_eq!(batches[0].len(), 2);
    assert_eq!(batches[1].len(), 2);
}

#[test]
fn partition_of_empty_input_is_empty() {
    let items: Vec<u32> = Vec::new();
    let batches = partition_batches(items, 3);
    assert!(batches.is_empty());
}

#[test]
fn partition_single_batch_when_w_exceeds_n() {
    let items: Vec<u32> = vec![7, 8];
    let batches = partition_batches(items, 16);
    assert_eq!(batches.len(), 1);
    assert_eq!(batches[0], vec![7, 8]);
}

#[test]
fn best_effort_keeps_exactly_the_survivors() {
    let outcomes = vec![
        ImageOutcome::Detected(result_with_faces("a.jpg", 2)),
        ImageOutcome::Failed(DetectError {
            path: String::from("bad.jpg"),
            message: String::from("undecodable"),
        }),
        ImageOutcome::Detected(result_with_faces("b.jpg", 0)),
    ];
    let results = collect_outcomes(outcomes, FailureMode::BestEffort).unwrap();
    assert_eq!(results.len(), 2);
    assert_eq!(results[0].path, "a.jpg");
    assert_eq!(results[1].path, "b.jpg");
}

#[test]
fn fail_fast_surfaces_the_first_failure_path() {
    let outcomes = vec![
        ImageOutcome::Detected(result_with_faces("a.jpg", 2)),
        ImageOutcome::Failed(DetectError {
            path: String::from("bad.jpg"),
            message: String::from("inference failed"),
        }),
        ImageOutcome::Failed(DetectError {
            path: String::from("later.jpg"),
            message: String::from("inference failed"),
        }),
    ];
    let err = collect_outcomes(outcomes, FailureMode::FailFast).unwrap_err();
    assert_eq!(err.path, "bad.jpg");
    assert_eq!(err.message, "inference failed");
}

#[test]
fn fail_fast_without_failures_keeps_everything() {
    let outcomes = vec![
        ImageOutcome::Detected(result_with_faces("a.jpg", 1)),
        ImageOutcome::Detected(result_with_faces("b.jpg", 3)),
    ];
    let results = collect_outcomes(outcomes, FailureMode::FailFast).unwrap();
    assert_eq!(results.len(), 2);
}

#[test]
fn counter_equals_sum_of_detection_counts() {
    let results = vec![
        result_with_faces("a.jpg", 2),
        result_with_faces("b.jpg", 0),
        result_with_faces("c.jpg", 5),
    ];
    assert_eq!(count_faces(&results), 7);
    // The same total through per-worker increments, one image at a time.
    let mut counter: u64 = 0;
    for r in &results {
        add_faces(&mut counter, r);
    }
    assert_eq!(counter, 7);
}

#[test]
fn counter_is_the_same_for_any_batching() {
    let results = vec![
        result_with_faces("a.jpg", 2),
        result_with_faces("b.jpg", 1),
        result_with_faces("c.jpg", 4),
    ];
    let whole = count_faces(&results);
    let mut reversed = results.clone();
    reversed.reverse();
    assert_eq!(count_faces(&reversed), whole);
    let batches = partition_batches(results, 2);
    let mut counter: u64 = 0;
    for batch in &batches {
        counter += count_faces(batch);
    }
    assert_eq!(counter, whole);
}

#[test]
fn aggregate_reports_exact_counts_and_average() {
    let results = vec![result_with_faces("a.jpg", 2), result_with_faces("b.jpg", 1)];
    let summary = aggregate(&results, 100);
    assert_eq!(
        summary,
        Summary::Processed { image_count: 2, face_count: 3, elapsed_ms: 100, avg_ms_per_image: 50 }
    );
}

#[test]
fn aggregate_of_nothing_reports_no_files_processed() {
    let results: Vec<DetectionResult> = Vec::new();
    assert_eq!(aggregate(&results, 100), Summary::NoFilesProcessed);
}

#[test]
fn empty_run_reports_no_files_processed() {
    let summary = run_pipeline(Vec::new(), FailureMode::BestEffort, 5).unwrap();
    assert_eq!(summary, Summary::NoFilesProcessed);
}

#[test]
fn fail_fast_run_produces_no_summary() {
    let outcomes = vec![
        ImageOutcome::Detected(result_with_faces("a.jpg", 2)),
        ImageOutcome::Failed(DetectError {
            path: String::from("bad.jpg"),
            message: String::from("inference failed"),
        }),
    ];
    let err = run_pipeline(outcomes, FailureMode::FailFast, 5).unwrap_err();
    assert_eq!(err.path, "bad.jpg");
}

#[test]
fn two_roots_scenario_counts_two_files_and_two_faces() {
    // Two directories: one holds a.jpg with two faces, the other b.jpg
    // with none and a non-image c.txt; two workers.
    let candidates = vec![
        String::from("rootA/a.jpg"),
        String::from("rootB/b.jpg"),
        String::from("rootB/c.txt"),
    ];
    let eligible = filter_image_paths(&candidates);
    assert_eq!(
        eligible,
        vec![String::from("rootA/a.jpg"), String::from("rootB/b.jpg")]
    );

    let mut outcomes = Vec::new();
    for batch in partition_batches(eligible, 2) {
        for path in batch {
            let faces = if path == "rootA/a.jpg" { 2 } else { 0 };
            outcomes.push(ImageOutcome::Detected(result_with_faces(&path, faces)));
        }
    }
    let summary = run_pipeline(outcomes, FailureMode::BestEffort, 10).unwrap();
    assert_eq!(
        summary,
        Summary::Processed { image_count: 2, face_count: 2, elapsed_ms: 10, avg_ms_per_image: 5 }
    );
}
