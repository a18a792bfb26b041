use yawns::batch_failed;
use yawns::executor::{execute, is_success, outcome_warning, BatchResult, BatchState, RemoteOutcome};
use yawns::jobs::TransferJob;
use yawns::kms::join_aliases;
use yawns::pagination::{count_listed, Page, WalkState};
use yawns::progress::{ProgressState, Reporter};
use yawns::s3::{copy_source_key, CopyOptions};

fn copy_job(n: usize) -> TransferJob {
    TransferJob::Copy {
        source_key: format!("src/{n}"),
        destination_key: format!("dst/{n}"),
        metadata: Vec::new(),
    }
}

fn jobs(n: usize) -> Vec<TransferJob> {
    (0..n).map(copy_job).collect()
}

#[test]
fn execute_empty_input_returns_immediately() {
    let mut reporter = Reporter::new();
    let r = execute(&jobs(0), &Vec::new(), 4, 0, 0, &mut reporter);
    assert_eq!(r.succeeded, 0);
    assert_eq!(r.failed, 0);
    assert_eq!(r.succeeded + r.failed, 0);
    assert!(reporter.cancelled);
}

#[test]
fn execute_accounts_for_every_job() {
    let outcomes = vec![
        RemoteOutcome::Done,
        RemoteOutcome::Failed,
        RemoteOutcome::DoneMissingETag,
        RemoteOutcome::Failed,
        RemoteOutcome::DoneMissingResult,
    ];
    let mut reporter = Reporter::new();
    let r = execute(&jobs(5), &outcomes, 2, 0, 7, &mut reporter);
    assert_eq!(r.succeeded, 3);
    assert_eq!(r.failed, 2);
    assert_eq!(r.succeeded + r.failed, 5);
    assert_eq!(r.elapsed_seconds, 7);
}

#[test]
fn execute_counts_rejected_lines_as_failed() {
    let outcomes = vec![RemoteOutcome::Done, RemoteOutcome::Done];
    let mut reporter = Reporter::new();
    let r = execute(&jobs(2), &outcomes, 1, 3, 0, &mut reporter);
    assert_eq!(r.succeeded, 2);
    assert_eq!(r.failed, 3);
    assert_eq!(r.succeeded + r.failed, 3 + 2);
}

#[test]
fn execute_twice_gives_the_same_result() {
    let outcomes = vec![RemoteOutcome::Done; 6];
    let mut rep1 = Reporter::new();
    let mut rep2 = Reporter::new();
    let r1 = execute(&jobs(6), &outcomes, 3, 0, 1, &mut rep1);
    let r2 = execute(&jobs(6), &outcomes, 3, 0, 1, &mut rep2);
    assert_eq!(r1, r2);
    assert_eq!(
        r1,
        BatchResult { succeeded: 6, failed: 0, elapsed_seconds: 1 }
    );
}

#[test]
fn cap_is_never_exceeded() {
    let mut st = BatchState::new(5, 2);
    assert!(st.try_launch());
    assert!(st.try_launch());
    // both slots taken: a third launch is refused
    assert!(!st.try_launch());
    assert_eq!(st.in_flight, 2);
    st.complete(true);
    assert_eq!(st.in_flight, 1);
    assert!(st.try_launch());
    assert_eq!(st.in_flight, 2);
    assert!(st.in_flight <= st.cap);
}

#[test]
fn batch_state_final_tally() {
    let mut st = BatchState::new(2, 1);
    assert!(st.try_launch());
    st.complete(true);
    assert!(st.try_launch());
    st.complete(false);
    assert!(st.is_done());
    assert_eq!(st.succeeded, 1);
    assert_eq!(st.failed, 1);
    assert_eq!(st.succeeded + st.failed, st.total);
}

#[test]
fn missing_etag_is_a_warning_not_a_failure() {
    assert!(is_success(&RemoteOutcome::DoneMissingETag));
    assert!(is_success(&RemoteOutcome::DoneMissingResult));
    assert!(!is_success(&RemoteOutcome::Failed));
    assert_eq!(
        outcome_warning(&RemoteOutcome::DoneMissingETag),
        Some("No ETag found".to_string())
    );
    assert_eq!(
        outcome_warning(&RemoteOutcome::DoneMissingResult),
        Some("No CopyObjectResult found".to_string())
    );
    assert_eq!(outcome_warning(&RemoteOutcome::Done), None);
    assert_eq!(outcome_warning(&RemoteOutcome::Failed), None);
}

#[test]
fn reporter_is_silent_after_execute_returns() {
    let mut reporter = Reporter::new();
    let progress = ProgressState::new(3);
    // before the batch completes the reporter emits snapshots
    assert!(reporter.tick(&progress, 5).is_some());
    let outcomes = vec![RemoteOutcome::Done; 3];
    let _ = execute(&jobs(3), &outcomes, 2, 0, 10, &mut reporter);
    // afterwards, ticks of the mock timer emit nothing
    assert_eq!(reporter.tick(&progress, 15), None);
    assert_eq!(reporter.tick(&progress, 20), None);
}

#[test]
fn snapshot_formulas_exact() {
    let mut p = ProgressState::new(20);
    for _ in 0..6 {
        p.record_success();
    }
    p.record_failure();
    p.record_failure();
    let s = p.snapshot(4);
    assert_eq!(s.succeeded, 6);
    assert_eq!(s.failed, 2);
    assert_eq!(s.total, 20);
    assert_eq!(s.elapsed_seconds, 4);
    // 8 processed in 4 seconds: 2 per second
    assert_eq!(s.rate_per_second, 2);
    // 12 remaining at 8 per 4 seconds: 6 seconds left
    assert_eq!(s.remaining_seconds, 6);
}

#[test]
fn snapshot_degenerate_cases() {
    let p = ProgressState::new(10);
    let s0 = p.snapshot(0);
    assert_eq!(s0.rate_per_second, 0);
    assert_eq!(s0.remaining_seconds, 0);
    // time has passed but nothing processed: no rate, no estimate
    let s1 = p.snapshot(9);
    assert_eq!(s1.rate_per_second, 0);
    assert_eq!(s1.remaining_seconds, 0);
}

#[test]
fn progress_batch_failure_recording() {
    let mut p = ProgressState::new(5);
    p.record_failures(3);
    assert_eq!(p.failed, 3);
    assert_eq!(p.succeeded, 0);
}

#[test]
fn pagination_walks_until_token_absent() {
    let pages = vec![
        Page { item_count: 5, next_token: Some("T1".to_string()) },
        Page { item_count: 0, next_token: Some("T2".to_string()) },
        Page { item_count: 3, next_token: None },
        // never reached: the walk stops at the first page without a token
        Page { item_count: 100, next_token: None },
    ];
    assert_eq!(count_listed(&pages), Some((8, 3)));
}

#[test]
fn pagination_zero_item_page_with_token_continues() {
    let pages = vec![
        Page { item_count: 0, next_token: Some("T".to_string()) },
        Page { item_count: 2, next_token: None },
    ];
    assert_eq!(count_listed(&pages), Some((2, 2)));
}

#[test]
fn pagination_incomplete_recording_detected() {
    let pages = vec![
        Page { item_count: 5, next_token: Some("T1".to_string()) },
        Page { item_count: 5, next_token: Some("T2".to_string()) },
    ];
    assert_eq!(count_listed(&pages), None);
}

#[test]
fn walk_state_streams_pages() {
    let mut st = WalkState::new();
    st.absorb(5, true);
    assert!(!st.done);
    st.absorb(0, true);
    assert!(!st.done);
    st.absorb(3, false);
    assert!(st.done);
    assert_eq!(st.count, 8);
    assert_eq!(st.calls, 3);
}

#[test]
fn alias_joining() {
    assert_eq!(join_aliases(&Vec::new()), "");
    assert_eq!(join_aliases(&vec!["a".to_string()]), "a");
    assert_eq!(
        join_aliases(&vec!["a".to_string(), "b".to_string(), "c".to_string()]),
        "a, b, c"
    );
}

#[test]
fn single_copy_source_key() {
    let options = CopyOptions {
        source_bucket: "bkt".to_string(),
        destination_bucket: "other".to_string(),
        src: "path/obj".to_string(),
        dst: "dst/obj".to_string(),
    };
    assert_eq!(copy_source_key(&options), "bkt/path/obj");
}

#[test]
fn batch_failure_is_any_failed_job() {
    assert!(!batch_failed(0));
    assert!(batch_failed(1));
    assert!(batch_failed(100));
}
