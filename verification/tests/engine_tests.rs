use gores_map_downloader::engine::{Downloader, StartDecision, DOWNLOAD_CONCURRENCY};
use gores_map_downloader::status::DownloadStatus;
use gores_map_downloader::task::TaskDescriptor;

fn task(id: usize, size: u64, skip: bool) -> TaskDescriptor {
    TaskDescriptor::new(
        id,
        format!("https://example.test/{}.map", id),
        format!("/tmp/maps/{}.map", id),
        size,
        skip,
    )
}

fn counters_consistent(d: &Downloader) {
    let s = d.snapshot();
    assert_eq!(
        s.completed_count
            + s.failed_count
            + s.skipped_count
            + s.cancelled_count
            + s.active_count
            + s.pending_count,
        s.total_queued
    );
    assert!(s.downloaded_bytes <= s.total_bytes);
}

#[test]
fn empty_batch_is_rejected() {
    let mut d = Downloader::new(DOWNLOAD_CONCURRENCY);
    assert!(!d.submit(Vec::new()));
    assert_eq!(d.snapshot().total_queued, 0);
}

#[test]
fn duplicate_ids_are_rejected() {
    let mut d = Downloader::new(DOWNLOAD_CONCURRENCY);
    let accepted = d.submit(vec![task(1, 10, false), task(1, 20, false)]);
    assert!(!accepted);
    assert_eq!(d.snapshot().total_queued, 0);
}

#[test]
fn submit_initializes_store() {
    let mut d = Downloader::new(DOWNLOAD_CONCURRENCY);
    assert!(d.submit(vec![task(3, 100, false), task(1, 200, false), task(2, 0, false)]));
    let s = d.snapshot();
    assert_eq!(s.order, vec![3, 1, 2]);
    assert_eq!(s.total_queued, 3);
    assert_eq!(s.pending_count, 3);
    assert_eq!(s.total_bytes, 300);
    assert_eq!(s.downloaded_bytes, 0);
    for st in &s.statuses {
        assert_eq!(*st, DownloadStatus::Pending);
    }
    counters_consistent(&d);
}

#[test]
fn skip_existing_marks_skipped_without_fetch() {
    let mut d = Downloader::new(DOWNLOAD_CONCURRENCY);
    assert!(d.submit(vec![task(0, 50, true), task(1, 70, true)]));
    // destination of task 0 exists: skipped, bytes attributed, no transfer
    assert_eq!(d.begin_task(0, true), StartDecision::MarkedSkipped);
    let s = d.snapshot();
    assert_eq!(s.statuses[0], DownloadStatus::Skipped);
    assert_eq!(s.skipped_count, 1);
    assert_eq!(s.active_count, 0);
    assert_eq!(s.downloaded_bytes, 50);
    // destination of task 1 does not exist: the transfer starts
    assert_eq!(d.begin_task(1, false), StartDecision::StartFetch);
    let s = d.snapshot();
    assert_eq!(s.statuses[1], DownloadStatus::Downloading(0, 0));
    assert_eq!(s.active_count, 1);
    counters_consistent(&d);
}

#[test]
fn retry_refetches_even_if_destination_exists() {
    let mut d = Downloader::new(DOWNLOAD_CONCURRENCY);
    assert!(d.submit(vec![task(0, 10, true)]));
    assert_eq!(d.begin_task(0, false), StartDecision::StartFetch);
    assert!(d.finish_http_error(0, 500));
    let retry = d.retry_failed();
    assert_eq!(retry.len(), 1);
    assert!(!retry[0].skip_if_exists);
    // even though the destination now exists, the retried task fetches
    assert_eq!(d.begin_task(0, true), StartDecision::StartFetch);
}

#[test]
fn concurrency_never_exceeds_limit() {
    let mut d = Downloader::new(DOWNLOAD_CONCURRENCY);
    let tasks: Vec<TaskDescriptor> = (0..6).map(|i| task(i, 10, false)).collect();
    assert!(d.submit(tasks));
    for id in 0..4 {
        assert_eq!(d.begin_task(id, false), StartDecision::StartFetch);
    }
    // the four transfer slots are taken
    assert_eq!(d.snapshot().active_count, 4);
    assert_eq!(d.begin_task(4, false), StartDecision::NoSlot);
    assert_eq!(d.snapshot().statuses[4], DownloadStatus::Pending);
    // one task finishes, its slot frees up
    assert!(d.finish_write_result(0, true));
    assert_eq!(d.snapshot().active_count, 3);
    assert_eq!(d.begin_task(4, false), StartDecision::StartFetch);
    assert_eq!(d.snapshot().active_count, 4);
    counters_consistent(&d);
}

#[test]
fn terminal_statuses_never_change() {
    let mut d = Downloader::new(DOWNLOAD_CONCURRENCY);
    assert!(d.submit(vec![task(0, 10, false), task(1, 10, false)]));
    assert_eq!(d.begin_task(0, false), StartDecision::StartFetch);
    assert!(d.finish_write_result(0, true));
    assert_eq!(d.snapshot().statuses[0], DownloadStatus::Complete);
    // every further event on the completed task is refused
    assert!(!d.record_progress(0, 5, 10));
    assert!(!d.finish_cancelled(0));
    assert!(!d.finish_http_error(0, 404));
    assert!(!d.finish_write_result(0, false));
    assert_eq!(d.begin_task(0, false), StartDecision::NotPending);
    assert_eq!(d.snapshot().statuses[0], DownloadStatus::Complete);
    assert_eq!(d.snapshot().completed_count, 1);
    counters_consistent(&d);
}

#[test]
fn progress_is_recorded_while_downloading() {
    let mut d = Downloader::new(DOWNLOAD_CONCURRENCY);
    assert!(d.submit(vec![task(0, 100, false)]));
    // progress on a task that has not started is refused
    assert!(!d.record_progress(0, 1, 2));
    assert_eq!(d.begin_task(0, false), StartDecision::StartFetch);
    assert!(d.record_progress(0, 10, 200));
    assert_eq!(d.snapshot().statuses[0], DownloadStatus::Downloading(10, 200));
    assert!(d.record_progress(0, 200, 200));
    assert_eq!(d.snapshot().statuses[0], DownloadStatus::Downloading(200, 200));
    // in-flight bytes are not attributed to downloaded_bytes
    assert_eq!(d.snapshot().downloaded_bytes, 0);
    assert!(d.finish_write_result(0, true));
    // on completion the expected size, not the transferred count, is attributed
    assert_eq!(d.snapshot().downloaded_bytes, 100);
}

#[test]
fn transport_and_write_failures_have_reasons() {
    let mut d = Downloader::new(DOWNLOAD_CONCURRENCY);
    assert!(d.submit(vec![task(0, 10, false), task(1, 10, false), task(2, 10, false)]));
    assert_eq!(d.begin_task(0, false), StartDecision::StartFetch);
    assert!(d.finish_http_error(0, 404));
    assert_eq!(d.snapshot().statuses[0], DownloadStatus::Failed("HTTP 404".to_string()));
    assert_eq!(d.begin_task(1, false), StartDecision::StartFetch);
    assert!(d.finish_failure(1, "connection refused".to_string()));
    assert_eq!(
        d.snapshot().statuses[1],
        DownloadStatus::Failed("connection refused".to_string())
    );
    assert_eq!(d.begin_task(2, false), StartDecision::StartFetch);
    assert!(d.finish_write_result(2, false));
    assert_eq!(d.snapshot().statuses[2], DownloadStatus::Failed("Write failed".to_string()));
    assert_eq!(d.snapshot().failed_count, 3);
    counters_consistent(&d);
}

#[test]
fn unknown_ids_are_ignored() {
    let mut d = Downloader::new(DOWNLOAD_CONCURRENCY);
    assert!(d.submit(vec![task(0, 10, false)]));
    assert_eq!(d.begin_task(7, false), StartDecision::NotPending);
    assert!(!d.record_progress(7, 1, 1));
    assert!(!d.finish_cancelled(7));
    assert!(!d.finish_write_result(7, true));
    assert_eq!(d.snapshot().total_queued, 1);
    counters_consistent(&d);
}

#[test]
fn batch_of_ten_with_failures_and_skips_then_retry() {
    // ten tasks: six transfers succeed, two fail with HTTP 404, two are
    // skipped because their destination already exists
    let mut d = Downloader::new(DOWNLOAD_CONCURRENCY);
    let mut tasks = Vec::new();
    for id in 0..10 {
        tasks.push(task(id, 100, id >= 8));
    }
    assert!(d.submit(tasks));
    assert_eq!(d.snapshot().total_bytes, 1000);

    // the two skip-existing tasks settle without network activity
    for id in 8..10 {
        assert_eq!(d.begin_task(id, true), StartDecision::MarkedSkipped);
    }
    // six successful transfers, driven under the slot limit
    for id in 0..6 {
        assert_eq!(d.begin_task(id, false), StartDecision::StartFetch);
        assert!(d.record_progress(id, 100, 100));
        assert!(d.finish_write_result(id, true));
    }
    // two transfers answered HTTP 404
    for id in 6..8 {
        assert_eq!(d.begin_task(id, false), StartDecision::StartFetch);
        assert!(d.finish_http_error(id, 404));
    }

    let s = d.snapshot();
    assert_eq!(s.completed_count, 6);
    assert_eq!(s.failed_count, 2);
    assert_eq!(s.skipped_count, 2);
    assert_eq!(s.pending_count, 0);
    assert_eq!(s.active_count, 0);
    assert_eq!(s.downloaded_bytes, 800);
    counters_consistent(&d);

    // retry re-submits exactly the two failed tasks
    let retry = d.retry_failed();
    let retry_ids: Vec<usize> = retry.iter().map(|t| t.id).collect();
    assert_eq!(retry_ids, vec![6, 7]);
    assert!(retry.iter().all(|t| !t.skip_if_exists));
    let s = d.snapshot();
    assert_eq!(s.failed_count, 0);
    assert_eq!(s.pending_count, 2);
    assert_eq!(s.completed_count, 6);
    assert_eq!(s.skipped_count, 2);

    // this time both return 200 and complete
    for id in 6..8 {
        assert_eq!(d.begin_task(id, false), StartDecision::StartFetch);
        assert!(d.finish_write_result(id, true));
    }
    let s = d.snapshot();
    assert_eq!(s.completed_count, 8);
    assert_eq!(s.skipped_count, 2);
    assert_eq!(s.failed_count, 0);
    assert_eq!(s.downloaded_bytes, 1000);
    counters_consistent(&d);
}

#[test]
fn cancel_settles_every_task() {
    // five tasks against a slow endpoint; cancellation is raised immediately
    let mut d = Downloader::new(DOWNLOAD_CONCURRENCY);
    let tasks: Vec<TaskDescriptor> = (0..5).map(|i| task(i, 10, false)).collect();
    assert!(d.submit(tasks));
    // two workers already started their transfer
    assert_eq!(d.begin_task(0, false), StartDecision::StartFetch);
    assert_eq!(d.begin_task(1, false), StartDecision::StartFetch);
    d.cancel();
    assert!(d.is_cancelled());
    d.cancel(); // idempotent
    assert!(d.is_cancelled());
    // the pending workers observe the signal before starting
    for id in 2..5 {
        assert_eq!(d.begin_task(id, false), StartDecision::MarkedCancelled);
    }
    // the in-flight workers observe it during their transfer
    assert!(d.finish_cancelled(0));
    assert!(d.finish_cancelled(1));
    let s = d.snapshot();
    assert_eq!(s.cancelled_count, 5);
    assert_eq!(s.completed_count, 0);
    assert_eq!(s.pending_count, 0);
    assert_eq!(s.active_count, 0);
    for st in &s.statuses {
        assert_eq!(*st, DownloadStatus::Cancelled);
    }
    counters_consistent(&d);
}

#[test]
fn retry_leaves_other_statuses_untouched() {
    let mut d = Downloader::new(DOWNLOAD_CONCURRENCY);
    let tasks: Vec<TaskDescriptor> = (0..4).map(|i| task(i, 10, i == 3)).collect();
    assert!(d.submit(tasks));
    // 0 completes, 1 fails, 2 is cancelled mid-flight, 3 is skipped
    assert_eq!(d.begin_task(0, false), StartDecision::StartFetch);
    assert!(d.finish_write_result(0, true));
    assert_eq!(d.begin_task(1, false), StartDecision::StartFetch);
    assert!(d.finish_http_error(1, 503));
    assert_eq!(d.begin_task(2, false), StartDecision::StartFetch);
    assert!(d.finish_cancelled(2));
    assert_eq!(d.begin_task(3, true), StartDecision::MarkedSkipped);

    let retry = d.retry_failed();
    assert_eq!(retry.len(), 1);
    assert_eq!(retry[0].id, 1);
    let s = d.snapshot();
    assert_eq!(s.statuses[0], DownloadStatus::Complete);
    assert_eq!(s.statuses[1], DownloadStatus::Pending);
    assert_eq!(s.statuses[2], DownloadStatus::Cancelled);
    assert_eq!(s.statuses[3], DownloadStatus::Skipped);
    counters_consistent(&d);
}

#[test]
fn retry_with_no_failures_is_a_no_op() {
    let mut d = Downloader::new(DOWNLOAD_CONCURRENCY);
    assert!(d.submit(vec![task(0, 10, false)]));
    assert_eq!(d.begin_task(0, false), StartDecision::StartFetch);
    assert!(d.finish_write_result(0, true));
    let retry = d.retry_failed();
    assert!(retry.is_empty());
    assert_eq!(d.snapshot().completed_count, 1);
}

#[test]
fn retry_with_no_failures_keeps_cancellation_raised() {
    let mut d = Downloader::new(DOWNLOAD_CONCURRENCY);
    let tasks: Vec<TaskDescriptor> = (0..2).map(|i| task(i, 10, false)).collect();
    assert!(d.submit(tasks));
    d.cancel();
    // nothing has failed, so the retry is a no-op: the signal stays raised
    let retry = d.retry_failed();
    assert!(retry.is_empty());
    assert!(d.is_cancelled());
    // the still-raised signal keeps settling the pending tasks
    assert_eq!(d.begin_task(0, false), StartDecision::MarkedCancelled);
    assert_eq!(d.begin_task(1, false), StartDecision::MarkedCancelled);
    assert_eq!(d.snapshot().cancelled_count, 2);
    counters_consistent(&d);
}

#[test]
fn retry_after_failure_lowers_cancellation() {
    let mut d = Downloader::new(DOWNLOAD_CONCURRENCY);
    assert!(d.submit(vec![task(0, 10, false)]));
    assert_eq!(d.begin_task(0, false), StartDecision::StartFetch);
    assert!(d.finish_http_error(0, 503));
    d.cancel();
    // the retry sub-batch gets its own fresh cancellation scope
    let retry = d.retry_failed();
    assert_eq!(retry.len(), 1);
    assert!(!d.is_cancelled());
    assert_eq!(d.begin_task(0, false), StartDecision::StartFetch);
}

#[test]
fn new_batch_resets_cancellation_scope() {
    let mut d = Downloader::new(DOWNLOAD_CONCURRENCY);
    assert!(d.submit(vec![task(0, 10, false)]));
    d.cancel();
    assert!(d.is_cancelled());
    // a fresh batch gets its own cancellation scope
    assert!(d.submit(vec![task(0, 10, false)]));
    assert!(!d.is_cancelled());
    assert_eq!(d.begin_task(0, false), StartDecision::StartFetch);
}

#[test]
fn clear_empties_the_store() {
    let mut d = Downloader::new(DOWNLOAD_CONCURRENCY);
    assert!(d.submit(vec![task(0, 10, false)]));
    d.clear();
    let s = d.snapshot();
    assert_eq!(s.total_queued, 0);
    assert!(s.order.is_empty());
    assert!(s.statuses.is_empty());
}

#[test]
fn zero_expected_size_is_tolerated() {
    let mut d = Downloader::new(DOWNLOAD_CONCURRENCY);
    assert!(d.submit(vec![task(0, 0, false)]));
    assert_eq!(d.begin_task(0, false), StartDecision::StartFetch);
    assert!(d.record_progress(0, 5000, 0));
    assert!(d.finish_write_result(0, true));
    let s = d.snapshot();
    assert_eq!(s.total_bytes, 0);
    assert_eq!(s.downloaded_bytes, 0);
    assert_eq!(s.completed_count, 1);
}

#[test]
fn overflowing_size_sum_is_rejected() {
    let mut d = Downloader::new(DOWNLOAD_CONCURRENCY);
    let accepted = d.submit(vec![task(0, u64::MAX, false), task(1, 1, false)]);
    assert!(!accepted);
    assert_eq!(d.snapshot().total_queued, 0);
}
