use gores_map_downloader::status::DownloadStatus;
use gores_map_downloader::store::DownloadState;
use gores_map_downloader::task::TaskDescriptor;

fn batch(n: usize) -> Vec<TaskDescriptor> {
    (0..n)
        .map(|i| {
            TaskDescriptor::new(
                i,
                format!("https://example.test/{}.map", i),
                format!("/tmp/maps/{}.map", i),
                10 * (i as u64 + 1),
                false,
            )
        })
        .collect()
}

#[test]
fn default_store_is_empty() {
    let s = DownloadState::default();
    let snap = s.snapshot();
    assert_eq!(snap.total_queued, 0);
    assert!(snap.order.is_empty());
    assert_eq!(snap.total_bytes, 0);
}

#[test]
fn init_sets_everything_pending() {
    let mut s = DownloadState::default();
    s.init(&batch(3));
    let snap = s.snapshot();
    assert_eq!(snap.order, vec![0, 1, 2]);
    assert_eq!(snap.total_queued, 3);
    assert_eq!(snap.pending_count, 3);
    assert_eq!(snap.total_bytes, 10 + 20 + 30);
    assert_eq!(snap.downloaded_bytes, 0);
    assert!(snap.statuses.iter().all(|st| *st == DownloadStatus::Pending));
}

#[test]
fn set_status_follows_legal_transitions_only() {
    let mut s = DownloadState::default();
    s.init(&batch(2));
    // Pending cannot go straight to Complete or Failed
    assert!(!s.set_status(0, DownloadStatus::Complete));
    assert!(!s.set_status(0, DownloadStatus::Failed("boom".to_string())));
    // Pending -> Downloading -> Complete is the legal path
    assert!(s.set_status(0, DownloadStatus::Downloading(0, 0)));
    assert_eq!(s.active_count(), 1);
    assert!(s.set_status(0, DownloadStatus::Complete));
    assert_eq!(s.active_count(), 0);
    assert_eq!(s.completed_count(), 1);
    assert_eq!(s.downloaded_bytes(), 10);
    // terminal statuses are final
    assert!(!s.set_status(0, DownloadStatus::Cancelled));
    assert!(!s.set_status(0, DownloadStatus::Downloading(0, 0)));
    // Pending -> Cancelled is legal (cancellation before start)
    assert!(s.set_status(1, DownloadStatus::Cancelled));
    assert_eq!(s.cancelled_count(), 1);
    // unknown ids change nothing
    assert!(!s.set_status(9, DownloadStatus::Cancelled));
}

#[test]
fn counters_partition_the_batch() {
    let mut s = DownloadState::default();
    s.init(&batch(5));
    assert!(s.set_status(0, DownloadStatus::Downloading(0, 0)));
    assert!(s.set_status(1, DownloadStatus::Downloading(0, 0)));
    assert!(s.set_status(1, DownloadStatus::Failed("x".to_string())));
    assert!(s.set_status(2, DownloadStatus::Skipped));
    let snap = s.snapshot();
    assert_eq!(
        snap.completed_count
            + snap.failed_count
            + snap.skipped_count
            + snap.cancelled_count
            + snap.active_count
            + snap.pending_count,
        snap.total_queued
    );
    assert_eq!(snap.active_count, 1);
    assert_eq!(snap.failed_count, 1);
    assert_eq!(snap.skipped_count, 1);
    assert_eq!(snap.pending_count, 2);
    assert!(snap.downloaded_bytes <= snap.total_bytes);
}

#[test]
fn retry_reset_returns_failed_count() {
    let mut s = DownloadState::default();
    s.init(&batch(4));
    assert!(s.set_status(0, DownloadStatus::Downloading(0, 0)));
    assert!(s.set_status(0, DownloadStatus::Failed("a".to_string())));
    assert!(s.set_status(1, DownloadStatus::Downloading(0, 0)));
    assert!(s.set_status(1, DownloadStatus::Failed("b".to_string())));
    assert!(s.set_status(2, DownloadStatus::Skipped));
    let n = s.retry_reset();
    assert_eq!(n, 2);
    assert_eq!(s.failed_count(), 0);
    let snap = s.snapshot();
    assert_eq!(snap.statuses[0], DownloadStatus::Pending);
    assert_eq!(snap.statuses[1], DownloadStatus::Pending);
    assert_eq!(snap.statuses[2], DownloadStatus::Skipped);
    assert_eq!(snap.statuses[3], DownloadStatus::Pending);
}

#[test]
fn find_index_follows_submission_order() {
    let mut s = DownloadState::default();
    let mut tasks = batch(3);
    tasks[0].id = 42;
    tasks[1].id = 7;
    tasks[2].id = 19;
    s.init(&tasks);
    assert_eq!(s.find_index(42), Some(0));
    assert_eq!(s.find_index(7), Some(1));
    assert_eq!(s.find_index(19), Some(2));
    assert_eq!(s.find_index(1), None);
}

#[test]
fn status_duplicate_is_equal() {
    let st = DownloadStatus::Failed("reason".to_string());
    assert_eq!(st.duplicate(), st);
    let st = DownloadStatus::Downloading(3, 9);
    assert_eq!(st.duplicate(), st);
}

#[test]
fn status_ref_reads_by_id() {
    let mut s = DownloadState::default();
    s.init(&batch(2));
    assert!(s.set_status(1, DownloadStatus::Downloading(5, 10)));
    assert_eq!(s.status_ref(1), Some(&DownloadStatus::Downloading(5, 10)));
    assert_eq!(s.status_ref(0), Some(&DownloadStatus::Pending));
    assert_eq!(s.status_ref(9), None);
}
