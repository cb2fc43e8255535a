use radar_echo_trails::orchestrator::{Orchestrator, ProgressUpdate};
use radar_echo_trails::queue::{FolderFailure, FolderInfo, FolderStatus};
use radar_echo_trails::scheduler::{count_failures, output_folder_name, worker_count, ProgressThrottle};

fn folders(n: usize) -> Vec<FolderInfo> {
    (0..n).map(|i| FolderInfo::new(format!("/data/f{}", i), format!("f{}", i), 3)).collect()
}

fn statuses(o: &Orchestrator) -> Vec<FolderStatus> {
    o.folders().iter().map(|f| f.status).collect()
}

#[test]
fn runs_every_folder_then_all_complete() {
    let mut o = Orchestrator::new(folders(2));
    match o.begin_next(false) {
        Some(ProgressUpdate::FolderStarted { folder_index, folder_name }) => {
            assert_eq!(folder_index, 0);
            assert_eq!(folder_name, "f0");
        }
        other => panic!("{:?}", other),
    }
    assert_eq!(statuses(&o), vec![FolderStatus::Processing, FolderStatus::Pending]);
    assert!(matches!(o.finish_folder(0), ProgressUpdate::FolderCompleted { folder_index: 0 }));
    assert!(matches!(o.begin_next(false), Some(ProgressUpdate::FolderStarted { folder_index: 1, .. })));
    match o.finish_folder(2) {
        ProgressUpdate::FolderError { folder_index, error } => {
            assert_eq!(folder_index, 1);
            assert_eq!(error, FolderFailure::FramesFailed { count: 2 });
        }
        other => panic!("{:?}", other),
    }
    assert!(matches!(o.begin_next(false), Some(ProgressUpdate::AllComplete)));
    assert!(o.begin_next(false).is_none());
    assert_eq!(statuses(&o), vec![FolderStatus::Complete, FolderStatus::Error]);
}

#[test]
fn cancel_before_a_folder_skips_the_rest() {
    let mut o = Orchestrator::new(folders(3));
    assert!(matches!(o.begin_next(false), Some(ProgressUpdate::FolderStarted { folder_index: 0, .. })));
    o.finish_folder(0);
    assert!(matches!(o.begin_next(true), Some(ProgressUpdate::Cancelled)));
    assert!(o.begin_next(false).is_none());
    assert!(o.begin_next(true).is_none());
    assert_eq!(statuses(&o), vec![FolderStatus::Complete, FolderStatus::Pending, FolderStatus::Pending]);
}

#[test]
fn cancel_before_first_folder() {
    let mut o = Orchestrator::new(folders(2));
    assert!(matches!(o.begin_next(true), Some(ProgressUpdate::Cancelled)));
    assert!(o.begin_next(false).is_none());
    assert_eq!(statuses(&o), vec![FolderStatus::Pending, FolderStatus::Pending]);
}

#[test]
fn empty_queue_completes() {
    let mut o = Orchestrator::new(Vec::new());
    assert!(matches!(o.begin_next(false), Some(ProgressUpdate::AllComplete)));
    assert!(o.begin_next(false).is_none());
}

#[test]
fn failed_setup_moves_on() {
    let mut o = Orchestrator::new(folders(2));
    o.begin_next(false);
    match o.fail_folder(FolderFailure::NoImages) {
        ProgressUpdate::FolderError { folder_index, error } => {
            assert_eq!(folder_index, 0);
            assert_eq!(error, FolderFailure::NoImages);
        }
        other => panic!("{:?}", other),
    }
    assert!(matches!(o.begin_next(false), Some(ProgressUpdate::FolderStarted { folder_index: 1, .. })));
    assert_eq!(o.folders()[0].failure, Some(FolderFailure::NoImages));
    assert_eq!(statuses(&o), vec![FolderStatus::Error, FolderStatus::Processing]);
}

#[test]
fn counts_workers() {
    assert_eq!(worker_count(0, 8), 8);
    assert_eq!(worker_count(3, 8), 3);
}

#[test]
fn throttles_progress() {
    let mut t = ProgressThrottle::new(1000);
    assert!(!t.observe(1050, 1, 10));
    assert_eq!(t.last_ms, 1000);
    assert!(t.observe(1100, 2, 10));
    assert_eq!(t.last_ms, 1100);
    assert!(t.observe(1101, 10, 10));
    assert!(!t.observe(900, 3, 10));
}

#[test]
fn counts_failed_tasks() {
    assert_eq!(count_failures(&vec![true, false, true, false, false]), 3);
    assert_eq!(count_failures(&Vec::new()), 0);
}

#[test]
fn names_output_folder() {
    assert_eq!(output_folder_name("radar", 5), "radar_trail_5");
    assert_eq!(output_folder_name("sweeps", 120), "sweeps_trail_120");
    assert_eq!(output_folder_name("", 0), "_trail_0");
}

#[test]
fn records_folder_progress() {
    let mut o = Orchestrator::new(folders(2));
    o.begin_next(false);
    o.record_progress(2);
    assert_eq!(o.folders()[0].files_done, 2);
    assert_eq!(o.folders()[0].status, FolderStatus::Processing);
    o.finish_folder(0);
    assert_eq!(o.folders()[0].files_done, 2);
    assert_eq!(o.folders()[1].files_done, 0);
}
