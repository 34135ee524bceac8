//! The progress counters and the job types.

use recrm::file::{File, FileState, NewFileOptions};
use recrm::job::{DeleteJob, JobProgressStore, JobQueue, ScanJob};
use recrm::worker::WorkerCommand;

#[test]
fn progress_store_counts_each_event() {
    let mut store = JobProgressStore::new();
    let p = store.progress();
    assert_eq!(
        (p.found_dirs, p.found_files, p.deleted_dirs, p.deleted_files),
        (0, 0, 0, 0)
    );
    store.increment_dir_found();
    store.increment_dir_found();
    store.increment_file_found();
    store.increment_file_found();
    store.increment_file_found();
    store.increment_dir_deleted();
    store.increment_file_deleted();
    store.increment_file_deleted();
    let p = store.progress();
    assert_eq!(p.found_dirs, 2);
    assert_eq!(p.found_files, 3);
    assert_eq!(p.deleted_dirs, 1);
    assert_eq!(p.deleted_files, 2);
}

#[test]
fn progress_store_is_fresh_per_run() {
    let mut a = JobProgressStore::new();
    let b = JobProgressStore::new();
    a.increment_dir_found();
    assert_eq!(a.progress().found_dirs, 1);
    assert_eq!(b.progress().found_dirs, 0);
}

#[test]
fn jobs_carry_their_node() {
    assert_eq!(ScanJob::new(7).file(), 7);
    assert_eq!(DeleteJob::new(42).file(), 42);
}

#[test]
fn queue_hands_jobs_back_in_order() {
    let queue = JobQueue::new();
    assert!(queue.scan_receiver().try_recv().is_err());
    assert!(queue.delete_receiver().try_recv().is_err());
    queue.scan_sender().send(ScanJob::new(1)).expect("send accepted");
    queue.scan_sender().send(ScanJob::new(2)).expect("send accepted");
    queue.delete_sender().send(DeleteJob::new(3)).expect("send accepted");
    assert_eq!(queue.scan_receiver().try_recv().expect("job present").file(), 1);
    assert_eq!(queue.scan_receiver().try_recv().expect("job present").file(), 2);
    assert_eq!(queue.delete_receiver().try_recv().expect("job present").file(), 3);
    assert!(queue.scan_receiver().try_recv().is_err());
}

#[test]
fn new_nodes_start_unscanned() {
    let dir = File::new(NewFileOptions { path: "d".to_string(), is_dir: true, parent: None });
    assert_eq!(dir.path, "d");
    assert!(dir.is_dir);
    assert_eq!(dir.parent, None);
    assert_eq!(dir.children_count, None);
    assert_eq!(dir.state, FileState::ScanQueued);
    let file = File::new(NewFileOptions {
        path: "d/f".to_string(),
        is_dir: false,
        parent: Some(0),
    });
    assert_eq!(file.state, FileState::DeleteQueued);
    assert_eq!(file.parent, Some(0));
}

#[test]
fn terminate_is_the_only_command() {
    let cmd = WorkerCommand::Terminate;
    assert_eq!(cmd, WorkerCommand::Terminate);
}
