//! The task layer: starting a run, switching modes, and reading progress.

use recrm::{ModeChange, OperationMode, Task, TaskError};

#[test]
fn start_rejects_non_directory() {
    let r = Task::new("root.txt".to_string(), false);
    assert!(matches!(r, Err(TaskError::NotADirectory)));
}

#[test]
fn start_seeds_root_scan_job() {
    let task = Task::new("root".to_string(), true).expect("root is a directory");
    assert_eq!(task.mode, OperationMode::Idle);
    assert!(task.num_cpus >= 1);
    let p = task.progress();
    assert_eq!(p.found_dirs, 1);
    assert_eq!(p.found_files, 0);
    assert_eq!(p.deleted_dirs, 0);
    assert_eq!(p.deleted_files, 0);
    // the root's scan job is already waiting; nothing is delete-eligible yet
    let seed = task.job_queue.scan_receiver().try_recv().expect("seed job present");
    assert_eq!(seed.file(), 0);
    assert!(task.job_queue.scan_receiver().try_recv().is_err());
    assert!(task.job_queue.delete_receiver().try_recv().is_err());
}

#[test]
fn set_mode_plans_worker_changes() {
    let mut task = Task::new("root".to_string(), true).expect("root is a directory");
    let n = task.num_cpus;

    // repeating the current mode asks for nothing
    let plan = task.set_mode(OperationMode::Idle);
    assert_eq!(
        plan,
        ModeChange { terminate: false, spawn_workers: 0, allow_delete: false }
    );
    assert_eq!(task.mode, OperationMode::Idle);

    let plan = task.set_mode(OperationMode::ScanAndDelete);
    assert_eq!(
        plan,
        ModeChange { terminate: true, spawn_workers: n, allow_delete: true }
    );
    assert_eq!(task.mode, OperationMode::ScanAndDelete);

    let plan = task.set_mode(OperationMode::Scan);
    assert_eq!(
        plan,
        ModeChange { terminate: true, spawn_workers: n, allow_delete: false }
    );
    assert_eq!(task.mode, OperationMode::Scan);

    let plan = task.set_mode(OperationMode::Idle);
    assert_eq!(
        plan,
        ModeChange { terminate: true, spawn_workers: 0, allow_delete: false }
    );
    assert_eq!(task.mode, OperationMode::Idle);
}
