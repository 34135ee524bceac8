//! Scenario tests: the engine driven to completion over simulated directory
//! trees, single-threaded, through the same job queue the workers use.

use recrm::engine::{ChildEntry, Engine, EngineError};
use recrm::job::{JobQueue, JobType};
use recrm::Task;
use std::collections::HashMap;

type Tree = HashMap<String, Vec<(String, bool)>>;

fn listing(tree: &Tree, path: &str) -> Vec<ChildEntry> {
    match tree.get(path) {
        Some(cs) => cs
            .iter()
            .map(|(p, d)| ChildEntry { path: p.clone(), is_dir: *d })
            .collect(),
        None => Vec::new(),
    }
}

/// Services jobs until both queues are empty, preferring scans as a worker
/// does.  Returns the number of completion events seen, the number of
/// deletions performed, and the job log.
fn drain(engine: &mut Engine, queue: &JobQueue, tree: &Tree) -> (usize, usize, Vec<JobType>) {
    let mut events = 0;
    let mut deletions = 0;
    let mut log = Vec::new();
    loop {
        if let Ok(job) = queue.scan_receiver().try_recv() {
            log.push(JobType::Scan);
            let id = job.file();
            let path = engine.scan_target(id).expect("scan job for a node not awaiting a scan");
            let children = listing(tree, &path);
            engine.apply_scan(id, children, queue).expect("scan refused");
        } else if let Ok(job) = queue.delete_receiver().try_recv() {
            log.push(JobType::Delete);
            let id = job.file();
            let ev = engine.apply_delete(id, queue).expect("delete refused");
            deletions += 1;
            if ev.is_some() {
                events += 1;
            }
        } else {
            break;
        }
        let p = engine.progress();
        assert!(p.deleted_dirs <= p.found_dirs);
        assert!(p.deleted_files <= p.found_files);
    }
    (events, deletions, log)
}

fn start(root: &str) -> (Engine, JobQueue) {
    let task = Task::new(root.to_string(), true).expect("root is a directory");
    let Task { engine, job_queue, .. } = task;
    (engine, job_queue)
}

#[test]
fn scenario_one_empty_subdir_one_file() {
    let mut tree: Tree = HashMap::new();
    tree.insert(
        "root".to_string(),
        vec![("root/a".to_string(), true), ("root/b.txt".to_string(), false)],
    );
    tree.insert("root/a".to_string(), vec![]);
    let (mut engine, queue) = start("root");
    let (events, deletions, log) = drain(&mut engine, &queue, &tree);
    let p = engine.progress();
    assert_eq!(p.found_dirs, 2); // the root, accounted at seed, and a/
    assert_eq!(p.found_files, 1);
    assert_eq!(p.deleted_dirs, 2); // a/ and the root
    assert_eq!(p.deleted_files, 1);
    assert_eq!(events, 1);
    assert_eq!(deletions, 3);
    assert_eq!(log[0], JobType::Scan);
}

#[test]
fn empty_root_completes_after_one_deletion() {
    let mut tree: Tree = HashMap::new();
    tree.insert("root".to_string(), vec![]);
    let (mut engine, queue) = start("root");
    let (events, deletions, _) = drain(&mut engine, &queue, &tree);
    let p = engine.progress();
    assert_eq!((p.found_dirs, p.found_files), (1, 0));
    assert_eq!((p.deleted_dirs, p.deleted_files), (1, 0));
    assert_eq!(events, 1);
    assert_eq!(deletions, 1);
}

#[test]
fn chain_completion_fires_once() {
    let depth = 25;
    let mut tree: Tree = HashMap::new();
    let name = |i: usize| {
        if i == 0 {
            "c".to_string()
        } else {
            format!("c/{}", "d".repeat(i))
        }
    };
    for i in 0..depth {
        tree.insert(name(i), vec![(name(i + 1), true)]);
    }
    tree.insert(name(depth), vec![]);
    let (mut engine, queue) = start("c");
    let (events, deletions, _) = drain(&mut engine, &queue, &tree);
    let p = engine.progress();
    assert_eq!(events, 1);
    assert_eq!(deletions, depth + 1);
    assert_eq!(p.found_dirs, depth + 1);
    assert_eq!(p.deleted_dirs, depth + 1);
    assert_eq!(p.found_files, 0);
    assert_eq!(p.deleted_files, 0);
}

#[test]
fn sibling_deletions_enqueue_parent_exactly_once() {
    let count = 1000;
    let queue = JobQueue::new();
    let mut engine = Engine::new("root".to_string());
    let children: Vec<ChildEntry> = (0..count)
        .map(|i| ChildEntry { path: format!("root/f{}", i), is_dir: false })
        .collect();
    engine.apply_scan(0, children, &queue).expect("scan refused");
    // collect the delete jobs for all thousand siblings
    let mut ids = Vec::new();
    while let Ok(job) = queue.delete_receiver().try_recv() {
        ids.push(job.file());
    }
    assert_eq!(ids.len(), count);
    // service them in a scrambled order, as racing workers would
    for k in 0..count {
        let pick = (k * 571) % count;
        let ev = engine.apply_delete(ids[pick], &queue).expect("delete refused");
        assert!(ev.is_none());
        let p = engine.progress();
        assert!(p.deleted_files <= p.found_files);
    }
    // exactly one delete job for the root came out of the decrements
    let mut root_jobs = 0;
    let mut others = 0;
    while let Ok(job) = queue.delete_receiver().try_recv() {
        if job.file() == 0 {
            root_jobs += 1;
        } else {
            others += 1;
        }
    }
    assert_eq!(root_jobs, 1);
    assert_eq!(others, 0);
    let ev = engine.apply_delete(0, &queue).expect("delete refused");
    assert!(ev.is_some());
    let p = engine.progress();
    assert_eq!(p.deleted_files, count);
    assert_eq!(p.deleted_dirs, 1);
}

#[test]
fn nested_tree_cascades_bottom_up() {
    let mut tree: Tree = HashMap::new();
    tree.insert(
        "r".to_string(),
        vec![
            ("r/d1".to_string(), true),
            ("r/d2".to_string(), true),
            ("r/f0".to_string(), false),
        ],
    );
    tree.insert(
        "r/d1".to_string(),
        vec![("r/d1/f1".to_string(), false), ("r/d1/f2".to_string(), false)],
    );
    tree.insert("r/d2".to_string(), vec![("r/d2/d3".to_string(), true)]);
    tree.insert("r/d2/d3".to_string(), vec![("r/d2/d3/f3".to_string(), false)]);
    let (mut engine, queue) = start("r");
    let (events, deletions, _) = drain(&mut engine, &queue, &tree);
    let p = engine.progress();
    assert_eq!(p.found_dirs, 4);
    assert_eq!(p.found_files, 4);
    assert_eq!(p.deleted_dirs, 4);
    assert_eq!(p.deleted_files, 4);
    assert_eq!(events, 1);
    assert_eq!(deletions, 8);
}

#[test]
fn stale_jobs_are_refused() {
    let queue = JobQueue::new();
    let mut engine = Engine::new("root".to_string());
    assert_eq!(engine.apply_delete(5, &queue), Err(EngineError::UnknownFile));
    assert_eq!(
        engine.apply_scan(7, Vec::new(), &queue),
        Err(EngineError::UnknownFile)
    );
    // the root awaits a scan, not a deletion
    assert_eq!(engine.apply_delete(0, &queue), Err(EngineError::WrongState));
    assert_eq!(engine.apply_scan(0, Vec::new(), &queue), Ok(()));
    // a directory is scanned at most once
    assert_eq!(
        engine.apply_scan(0, Vec::new(), &queue),
        Err(EngineError::WrongState)
    );
    assert_eq!(engine.apply_delete(0, &queue).unwrap().is_some(), true);
    // a node is deleted at most once, so completion cannot fire twice
    assert_eq!(engine.apply_delete(0, &queue), Err(EngineError::WrongState));
}

#[test]
fn targets_follow_node_states() {
    let queue = JobQueue::new();
    let mut engine = Engine::new("root".to_string());
    assert_eq!(engine.scan_target(0), Some("root".to_string()));
    assert_eq!(engine.delete_target(0), None);
    let children = vec![ChildEntry { path: "root/x".to_string(), is_dir: false }];
    engine.apply_scan(0, children, &queue).expect("scan refused");
    assert_eq!(engine.scan_target(0), None);
    assert_eq!(engine.delete_target(1), Some(("root/x".to_string(), false)));
    assert_eq!(engine.scan_target(9), None);
    assert_eq!(engine.delete_target(9), None);
    engine.apply_delete(1, &queue).expect("delete refused");
    assert_eq!(engine.delete_target(1), None);
    assert_eq!(engine.delete_target(0), Some(("root".to_string(), true)));
}
