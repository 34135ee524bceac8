//! A worker-pool engine that recursively deletes a directory tree.
//!
//! The engine walks the tree, schedules a node for deletion once all of its
//! children are gone, and detects global completion through per-node
//! pending-children counts.  All bookkeeping — the node arena, the job
//! accounting, the progress counters, and the completion signal — is verified;
//! the caller supplies the threads and the filesystem calls.

pub mod counts;
pub mod engine;
pub mod file;
pub mod job;
pub mod worker;

use vstd::prelude::*;
use crate::engine::Engine;
use crate::job::{JobProgress, JobQueue, ScanJob};

verus! {

/// What the engine is currently asked to do.
#[derive(Debug, Clone, Copy, PartialEq, Eq, Structural)]
pub enum OperationMode {
    /// No workers are running.
    Idle,
    /// Workers expand directories but delete nothing.
    Scan,
    /// Workers both expand directories and delete nodes.
    ScanAndDelete,
}

/// Why a task could not be started.
#[derive(Debug, Clone, Copy, PartialEq, Eq, Structural)]
pub enum TaskError {
    /// The root path does not resolve to a directory.
    NotADirectory,
}

/// What a mode switch asks of the pool that owns the worker threads: whether
/// to terminate the running workers, and how many to spawn in their place
/// with which permission.
#[derive(Debug, Clone, Copy, PartialEq, Eq, Structural)]
pub struct ModeChange {
    pub terminate: bool,
    pub spawn_workers: usize,
    pub allow_delete: bool,
}

/// Relies on num_cpus::get: the number of logical CPUs available to this
/// process, which is always at least one.
#[verifier::external_body]
fn cpu_count() -> (n: usize)
    ensures
        n >= 1,
{
    num_cpus::get()
}

/// One deletion run: the engine seeded with the root, the job queue through
/// which nodes flow, and the mode the caller has requested.
///
/// The caller owns the worker threads.  It wraps the engine in a lock, hands
/// every worker the queue, and carries out each returned `ModeChange`; the
/// task itself never blocks.
pub struct Task {
    pub mode: OperationMode,
    pub engine: Engine,
    pub job_queue: JobQueue,
    pub num_cpus: usize,
}

impl Task {
    /// Start a run over the tree rooted at `file_path`.  The caller reports
    /// whether the path resolved to a directory; a root that is not a
    /// directory is refused before any work is queued.  On success the root
    /// is the one discovered directory, its scan job is already enqueued,
    /// and no workers are running yet.
    pub fn new(file_path: String, is_dir: bool) -> (r: Result<Task, TaskError>)
        ensures
            match r {
                Ok(t) => {
                    &&& is_dir
                    &&& t.engine.wf()
                    &&& t.mode == OperationMode::Idle
                    &&& t.engine.files@.len() == 1
                    &&& t.engine.files@[0].path == file_path
                    &&& t.engine.files@[0].is_dir
                    &&& t.engine.files@[0].parent is None
                    &&& t.engine.files@[0].state is ScanQueued
                    &&& t.engine.store@ == (JobProgress {
                        found_dirs: 1,
                        found_files: 0,
                        deleted_dirs: 0,
                        deleted_files: 0,
                    })
                    &&& !t.engine.completed
                    &&& t.num_cpus >= 1
                },
                Err(e) => !is_dir && e == TaskError::NotADirectory,
            },
    {
        if !is_dir {
            return Err(TaskError::NotADirectory);
        }
        let engine = Engine::new(file_path);
        let job_queue = JobQueue::new();
        job_queue.send_scan(ScanJob::new(0));
        Ok(
            Task {
                mode: OperationMode::Idle,
                engine,
                job_queue,
                num_cpus: cpu_count(),
            },
        )
    }

    /// Switch the run's mode.  A repeated mode is a no-op; otherwise the
    /// running workers are to be terminated and — unless the new mode is
    /// idle — one worker per CPU spawned in their place, permitted to delete
    /// exactly in `ScanAndDelete` mode.  The pool that owns the threads
    /// carries the returned plan out.
    pub fn set_mode(&mut self, mode: OperationMode) -> (plan: ModeChange)
        ensures
            final(self).mode == mode,
            final(self).engine == old(self).engine,
            final(self).job_queue == old(self).job_queue,
            final(self).num_cpus == old(self).num_cpus,
            mode == old(self).mode ==> plan == (ModeChange {
                terminate: false,
                spawn_workers: 0,
                allow_delete: false,
            }),
            mode != old(self).mode ==> {
                &&& plan.terminate
                &&& match mode {
                    OperationMode::Idle => plan.spawn_workers == 0 && !plan.allow_delete,
                    OperationMode::Scan => plan.spawn_workers == old(self).num_cpus
                        && !plan.allow_delete,
                    OperationMode::ScanAndDelete => plan.spawn_workers == old(self).num_cpus
                        && plan.allow_delete,
                }
            },
    {
        if mode == self.mode {
            return ModeChange { terminate: false, spawn_workers: 0, allow_delete: false };
        }
        let plan = match mode {
            OperationMode::Idle => ModeChange {
                terminate: true,
                spawn_workers: 0,
                allow_delete: false,
            },
            OperationMode::Scan => ModeChange {
                terminate: true,
                spawn_workers: self.num_cpus,
                allow_delete: false,
            },
            OperationMode::ScanAndDelete => ModeChange {
                terminate: true,
                spawn_workers: self.num_cpus,
                allow_delete: true,
            },
        };
        self.mode = mode;
        plan
    }

    /// A point-in-time snapshot of the run's progress.
    pub fn progress(&self) -> (p: JobProgress)
        ensures
            p == self.engine.store@,
    {
        self.engine.progress()
    }
}

} // verus!

