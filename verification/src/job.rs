//! Job accounting: the progress counters and the kinds of work that flow
//! through the engine.

use vstd::prelude::*;

verus! {

#[verifier::external_type_specification]
#[verifier::external_body]
#[verifier::reject_recursive_types(T)]
pub struct ExSender<T>(crossbeam::channel::Sender<T>);

#[verifier::external_type_specification]
#[verifier::external_body]
#[verifier::reject_recursive_types(T)]
pub struct ExReceiver<T>(crossbeam::channel::Receiver<T>);

/// The two kinds of work a worker can service.
#[derive(Debug, Clone, Copy, PartialEq, Eq, Structural)]
pub enum JobType {
    Scan,
    Delete,
}

/// Fired when the root node has been deleted and nothing is left to do.
#[derive(Debug, Clone, Copy, PartialEq, Eq, Structural)]
pub enum JobProgressEvent {
    DeleteComplete,
}

/// A unit of work that lists one directory's children.  Carries the index of
/// the directory in the engine's arena.
#[derive(Debug, Clone, Copy, PartialEq, Eq, Structural)]
pub struct ScanJob {
    file: usize,
}

impl ScanJob {
    pub fn new(file: usize) -> (j: Self)
        ensures
            j.file_spec() == file,
    {
        Self { file }
    }

    /// The arena index this job is about.
    pub fn file(self) -> (id: usize)
        ensures
            id == self.file_spec(),
    {
        self.file
    }

    pub closed spec fn file_spec(self) -> usize {
        self.file
    }
}

/// A unit of work that removes one file or one already-empty directory.
/// Carries the index of the node in the engine's arena.
#[derive(Debug, Clone, Copy, PartialEq, Eq, Structural)]
pub struct DeleteJob {
    file: usize,
}

impl DeleteJob {
    pub fn new(file: usize) -> (j: Self)
        ensures
            j.file_spec() == file,
    {
        Self { file }
    }

    /// The arena index this job is about.
    pub fn file(self) -> (id: usize)
        ensures
            id == self.file_spec(),
    {
        self.file
    }

    pub closed spec fn file_spec(self) -> usize {
        self.file
    }
}

/// The two first-in-first-out job streams through which nodes flow between
/// workers: scan jobs (always directories) and delete jobs (files or
/// already-empty directories).  Both are multi-producer multi-consumer and
/// unbounded, so enqueueing never blocks.
pub struct JobQueue {
    scan_sender: crossbeam::channel::Sender<ScanJob>,
    scan_receiver: crossbeam::channel::Receiver<ScanJob>,
    delete_sender: crossbeam::channel::Sender<DeleteJob>,
    delete_receiver: crossbeam::channel::Receiver<DeleteJob>,
}

impl JobQueue {
    /// Relies on crossbeam_channel::unbounded: each call creates a connected
    /// sender/receiver pair for a fresh channel of unbounded capacity.
    #[verifier::external_body]
    pub fn new() -> (q: Self) {
        let (scan_sender, scan_receiver) = crossbeam::channel::unbounded();
        let (delete_sender, delete_receiver) = crossbeam::channel::unbounded();
        JobQueue { scan_sender, scan_receiver, delete_sender, delete_receiver }
    }

    pub fn scan_sender(&self) -> &crossbeam::channel::Sender<ScanJob> {
        &self.scan_sender
    }

    pub fn scan_receiver(&self) -> &crossbeam::channel::Receiver<ScanJob> {
        &self.scan_receiver
    }

    pub fn delete_sender(&self) -> &crossbeam::channel::Sender<DeleteJob> {
        &self.delete_sender
    }

    pub fn delete_receiver(&self) -> &crossbeam::channel::Receiver<DeleteJob> {
        &self.delete_receiver
    }

    /// Relies on crossbeam_channel::Sender::send: on an unbounded channel the
    /// call never blocks, and it fails only when every receiver has been
    /// dropped — this queue holds a receiver of the same channel, so while it
    /// lives the job is accepted.
    #[verifier::external_body]
    pub(crate) fn send_scan(&self, job: ScanJob) {
        let _ = self.scan_sender.send(job);
    }

    /// Relies on crossbeam_channel::Sender::send: on an unbounded channel the
    /// call never blocks, and it fails only when every receiver has been
    /// dropped — this queue holds a receiver of the same channel, so while it
    /// lives the job is accepted.
    #[verifier::external_body]
    pub(crate) fn send_delete(&self, job: DeleteJob) {
        let _ = self.delete_sender.send(job);
    }
}

/// A point-in-time snapshot of the four progress counters.
///
/// The counters are read independently, so a snapshot taken while workers run
/// need not be a consistent joint state.
#[derive(Debug, Clone, Copy, PartialEq, Eq, Structural)]
pub struct JobProgress {
    pub found_dirs: usize,
    pub found_files: usize,
    pub deleted_dirs: usize,
    pub deleted_files: usize,
}

/// The four monotonic progress counters: directories and files found, and
/// directories and files deleted.  Each is incremented exactly once per
/// corresponding event.
#[derive(Debug)]
pub struct JobProgressStore {
    found_dirs: usize,
    found_files: usize,
    deleted_dirs: usize,
    deleted_files: usize,
}

impl View for JobProgressStore {
    type V = JobProgress;

    closed spec fn view(&self) -> JobProgress {
        JobProgress {
            found_dirs: self.found_dirs,
            found_files: self.found_files,
            deleted_dirs: self.deleted_dirs,
            deleted_files: self.deleted_files,
        }
    }
}

impl JobProgressStore {
    /// A fresh store with every counter at zero.
    pub fn new() -> (s: Self)
        ensures
            s@ == (JobProgress { found_dirs: 0, found_files: 0, deleted_dirs: 0, deleted_files: 0 }),
    {
        JobProgressStore { found_dirs: 0, found_files: 0, deleted_dirs: 0, deleted_files: 0 }
    }

    pub fn increment_dir_found(&mut self)
        requires
            old(self)@.found_dirs < usize::MAX,
        ensures
            final(self)@ == (JobProgress { found_dirs: (old(self)@.found_dirs + 1) as usize, ..old(self)@ }),
    {
        self.found_dirs = self.found_dirs + 1;
    }

    pub fn increment_file_found(&mut self)
        requires
            old(self)@.found_files < usize::MAX,
        ensures
            final(self)@ == (JobProgress { found_files: (old(self)@.found_files + 1) as usize, ..old(self)@ }),
    {
        self.found_files = self.found_files + 1;
    }

    pub fn increment_dir_deleted(&mut self)
        requires
            old(self)@.deleted_dirs < usize::MAX,
        ensures
            final(self)@ == (JobProgress { deleted_dirs: (old(self)@.deleted_dirs + 1) as usize, ..old(self)@ }),
    {
        self.deleted_dirs = self.deleted_dirs + 1;
    }

    pub fn increment_file_deleted(&mut self)
        requires
            old(self)@.deleted_files < usize::MAX,
        ensures
            final(self)@ == (JobProgress { deleted_files: (old(self)@.deleted_files + 1) as usize, ..old(self)@ }),
    {
        self.deleted_files = self.deleted_files + 1;
    }

    /// The current values of the four counters.
    pub fn progress(&self) -> (p: JobProgress)
        ensures
            p == self@,
    {
        JobProgress {
            found_dirs: self.found_dirs,
            found_files: self.found_files,
            deleted_dirs: self.deleted_dirs,
            deleted_files: self.deleted_files,
        }
    }
}

} // verus!
