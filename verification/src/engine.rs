//! The deletion engine: an arena of nodes, the progress counters, and the
//! completion flag, together with the two state transitions — recording a
//! scan result and recording a deletion — that workers drive.
//!
//! Callers (the worker threads) perform the filesystem calls and the channel
//! waits; every decision about what those calls mean — which nodes exist,
//! which are delete-eligible, when the parent's pending-children count
//! reaches zero, and when the whole run is complete — is made here and is
//! verified.

use vstd::prelude::*;
use crate::counts::{
    count_where, lemma_count_where_equiv, lemma_count_where_le_len, lemma_count_where_none,
    lemma_count_where_push, lemma_count_where_subset, lemma_count_where_update,
    lemma_count_where_zero,
};
use crate::file::{File, FileState, NewFileOptions};
use crate::job::{DeleteJob, JobProgress, JobProgressEvent, JobProgressStore, JobQueue, ScanJob};

verus! {

/// One entry of a directory listing, as the caller hands it to the engine.
#[derive(Debug)]
pub struct ChildEntry {
    pub path: String,
    pub is_dir: bool,
}

/// Why the engine refused a job.
#[derive(Debug, Clone, Copy, PartialEq, Eq, Structural)]
pub enum EngineError {
    /// The job names no node of the arena.
    UnknownFile,
    /// The node is not in the state the job requires, for instance a delete
    /// job for a node that was already deleted.
    WrongState,
}

pub open spec fn dir_pred() -> spec_fn(File) -> bool {
    |f: File| f.is_dir
}

pub open spec fn file_pred() -> spec_fn(File) -> bool {
    |f: File| !f.is_dir
}

pub open spec fn deleted_dir_pred() -> spec_fn(File) -> bool {
    |f: File| f.is_dir && f.state is Deleted
}

pub open spec fn deleted_file_pred() -> spec_fn(File) -> bool {
    |f: File| !f.is_dir && f.state is Deleted
}

pub open spec fn child_pred(p: int) -> spec_fn(File) -> bool {
    |f: File| f.parent matches Some(q) && q as int == p
}

pub open spec fn live_child_pred(p: int) -> spec_fn(File) -> bool {
    |f: File| f.parent matches Some(q) && q as int == p && f.state !is Deleted
}

pub open spec fn child_dir_pred() -> spec_fn(ChildEntry) -> bool {
    |c: ChildEntry| c.is_dir
}

pub open spec fn child_file_pred() -> spec_fn(ChildEntry) -> bool {
    |c: ChildEntry| !c.is_dir
}

/// How many nodes of the arena are directories.
pub open spec fn found_dirs_of(s: Seq<File>) -> nat {
    count_where(s, dir_pred())
}

/// How many nodes of the arena are files.
pub open spec fn found_files_of(s: Seq<File>) -> nat {
    count_where(s, file_pred())
}

/// How many directories of the arena have been deleted.
pub open spec fn deleted_dirs_of(s: Seq<File>) -> nat {
    count_where(s, deleted_dir_pred())
}

/// How many files of the arena have been deleted.
pub open spec fn deleted_files_of(s: Seq<File>) -> nat {
    count_where(s, deleted_file_pred())
}

/// How many nodes name `p` as their parent.
pub open spec fn total_children(s: Seq<File>, p: int) -> nat {
    count_where(s, child_pred(p))
}

/// How many not-yet-deleted nodes name `p` as their parent.
pub open spec fn live_children(s: Seq<File>, p: int) -> nat {
    count_where(s, live_child_pred(p))
}

/// A directory node after its scan came back with `n` children: the count is
/// recorded, and the node is delete-eligible at once when it has no children.
pub open spec fn after_scan(f: File, n: usize) -> File {
    File {
        path: f.path,
        is_dir: f.is_dir,
        parent: f.parent,
        children_count: Some(n),
        state: if n == 0 {
            FileState::DeleteQueued
        } else {
            FileState::Scanned
        },
    }
}

/// The node a directory entry becomes when it is discovered under `parent`.
pub open spec fn child_node(c: ChildEntry, parent: usize) -> File {
    File {
        path: c.path,
        is_dir: c.is_dir,
        parent: Some(parent),
        children_count: None,
        state: if c.is_dir {
            FileState::ScanQueued
        } else {
            FileState::DeleteQueued
        },
    }
}

/// A node after its own deletion: only the lifecycle state changes.
pub open spec fn deleted_node(f: File) -> File {
    File {
        path: f.path,
        is_dir: f.is_dir,
        parent: f.parent,
        children_count: f.children_count,
        state: FileState::Deleted,
    }
}

/// A scanned directory after one of its children was deleted: the
/// pending-children count drops by one, and the directory becomes
/// delete-eligible exactly when the count reaches zero.
pub open spec fn after_child_deleted(f: File) -> File {
    let c = match f.children_count {
        Some(c) => c,
        None => 0,
    };
    File {
        path: f.path,
        is_dir: f.is_dir,
        parent: f.parent,
        children_count: Some((c - 1) as usize),
        state: if c == 1 {
            FileState::DeleteQueued
        } else {
            f.state
        },
    }
}

/// The per-node invariant.
///
/// The parent link points backwards to a directory, the root alone has none,
/// and each node's recorded pending-children count agrees with the arena:
/// `None` until the node is scanned, then exactly the number of its children
/// not yet deleted.  A directory enters `DeleteQueued` or `Deleted` only with
/// a recorded count of zero.
pub open spec fn node_ok(s: Seq<File>, i: int) -> bool {
    let f = s[i];
    &&& (f.parent is None <==> i == 0)
    &&& (f.parent matches Some(p) ==> (p as int) < i && s[p as int].is_dir)
    &&& if f.is_dir {
        match f.state {
            FileState::ScanQueued => f.children_count is None && total_children(s, i) == 0,
            FileState::Scanned => f.children_count matches Some(c) && c as nat == live_children(
                s,
                i,
            ) && c >= 1,
            FileState::DeleteQueued => f.children_count == Some(0usize) && live_children(s, i)
                == 0,
            FileState::Deleted => f.children_count == Some(0usize) && live_children(s, i) == 0,
        }
    } else {
        f.children_count is None && (f.state is DeleteQueued || f.state is Deleted)
    }
}

/// The arena invariant: a root exists and every node satisfies `node_ok`.
pub open spec fn files_ok(s: Seq<File>) -> bool {
    &&& s.len() >= 1
    &&& forall|i: int| 0 <= i < s.len() ==> #[trigger] node_ok(s, i)
}

/// The engine: the node arena (root at index zero), the progress counters,
/// and the completion flag.
pub struct Engine {
    pub files: Vec<File>,
    pub store: JobProgressStore,
    pub completed: bool,
}

impl Engine {
    /// The engine's invariant: the arena is well formed, each counter equals
    /// the corresponding count over the arena, and the run is complete
    /// exactly when the root has been deleted.
    pub open spec fn wf(&self) -> bool {
        &&& files_ok(self.files@)
        &&& self.store@.found_dirs as nat == found_dirs_of(self.files@)
        &&& self.store@.found_files as nat == found_files_of(self.files@)
        &&& self.store@.deleted_dirs as nat == deleted_dirs_of(self.files@)
        &&& self.store@.deleted_files as nat == deleted_files_of(self.files@)
        &&& (self.completed <==> self.files@[0].state is Deleted)
    }

    /// An engine seeded with the root directory: one discovered directory,
    /// queued for a scan, and nothing deleted.
    pub fn new(root_path: String) -> (e: Engine)
        ensures
            e.wf(),
            e.files@.len() == 1,
            e.files@[0].path == root_path,
            e.files@[0].is_dir,
            e.files@[0].parent is None,
            e.files@[0].state is ScanQueued,
            e.store@ == (JobProgress {
                found_dirs: 1,
                found_files: 0,
                deleted_dirs: 0,
                deleted_files: 0,
            }),
            !e.completed,
    {
        let root = File::new(NewFileOptions { path: root_path, is_dir: true, parent: None });
        let mut files: Vec<File> = Vec::new();
        files.push(root);
        let mut store = JobProgressStore::new();
        store.increment_dir_found();
        let e = Engine { files, store, completed: false };
        proof {
            let s = e.files@;
            assert forall|i: int| 0 <= i < s.len() implies #[trigger] node_ok(s, i) by {
                lemma_count_where_none(s, child_pred(i));
            }
            lemma_count_where_push(Seq::<File>::empty(), dir_pred(), s[0]);
            lemma_count_where_push(Seq::<File>::empty(), file_pred(), s[0]);
            lemma_count_where_push(Seq::<File>::empty(), deleted_dir_pred(), s[0]);
            lemma_count_where_push(Seq::<File>::empty(), deleted_file_pred(), s[0]);
            assert(Seq::<File>::empty().push(s[0]) =~= s);
        }
        e
    }

    /// Record the result of scanning directory `id`: create one node per
    /// child, enqueue each child (directories for a scan, files for
    /// deletion), bump the found counters, and record the pending-children
    /// count on `id`.  A directory with no children is delete-eligible at
    /// once and is enqueued for deletion itself.
    ///
    /// The job is refused — and the engine left unchanged — when `id` names
    /// no node or names one that is not awaiting a scan, so a directory is
    /// scanned at most once.
    pub fn apply_scan(&mut self, id: usize, children: Vec<ChildEntry>, queue: &JobQueue) -> (r:
        Result<(), EngineError>)
        requires
            old(self).wf(),
        ensures
            final(self).wf(),
            final(self).completed == old(self).completed,
            match r {
                Ok(()) => {
                    &&& id < old(self).files@.len()
                    &&& old(self).files@[id as int].state is ScanQueued
                    &&& final(self).files@.len() == old(self).files@.len() + children@.len()
                    &&& forall|j: int|
                        0 <= j < old(self).files@.len() && j != id ==> final(self).files@[j]
                            == old(self).files@[j]
                    &&& final(self).files@[id as int] == after_scan(
                        old(self).files@[id as int],
                        children.len(),
                    )
                    &&& forall|k: int|
                        0 <= k < children@.len() ==> final(self).files@[old(self).files@.len() + k]
                            == child_node(children@[k], id)
                    &&& final(self).store@.found_dirs == old(self).store@.found_dirs + count_where(
                        children@,
                        child_dir_pred(),
                    )
                    &&& final(self).store@.found_files == old(self).store@.found_files
                        + count_where(children@, child_file_pred())
                    &&& final(self).store@.deleted_dirs == old(self).store@.deleted_dirs
                    &&& final(self).store@.deleted_files == old(self).store@.deleted_files
                },
                Err(EngineError::UnknownFile) => id >= old(self).files@.len() && *final(self)
                    == *old(self),
                Err(EngineError::WrongState) => id < old(self).files@.len() && !(old(
                    self,
                ).files@[id as int].state is ScanQueued) && *final(self) == *old(self),
            },
    {
        if id >= self.files.len() {
            return Err(EngineError::UnknownFile);
        }
        let queued = match self.files[id].state {
            FileState::ScanQueued => true,
            _ => false,
        };
        if !queued {
            return Err(EngineError::WrongState);
        }
        let ghost s0 = self.files@;
        let ghost st0 = self.store@;
        let ghost c0 = self.completed;
        proof {
            assert(node_ok(s0, id as int));
        }
        let n = children.len();
        let base = self.files.len();
        let mut k: usize = 0;
        while k < n
            invariant
                k <= n,
                n == children@.len(),
                id < s0.len(),
                base == s0.len(),
                files_ok(s0),
                s0[id as int].state is ScanQueued,
                s0[id as int].is_dir,
                self.files@.len() == s0.len() + k,
                forall|j: int| 0 <= j < s0.len() ==> self.files@[j] == s0[j],
                forall|m: int|
                    0 <= m < k ==> self.files@[s0.len() + m] == child_node(
                        #[trigger] children@[m],
                        id,
                    ),
                self.store@.found_dirs as nat == count_where(self.files@, dir_pred()),
                self.store@.found_files as nat == count_where(self.files@, file_pred()),
                self.store@.deleted_dirs == st0.deleted_dirs,
                self.store@.deleted_files == st0.deleted_files,
                self.completed == c0,
                count_where(self.files@, dir_pred()) == count_where(s0, dir_pred()) + count_where(
                    children@.take(k as int),
                    child_dir_pred(),
                ),
                count_where(self.files@, file_pred()) == count_where(s0, file_pred())
                    + count_where(children@.take(k as int), child_file_pred()),
                count_where(self.files@, deleted_dir_pred()) == count_where(
                    s0,
                    deleted_dir_pred(),
                ),
                count_where(self.files@, deleted_file_pred()) == count_where(
                    s0,
                    deleted_file_pred(),
                ),
                forall|p: int|
                    #[trigger] count_where(self.files@, child_pred(p)) == count_where(
                        s0,
                        child_pred(p),
                    ) + (if p == id { k as nat } else { 0nat }),
                forall|p: int|
                    #[trigger] count_where(self.files@, live_child_pred(p)) == count_where(
                        s0,
                        live_child_pred(p),
                    ) + (if p == id { k as nat } else { 0nat }),
                st0.found_dirs as nat == count_where(s0, dir_pred()),
                st0.found_files as nat == count_where(s0, file_pred()),
            decreases n - k,
        {
            let c_is_dir = children[k].is_dir;
            let path = children[k].path.clone();
            let child = File::new(NewFileOptions { path, is_dir: c_is_dir, parent: Some(id) });
            let ghost prev = self.files@;
            let idx = self.files.len();
            self.files.push(child);
            proof {
                assert(child == child_node(children@[k as int], id));
                assert(self.files@ == prev.push(child));
                lemma_count_where_push(prev, dir_pred(), child);
                lemma_count_where_push(prev, file_pred(), child);
                lemma_count_where_push(prev, deleted_dir_pred(), child);
                lemma_count_where_push(prev, deleted_file_pred(), child);
                assert forall|p: int|
                    #[trigger] count_where(self.files@, child_pred(p)) == count_where(
                        s0,
                        child_pred(p),
                    ) + (if p == id { (k + 1) as nat } else { 0nat }) by {
                    lemma_count_where_push(prev, child_pred(p), child);
                }
                assert forall|p: int|
                    #[trigger] count_where(self.files@, live_child_pred(p)) == count_where(
                        s0,
                        live_child_pred(p),
                    ) + (if p == id { (k + 1) as nat } else { 0nat }) by {
                    lemma_count_where_push(prev, live_child_pred(p), child);
                }
                assert(children@.take(k + 1).drop_last() =~= children@.take(k as int));
                assert(children@.take(k + 1).last() == children@[k as int]);
                lemma_count_where_le_len(self.files@, dir_pred());
                lemma_count_where_le_len(self.files@, file_pred());
            }
            // reading the length puts its machine bound in scope, which shows
            // the found counter cannot overflow when it is bumped below
            let _new_len = self.files.len();
            if c_is_dir {
                queue.send_scan(ScanJob::new(idx));
                self.store.increment_dir_found();
            } else {
                queue.send_delete(DeleteJob::new(idx));
                self.store.increment_file_found();
            }
            k = k + 1;
        }
        proof {
            assert(children@.take(n as int) =~= children@);
        }
        let ghost s1 = self.files@;
        let p_path = self.files[id].path.clone();
        let p_parent = self.files[id].parent;
        let updated = File {
            path: p_path,
            is_dir: true,
            parent: p_parent,
            children_count: Some(n),
            state: if n == 0 {
                FileState::DeleteQueued
            } else {
                FileState::Scanned
            },
        };
        self.files[id] = updated;
        if n == 0 {
            queue.send_delete(DeleteJob::new(id));
        }
        proof {
            let s2 = self.files@;
            assert(updated == after_scan(s0[id as int], n));
            assert(s2 == s1.update(id as int, updated));
            lemma_count_where_update(s1, dir_pred(), id as int, updated);
            lemma_count_where_update(s1, file_pred(), id as int, updated);
            lemma_count_where_update(s1, deleted_dir_pred(), id as int, updated);
            lemma_count_where_update(s1, deleted_file_pred(), id as int, updated);
            assert forall|p: int|
                #[trigger] count_where(s2, child_pred(p)) == count_where(s1, child_pred(p)) by {
                lemma_count_where_update(s1, child_pred(p), id as int, updated);
            }
            assert forall|p: int|
                #[trigger] count_where(s2, live_child_pred(p)) == count_where(
                    s1,
                    live_child_pred(p),
                ) by {
                lemma_count_where_update(s1, live_child_pred(p), id as int, updated);
            }
            // before this call the scanned directory had no children at all,
            // so none that were live
            assert(total_children(s0, id as int) == 0);
            assert(forall|f: File|
                #[trigger] live_child_pred(id as int)(f) ==> child_pred(id as int)(f));
            lemma_count_where_subset(s0, live_child_pred(id as int), child_pred(id as int));
            assert(count_where(s0, live_child_pred(id as int)) == 0);
            assert forall|i: int| 0 <= i < s2.len() implies #[trigger] node_ok(s2, i) by {
                if i < s0.len() {
                    assert(node_ok(s0, i));
                    if i != id {
                        assert(s2[i] == s0[i]);
                    }
                } else {
                    // a freshly discovered child: nothing names it as parent
                    let m = i - s0.len();
                    assert(s2[i] == child_node(children@[m], id));
                    assert forall|j: int| 0 <= j < s0.len() implies !#[trigger] child_pred(i)(
                        s0[j],
                    ) by {
                        assert(node_ok(s0, j));
                    }
                    lemma_count_where_none(s0, child_pred(i));
                }
            }
            assert(files_ok(s2));
        }
        Ok(())
    }

    /// Record that node `id` was removed from the filesystem: mark it
    /// deleted, bump the deleted counter, and settle what the deletion
    /// means for the rest of the run.  When the node has a parent, the
    /// parent's pending-children count drops by one under this engine's
    /// exclusive access, so exactly one deletion observes the transition to
    /// zero and enqueues the parent.  When the node is the root, the run is
    /// complete and the completion event is handed back — exactly once,
    /// since a second delete job for the root is refused as `WrongState`.
    ///
    /// The job is refused — and the engine left unchanged — when `id` names
    /// no node or names one that is not awaiting deletion, so a node is
    /// deleted at most once.
    pub fn apply_delete(&mut self, id: usize, queue: &JobQueue) -> (r: Result<
        Option<JobProgressEvent>,
        EngineError,
    >)
        requires
            old(self).wf(),
        ensures
            final(self).wf(),
            match r {
                Ok(ev) => {
                    &&& id < old(self).files@.len()
                    &&& old(self).files@[id as int].state is DeleteQueued
                    &&& final(self).files@.len() == old(self).files@.len()
                    &&& final(self).files@[id as int] == deleted_node(old(self).files@[id as int])
                    &&& final(self).store@.found_dirs == old(self).store@.found_dirs
                    &&& final(self).store@.found_files == old(self).store@.found_files
                    &&& final(self).store@.deleted_dirs == old(self).store@.deleted_dirs + (
                    if old(self).files@[id as int].is_dir {
                        1int
                    } else {
                        0int
                    })
                    &&& final(self).store@.deleted_files == old(self).store@.deleted_files + (
                    if old(self).files@[id as int].is_dir {
                        0int
                    } else {
                        1int
                    })
                    &&& match old(self).files@[id as int].parent {
                        Some(p) => {
                            &&& ev is None
                            &&& final(self).completed == old(self).completed
                            &&& old(self).files@[p as int].state is Scanned
                            &&& old(self).files@[p as int].children_count matches Some(c)
                            &&& c >= 1
                            &&& final(self).files@[p as int] == after_child_deleted(
                                old(self).files@[p as int],
                            )
                            &&& forall|j: int|
                                0 <= j < old(self).files@.len() && j != id && j != p
                                    ==> #[trigger] final(self).files@[j] == old(self).files@[j]
                        },
                        None => {
                            &&& ev == Some(JobProgressEvent::DeleteComplete)
                            &&& !old(self).completed
                            &&& final(self).completed
                            &&& forall|j: int|
                                0 <= j < old(self).files@.len() && j != id
                                    ==> #[trigger] final(self).files@[j] == old(self).files@[j]
                        },
                    }
                },
                Err(EngineError::UnknownFile) => id >= old(self).files@.len() && *final(self)
                    == *old(self),
                Err(EngineError::WrongState) => id < old(self).files@.len() && !(old(
                    self,
                ).files@[id as int].state is DeleteQueued) && *final(self) == *old(self),
            },
    {
        if id >= self.files.len() {
            return Err(EngineError::UnknownFile);
        }
        let queued = match self.files[id].state {
            FileState::DeleteQueued => true,
            _ => false,
        };
        if !queued {
            return Err(EngineError::WrongState);
        }
        let ghost s0 = self.files@;
        proof {
            assert(node_ok(s0, id as int));
        }
        let is_dir = self.files[id].is_dir;
        let d_path = self.files[id].path.clone();
        let d_parent = self.files[id].parent;
        let d_count = self.files[id].children_count;
        let deleted = File {
            path: d_path,
            is_dir,
            parent: d_parent,
            children_count: d_count,
            state: FileState::Deleted,
        };
        self.files[id] = deleted;
        // reading the length puts its machine bound in scope, which shows the
        // deleted counter cannot overflow when it is bumped below
        let _total = self.files.len();
        proof {
            let s1 = self.files@;
            assert(deleted == deleted_node(s0[id as int]));
            lemma_count_where_update(s0, dir_pred(), id as int, deleted);
            lemma_count_where_update(s0, file_pred(), id as int, deleted);
            lemma_count_where_update(s0, deleted_dir_pred(), id as int, deleted);
            lemma_count_where_update(s0, deleted_file_pred(), id as int, deleted);
            lemma_count_where_le_len(s1, deleted_dir_pred());
            lemma_count_where_le_len(s1, deleted_file_pred());
            assert forall|q: int|
                #[trigger] count_where(s1, child_pred(q)) == count_where(s0, child_pred(q)) by {
                lemma_count_where_update(s0, child_pred(q), id as int, deleted);
            }
            assert forall|q: int|
                #[trigger] count_where(s1, live_child_pred(q)) == count_where(
                    s0,
                    live_child_pred(q),
                ) - (
                if live_child_pred(q)(s0[id as int]) {
                    1int
                } else {
                    0int
                }) by {
                lemma_count_where_update(s0, live_child_pred(q), id as int, deleted);
            }
        }
        if is_dir {
            self.store.increment_dir_deleted();
        } else {
            self.store.increment_file_deleted();
        }
        match d_parent {
            Some(p) => {
                let ghost s1 = self.files@;
                proof {
                    assert(node_ok(s0, p as int));
                    assert(child_pred(p as int)(s0[id as int]));
                    assert(live_child_pred(p as int)(s0[id as int]));
                    if s0[p as int].state is ScanQueued {
                        lemma_count_where_zero(s0, child_pred(p as int), id as int);
                    }
                    if s0[p as int].state is DeleteQueued || s0[p as int].state is Deleted {
                        lemma_count_where_zero(s0, live_child_pred(p as int), id as int);
                    }
                    assert(s0[p as int].state is Scanned);
                    if count_where(s0, live_child_pred(p as int)) == 0 {
                        lemma_count_where_zero(s0, live_child_pred(p as int), id as int);
                    }
                }
                let c = match self.files[p].children_count {
                    Some(c) => c,
                    None => 0,
                };
                let new_c = c - 1;
                let p_path = self.files[p].path.clone();
                let p_parent = self.files[p].parent;
                let updated = File {
                    path: p_path,
                    is_dir: true,
                    parent: p_parent,
                    children_count: Some(new_c),
                    state: if new_c == 0 {
                        FileState::DeleteQueued
                    } else {
                        FileState::Scanned
                    },
                };
                self.files[p] = updated;
                if new_c == 0 {
                    queue.send_delete(DeleteJob::new(p));
                }
                proof {
                    let s2 = self.files@;
                    assert(updated == after_child_deleted(s0[p as int]));
                    lemma_count_where_update(s1, dir_pred(), p as int, updated);
                    lemma_count_where_update(s1, file_pred(), p as int, updated);
                    lemma_count_where_update(s1, deleted_dir_pred(), p as int, updated);
                    lemma_count_where_update(s1, deleted_file_pred(), p as int, updated);
                    assert forall|q: int|
                        #[trigger] count_where(s2, child_pred(q)) == count_where(
                            s1,
                            child_pred(q),
                        ) by {
                        lemma_count_where_update(s1, child_pred(q), p as int, updated);
                    }
                    assert forall|q: int|
                        #[trigger] count_where(s2, live_child_pred(q)) == count_where(
                            s1,
                            live_child_pred(q),
                        ) by {
                        lemma_count_where_update(s1, live_child_pred(q), p as int, updated);
                    }
                    assert forall|i: int| 0 <= i < s2.len() implies #[trigger] node_ok(s2, i) by {
                        assert(node_ok(s0, i));
                        if i != id && i != p {
                            assert(s2[i] == s0[i]);
                        }
                    }
                }
                Ok(None)
            },
            None => {
                self.completed = true;
                proof {
                    let s2 = self.files@;
                    assert(id == 0);
                    assert forall|i: int| 0 <= i < s2.len() implies #[trigger] node_ok(s2, i) by {
                        assert(node_ok(s0, i));
                        if i != id {
                            assert(s2[i] == s0[i]);
                        }
                    }
                }
                Ok(Some(JobProgressEvent::DeleteComplete))
            },
        }
    }

    /// The current values of the four progress counters.
    pub fn progress(&self) -> (p: JobProgress)
        ensures
            p == self.store@,
    {
        self.store.progress()
    }

    /// The path a worker must list to service a scan job for `id`, or `None`
    /// when the job names no node awaiting a scan.
    pub fn scan_target(&self, id: usize) -> (r: Option<String>)
        ensures
            match r {
                Some(path) => id < self.files@.len() && self.files@[id as int].state
                    is ScanQueued && path == self.files@[id as int].path,
                None => !(id < self.files@.len() && self.files@[id as int].state is ScanQueued),
            },
    {
        if id < self.files.len() {
            let queued = match self.files[id].state {
                FileState::ScanQueued => true,
                _ => false,
            };
            if queued {
                Some(self.files[id].path.clone())
            } else {
                None
            }
        } else {
            None
        }
    }

    /// The path a worker must remove to service a delete job for `id` — and
    /// whether it is a directory — or `None` when the job names no node
    /// awaiting deletion.
    pub fn delete_target(&self, id: usize) -> (r: Option<(String, bool)>)
        ensures
            match r {
                Some(t) => id < self.files@.len() && self.files@[id as int].state
                    is DeleteQueued && t.0 == self.files@[id as int].path && t.1
                    == self.files@[id as int].is_dir,
                None => !(id < self.files@.len() && self.files@[id as int].state is DeleteQueued),
            },
    {
        if id < self.files.len() {
            let queued = match self.files[id].state {
                FileState::DeleteQueued => true,
                _ => false,
            };
            if queued {
                Some((self.files[id].path.clone(), self.files[id].is_dir))
            } else {
                None
            }
        } else {
            None
        }
    }
}

/// What has been deleted never exceeds what has been found, counter by
/// counter and summed.
pub proof fn lemma_deleted_never_exceeds_found(e: &Engine)
    requires
        e.wf(),
    ensures
        e.store@.deleted_dirs <= e.store@.found_dirs,
        e.store@.deleted_files <= e.store@.found_files,
        e.store@.deleted_dirs + e.store@.deleted_files <= e.store@.found_dirs
            + e.store@.found_files,
{
    assert(forall|f: File| #[trigger] deleted_dir_pred()(f) ==> dir_pred()(f));
    assert(forall|f: File| #[trigger] deleted_file_pred()(f) ==> file_pred()(f));
    lemma_count_where_subset(e.files@, deleted_dir_pred(), dir_pred());
    lemma_count_where_subset(e.files@, deleted_file_pred(), file_pred());
}

/// A directory that is delete-eligible — queued for deletion or already
/// deleted — has a recorded pending-children count of zero, and every one of
/// its children has been deleted.
pub proof fn lemma_delete_waits_for_children(e: &Engine, i: int)
    requires
        e.wf(),
        0 <= i < e.files@.len(),
        e.files@[i].is_dir,
        e.files@[i].state is DeleteQueued || e.files@[i].state is Deleted,
    ensures
        e.files@[i].children_count == Some(0usize),
        live_children(e.files@, i) == 0,
        forall|j: int|
            0 <= j < e.files@.len() && #[trigger] child_pred(i)(e.files@[j])
                ==> e.files@[j].state is Deleted,
{
    let s = e.files@;
    assert(node_ok(s, i));
    assert forall|j: int|
        0 <= j < s.len() && #[trigger] child_pred(i)(s[j]) implies s[j].state is Deleted by {
        if s[j].state !is Deleted {
            assert(live_child_pred(i)(s[j]));
            lemma_count_where_zero(s, live_child_pred(i), j);
        }
    }
}

/// Once the root is deleted the whole arena is: walking the parent links
/// from any undeleted node would reach an undeleted root.
proof fn lemma_root_deleted_all_deleted(s: Seq<File>, i: int)
    requires
        files_ok(s),
        s[0].state is Deleted,
        0 <= i < s.len(),
    ensures
        s[i].state is Deleted,
    decreases i,
{
    if i != 0 {
        assert(node_ok(s, i));
        match s[i].parent {
            Some(p) => {
                lemma_root_deleted_all_deleted(s, p as int);
                assert(node_ok(s, p as int));
                if s[i].state !is Deleted {
                    assert(live_child_pred(p as int)(s[i]));
                    lemma_count_where_zero(s, live_child_pred(p as int), i);
                }
            },
            None => {},
        }
    }
}

/// After completion every node of the run is deleted, and the deleted
/// counters have caught up with the found counters: everything discovered
/// was removed.
pub proof fn lemma_completion_all_deleted(e: &Engine)
    requires
        e.wf(),
        e.completed,
    ensures
        forall|i: int| 0 <= i < e.files@.len() ==> (#[trigger] e.files@[i]).state is Deleted,
        e.store@.deleted_dirs == e.store@.found_dirs,
        e.store@.deleted_files == e.store@.found_files,
{
    let s = e.files@;
    assert forall|i: int| 0 <= i < s.len() implies (#[trigger] s[i]).state is Deleted by {
        lemma_root_deleted_all_deleted(s, i);
    }
    assert(forall|i: int|
        0 <= i < s.len() ==> (#[trigger] deleted_dir_pred()(s[i]) <==> #[trigger] dir_pred()(
            s[i],
        )));
    assert(forall|i: int|
        0 <= i < s.len() ==> (#[trigger] deleted_file_pred()(s[i]) <==> #[trigger] file_pred()(
            s[i],
        )));
    lemma_count_where_equiv(s, deleted_dir_pred(), dir_pred());
    lemma_count_where_equiv(s, deleted_file_pred(), file_pred());
}

/// The completion event is tied to the root.  Once a run is complete the
/// root is deleted, and a further delete job for it can only be refused —
/// together with `apply_delete`'s contract, the event is handed out exactly
/// once per run.
pub proof fn lemma_completion_only_after_root(e: &Engine)
    requires
        e.wf(),
        e.completed,
    ensures
        e.files@[0].state is Deleted,
        !(e.files@[0].state is DeleteQueued),
{
}

} // verus!
