//! One filesystem entry tracked by the engine.
//!
//! A node records its path, whether it is a directory, an index to its parent
//! in the engine's arena, and — once the node has been scanned — how many of
//! its children have not yet been deleted.

use vstd::prelude::*;

verus! {

/// Where a node stands in its lifecycle.
///
/// Directories move `ScanQueued` → `Scanned` → `DeleteQueued` → `Deleted`
/// (skipping `Scanned` when the scan finds no children); files are
/// delete-eligible from the start and move `DeleteQueued` → `Deleted`.
#[derive(Debug, Clone, Copy, PartialEq, Eq, Structural)]
pub enum FileState {
    ScanQueued,
    Scanned,
    DeleteQueued,
    Deleted,
}

/// What a caller supplies when a node is discovered.
#[derive(Debug)]
pub struct NewFileOptions {
    pub path: String,
    pub is_dir: bool,
    pub parent: Option<usize>,
}

/// One filesystem entry.  `parent` is an index into the engine's arena and is
/// `None` only for the root; `children_count` is `None` until the node has
/// been scanned, then holds the number of children not yet deleted.
#[derive(Debug)]
pub struct File {
    pub path: String,
    pub is_dir: bool,
    pub parent: Option<usize>,
    pub children_count: Option<usize>,
    pub state: FileState,
}

impl File {
    /// A freshly discovered node: not yet scanned, and queued for a scan if it
    /// is a directory, for deletion otherwise.
    pub fn new(options: NewFileOptions) -> (f: File)
        ensures
            f.path == options.path,
            f.is_dir == options.is_dir,
            f.parent == options.parent,
            f.children_count is None,
            f.state == (if options.is_dir { FileState::ScanQueued } else { FileState::DeleteQueued }),
    {
        let state = if options.is_dir { FileState::ScanQueued } else { FileState::DeleteQueued };
        File {
            path: options.path,
            is_dir: options.is_dir,
            parent: options.parent,
            children_count: None,
            state,
        }
    }
}

} // verus!
