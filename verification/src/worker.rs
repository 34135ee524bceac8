//! Control messages for the worker pool.
//!
//! A worker is a loop that drains scan and delete jobs; the pool owns one
//! command channel per worker and a shared completion-event channel.  The
//! loop itself blocks on channels and performs filesystem calls, so it runs
//! outside the library; every decision it takes — what a scan result means,
//! when a node is delete-eligible, when the run is complete — is the
//! engine's, and is verified there.

use vstd::prelude::*;

verus! {

/// What the pool can tell a worker.  Termination is cooperative: a worker
/// obeys at the top of its next loop iteration.
#[derive(Debug, Clone, Copy, PartialEq, Eq, Structural)]
pub enum WorkerCommand {
    Terminate,
}

} // verus!
