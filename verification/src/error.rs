//! The conditions that the pool reports to its caller.

use vstd::prelude::*;

verus! {

/// What a pool operation can report instead of succeeding.
#[derive(Clone, Copy, Debug, PartialEq, Eq, Structural)]
pub enum PoolError {
    /// A pool was asked for with no workers.
    ZeroSize,
    /// A task was submitted after the producing end of the channel was released.
    PoolClosed,
    /// The worker with this index ended on a faulting task and could not be joined cleanly.
    JoinFault(usize),
}

} // verus!
