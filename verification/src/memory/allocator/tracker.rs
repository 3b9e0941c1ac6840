//! Allocation tracking: how many blocks and bytes were handed out and
//! given back.

use vstd::prelude::*;

verus! {

/// Counts of allocations and frees, in blocks and in bytes.
pub struct Tracker {
    pub allocation: usize,
    pub allocated_bytes: usize,
    pub freed: usize,
    pub freed_bytes: usize,
}

/// Whether `tracker` shows a leak: the blocks or the bytes handed out differ
/// from those given back.
pub fn leaks(tracker: &Tracker) -> (res: bool)
    ensures
        res == (tracker.allocation != tracker.freed || tracker.allocated_bytes != tracker.freed_bytes),
{
    tracker.allocation != tracker.freed || tracker.allocated_bytes != tracker.freed_bytes
}

} // verus!
