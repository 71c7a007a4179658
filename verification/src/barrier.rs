//! The barrier at which the workers of one run meet before they start.
//!
//! Every worker arrives once and then spins until the barrier is open. The
//! barrier counts arrivals in an atomic counter; what the counter holds at
//! any moment depends on the other workers, so nothing is claimed of it.

use std::sync::atomic::AtomicU64;
use vstd::prelude::*;

verus! {

/// Whether a barrier for `participants` workers is open once `arrived` of
/// them have arrived.
pub open spec fn all_arrived(arrived: u64, participants: u64) -> bool {
    arrived == participants
}

/// Whether a barrier for `participants` workers is open once `arrived` of
/// them have arrived.
pub fn is_open_at(arrived: u64, participants: u64) -> (open: bool)
    ensures
        open == all_arrived(arrived, participants),
{
    arrived == participants
}

/// The barrier of one run.
pub struct StartBarrier {
    arrived: AtomicU64,
    participants: u64,
}

impl StartBarrier {
    /// The number of workers that the barrier waits for.
    pub closed spec fn participants(&self) -> u64 {
        self.participants
    }

    /// A barrier for `participants` workers, at which none has arrived.
    pub fn new(participants: u64) -> (barrier: StartBarrier)
        ensures
            barrier.participants() == participants,
    {
        StartBarrier { arrived: AtomicU64::new(0), participants }
    }

    /// Counts the calling worker as arrived.
    pub fn arrive(&self) {
        let _ = self.arrived.fetch_add(1, std::sync::atomic::Ordering::SeqCst);
    }

    /// Whether all workers had arrived when the counter was read.
    pub fn is_open(&self) -> bool {
        let arrived: u64 = self.arrived.load(std::sync::atomic::Ordering::SeqCst);
        is_open_at(arrived, self.participants)
    }
}

} // verus!
