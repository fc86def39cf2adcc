//! How long to wait before retrying after a transfer fails, and the other
//! transfer timers.

use vstd::prelude::*;
use crate::clock::Delay;

verus! {

/// The timers of the transfer subsystem.
#[derive(Debug, Clone, Copy)]
pub enum RetryKind {
    /// Retry after a failed connection.
    Connection,
    /// Retry after a disk error.
    Io,
    /// How long to wait for a file connection after a transfer response.
    FConnectionWait,
    /// How often to ask a peer for our place in its queue.
    PlaceInQueuePoll,
}

/// The seconds each timer runs.
pub open spec fn retry_secs(k: RetryKind) -> u64 {
    match k {
        RetryKind::Connection => 180,
        RetryKind::Io => 900,
        RetryKind::FConnectionWait => 45,
        RetryKind::PlaceInQueuePoll => 300,
    }
}

impl RetryKind {
    /// How long the timer runs: 3 minutes after a failed connection, 15 after
    /// a disk error, 45 seconds for a file connection to arrive, 5 minutes
    /// between queue-place polls.
    pub fn duration(&self) -> (d: Delay)
        ensures
            d.secs == retry_secs(*self),
    {
        match self {
            RetryKind::Connection => Delay::from_secs(3 * 60),
            RetryKind::Io => Delay::from_secs(15 * 60),
            RetryKind::FConnectionWait => Delay::from_secs(45),
            RetryKind::PlaceInQueuePoll => Delay::from_secs(5 * 60),
        }
    }
}

} // verus!
