//! How a host waits for a reload: what to do after each poll.
//!
//! The runtime never blocks. A host that has handed over a new artifact
//! polls until the runtime reports the swap, waits a moment between polls,
//! and gives up once too much time has gone by.

use vstd::prelude::*;

verus! {

/// How long a host waits for a reload before it gives up, in nanoseconds:
/// ten seconds.
pub const RELOAD_TIMEOUT_NANOS: u128 = 10_000_000_000;

/// How long a host sleeps between two polls, in milliseconds.
pub const POLL_INTERVAL_MILLIS: u64 = 1;

/// What a host does after a poll.
#[derive(Clone, Copy, Debug, PartialEq, Eq, Structural)]
pub enum PollVerdict {
    /// The swap occurred: stop polling.
    Done,
    /// Nothing was swapped yet: sleep this many milliseconds and poll again.
    Retry { sleep_millis: u64 },
    /// Nothing was swapped and the time is up: stop polling and fail.
    TimedOut,
}

/// The verdict after a poll that answered `swapped`, taken `elapsed_nanos`
/// after the host began to wait. The time is up only once more than the
/// timeout has gone by.
pub open spec fn verdict(swapped: bool, elapsed_nanos: u128) -> PollVerdict {
    if swapped {
        PollVerdict::Done
    } else if elapsed_nanos > RELOAD_TIMEOUT_NANOS {
        PollVerdict::TimedOut
    } else {
        PollVerdict::Retry { sleep_millis: POLL_INTERVAL_MILLIS }
    }
}

/// Decides what to do after a poll.
pub fn after_poll(swapped: bool, elapsed_nanos: u128) -> (out: PollVerdict)
    ensures
        out == verdict(swapped, elapsed_nanos),
{
    if swapped {
        PollVerdict::Done
    } else if elapsed_nanos > RELOAD_TIMEOUT_NANOS {
        PollVerdict::TimedOut
    } else {
        PollVerdict::Retry { sleep_millis: POLL_INTERVAL_MILLIS }
    }
}

} // verus!
