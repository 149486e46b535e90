//! Per-tick time snapshot.
//!
//! The step driver records, once per simulation tick and before the solver
//! runs, the timestamp it observed and the elapsed delta of the step. The
//! tracker holds exactly one snapshot — no history: each update fully
//! supersedes the previous one. The delta is carried as the raw bit
//! pattern of a binary64 fractional-seconds value; turning those bits back
//! into a number is the unverified boundary's concern, not this crate's.

use vstd::prelude::*;

verus! {

/// The one snapshot of tick time: the timestamp observed at the latest
/// update and the raw bits of the elapsed delta in fractional seconds.
#[derive(Clone, Debug)]
pub struct Time {
    timestamp: u64,
    delta_seconds_bits: u64,
}

/// What a tick-time tracker owes the step driver: updating the timestamp
/// replaces it and touches nothing else.
pub trait TimeInterface {
    /// The timestamp the tracker currently holds.
    spec fn spec_timestamp(&self) -> u64;

    /// The raw bits of the delta the tracker currently holds.
    spec fn spec_delta_bits(&self) -> u64;

    /// Records `timestamp` as the tracked timestamp, superseding the
    /// previous one entirely and leaving the delta untouched.
    fn update_with_timestamp(&mut self, timestamp: u64)
        ensures
            final(self).spec_timestamp() == timestamp,
            final(self).spec_delta_bits() == old(self).spec_delta_bits(),
    ;

    /// The tracked delta, as the raw bits of a binary64 seconds value.
    fn delta_seconds_bits(&self) -> (bits: u64)
        ensures
            bits == self.spec_delta_bits(),
    ;
}

impl Time {
    /// The timestamp this snapshot holds.
    pub closed spec fn view_timestamp(self) -> u64 {
        self.timestamp
    }

    /// The delta bits this snapshot holds.
    pub closed spec fn view_delta_bits(self) -> u64 {
        self.delta_seconds_bits
    }

    /// Reads the tracked timestamp.
    pub fn timestamp(&self) -> (t: u64)
        ensures
            t == self.view_timestamp(),
    {
        self.timestamp
    }
}

impl Default for Time {
    /// The snapshot at startup: timestamp zero and a zero-second delta
    /// (all bits clear is the binary64 encoding of zero seconds).
    fn default() -> (t: Time)
        ensures
            t.view_timestamp() == 0,
            t.view_delta_bits() == 0,
    {
        Time { timestamp: 0, delta_seconds_bits: 0 }
    }
}

impl TimeInterface for Time {
    open spec fn spec_timestamp(&self) -> u64 {
        self.view_timestamp()
    }

    open spec fn spec_delta_bits(&self) -> u64 {
        self.view_delta_bits()
    }

    fn update_with_timestamp(&mut self, timestamp: u64) {
        self.timestamp = timestamp;
    }

    fn delta_seconds_bits(&self) -> (bits: u64) {
        self.delta_seconds_bits
    }
}

/// The update relation `update_with_timestamp` promises: the new timestamp
/// is tracked and the delta is untouched.
pub open spec fn updated(pre: Time, post: Time, timestamp: u64) -> bool {
    post.view_timestamp() == timestamp && post.view_delta_bits() == pre.view_delta_bits()
}

/// Tick isolation: two successive updates leave exactly the state of the
/// later one — the earlier timestamp survives nowhere in the snapshot.
pub proof fn lemma_tick_isolation(s0: Time, s1: Time, s2: Time, t1: u64, t2: u64)
    requires
        updated(s0, s1, t1),
        updated(s1, s2, t2),
    ensures
        updated(s0, s2, t2),
        s2.view_timestamp() == t2,
{
}

} // verus!
