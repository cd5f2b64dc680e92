use vstd::prelude::*;

verus! {

/// Seconds a caller waits for a lock before the operation fails.
pub const OPERATION_TIMEOUT_SECONDS: u64 = 5;

/// Seconds between two sweeps for games that were left behind.
pub const GC_INTERVAL_SECONDS: u64 = 1800;

/// Age in seconds beyond which a sweep removes a game.
pub const GC_CLEANUP_THRESHOLD_SECONDS: u64 = 86400;

/// A moment in time: whole seconds since the start of 1970 (UTC) and the
/// nanoseconds since that second began.
#[derive(Debug, Clone, Copy, PartialEq, Eq, Structural)]
pub struct Timestamp {
    pub seconds: i64,
    pub nanos: u32,
}

/// The moment of the call.
///
/// Trusted: calls `chrono::Utc::now` and reads the result with
/// `DateTime::timestamp` and `DateTime::timestamp_subsec_nanos`. The result
/// depends on the clock, so nothing is claimed of it. The outside function
/// gives up where the system clock stands before 1970.
#[verifier::external_body]
pub(crate) fn read_clock() -> (now: Timestamp) {
    let now = chrono::Utc::now();
    Timestamp { seconds: now.timestamp(), nanos: now.timestamp_subsec_nanos() }
}

impl Timestamp {
    /// Nanoseconds since the start of 1970.
    pub open spec fn total_nanos(self) -> int {
        self.seconds * 1_000_000_000 + self.nanos
    }

    /// Nanoseconds from `self` to `later`; negative where `later` is earlier.
    pub open spec fn nanos_until(self, later: Timestamp) -> int {
        later.total_nanos() - self.total_nanos()
    }

    /// The moment of the call.
    pub fn now() -> Timestamp {
        read_clock()
    }

    /// Whether a game started at `self` is due for removal at `now`: whether
    /// it is older than the cleanup threshold.
    pub fn is_stale(&self, now: &Timestamp) -> (stale: bool)
        ensures
            stale == (self.nanos_until(*now) > GC_CLEANUP_THRESHOLD_SECONDS * 1_000_000_000),
    {
        let started: i128 = (self.seconds as i128) * 1_000_000_000 + (self.nanos as i128);
        let current: i128 = (now.seconds as i128) * 1_000_000_000 + (now.nanos as i128);
        current - started > (GC_CLEANUP_THRESHOLD_SECONDS as i128) * 1_000_000_000
    }
}

} // verus!
