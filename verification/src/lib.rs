//! A durable HTTP job queue engine: admission with fingerprint-based
//! deduplication, an atomic claim discipline over a job store, per-host
//! rate limiting, retry/backoff/cron scheduling, and a lease monitor
//! that rescues stalled jobs.
use vstd::prelude::*;

pub mod admission;
pub mod fingerprint;
pub mod gate;
pub mod hexfmt;
pub mod job;
pub mod monitor;
pub mod numfmt;
pub mod order;
pub mod sched;
pub mod store;
pub mod worker;

verus! {

/// A job that settles unsuccessfully with this many pickups is declared dead.
pub const MAX_ATTEMPTS: i32 = 10;

/// Milliseconds a Running row may go without a check-in before the
/// monitor treats its worker as dead.
pub const LEASE_MS: i64 = 30_000;

/// Base idle sleep of a worker with no eligible job, before jitter.
pub const IDLE_SLEEP_MS: u64 = 5_000;

/// Steady per-host rate of the limiter.
pub const RATE_PER_SECOND: u32 = 5;

/// Latest instant the engine reasons about: 9999-12-31T23:59:59.999Z
/// as milliseconds since the Unix epoch.
pub const MAX_TIME_MS: i64 = 253_402_300_799_999;

/// All timestamps handled by the engine sit in the epoch..MAX_TIME_MS window.
pub open spec fn valid_time(t: int) -> bool {
    0 <= t <= MAX_TIME_MS
}

} // verus!
