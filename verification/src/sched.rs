//! Scheduling arithmetic: retry backoff with jitter, the next fire time
//! of a recurring job's cron expression, and the idle-poll jitter.
use vstd::prelude::*;
use vstd::arithmetic::power2::{lemma2_to64, lemma_pow2_strictly_increases, pow2};

use crate::valid_time;

verus! {

/// Relies on rand::random_range: a uniform sample within the given
/// closed range; panics on an empty range, which `lo <= hi` rules out.
#[verifier::external_body]
fn random_in_range(lo: i64, hi: i64) -> (r: i64)
    requires
        lo <= hi,
    ensures
        lo <= r <= hi,
{
    rand::random_range(lo..=hi)
}

/// Backoff before the retry after `attempts` pickups: `1000 * 2^attempts`
/// milliseconds plus the jitter, clamped to be non-negative. A negative
/// pickup count behaves like zero.
pub open spec fn backoff_v(attempts: int, jitter: int) -> int {
    let e: nat = if attempts < 0 {
        0
    } else {
        attempts as nat
    };
    let raw = 1000 * pow2(e) + jitter;
    if raw < 0 {
        0
    } else {
        raw
    }
}

/// `2^e` for small exponents.
fn pow2_i64(e: u32) -> (r: i64)
    requires
        e <= 53,
    ensures
        r == pow2(e as nat),
{
    proof {
        lemma2_to64();
    }
    let mut acc: i64 = 1;
    let mut i: u32 = 0;
    while i < e
        invariant
            i <= e <= 53,
            acc == pow2(i as nat),
        decreases e - i,
    {
        proof {
            lemma2_to64();
            vstd::arithmetic::power2::lemma2_to64_rest();
            if (i as nat) < 52 {
                lemma_pow2_strictly_increases(i as nat, 52);
            }
            assert(pow2((i + 1) as nat) == 2 * pow2(i as nat)) by {
                vstd::arithmetic::power2::lemma_pow2_unfold((i + 1) as nat);
            }
        }
        acc = acc * 2;
        i = i + 1;
    }
    acc
}

/// The backoff for a given pickup count and jitter sample.
pub fn backoff_with(attempts: i32, jitter: i64) -> (r: i64)
    requires
        attempts <= 53,
        -500 <= jitter <= 500,
    ensures
        r == backoff_v(attempts as int, jitter as int),
{
    let e: u32 = if attempts < 0 {
        0
    } else {
        attempts as u32
    };
    let p = pow2_i64(e);
    proof {
        lemma2_to64();
        vstd::arithmetic::power2::lemma2_to64_rest();
        if (e as nat) < 53 {
            lemma_pow2_strictly_increases(e as nat, 53);
        }
        assert(p <= 9007199254740992);
    }
    let raw = 1000 * p + jitter;
    if raw < 0 {
        0
    } else {
        raw
    }
}

/// The backoff with a fresh jitter sample, as the worker applies it.
pub fn backoff_ms(attempts: i32) -> (r: i64)
    requires
        attempts <= 53,
    ensures
        exists|j: int| -500 <= j <= 500 && r == backoff_v(attempts as int, j),
{
    let jitter = random_in_range(-500, 500);
    let r = backoff_with(attempts, jitter);
    proof {
        assert(-500 <= jitter as int <= 500 && r == backoff_v(attempts as int, jitter as int));
    }
    r
}

/// The first retry waits between half a second and a second and a half;
/// by the tenth pickup the wait has grown past seventeen minutes.
pub proof fn lemma_backoff_bounds(jitter: int)
    requires
        -500 <= jitter <= 500,
    ensures
        500 <= backoff_v(0, jitter) <= 1500,
        backoff_v(10, jitter) >= 1024000 - 500,
{
    lemma2_to64();
}

/// What `cron::Schedule` computes for an expression and an instant: the
/// first scheduled fire strictly after the instant, if the expression
/// parses and such a fire exists.
pub uninterp spec fn spec_cron_next(expr: Seq<char>, now_ms: int) -> Option<i64>;

/// Relies on cron::Schedule: `from_str` accepts or rejects the expression
/// as a pure function of its text, and `after` yields fire times strictly
/// after its argument (its search starts one second past it), so the
/// whole result is a function of the expression and the instant alone.
#[verifier::external_body]
fn cron_next_call(expr: &str, now_ms: i64) -> (r: Option<i64>)
    requires
        valid_time(now_ms as int),
    ensures
        r == spec_cron_next(expr@, now_ms as int),
        r matches Some(t) ==> now_ms < t,
{
    let schedule = match <cron::Schedule as core::str::FromStr>::from_str(expr) {
        Ok(s) => s,
        Err(_) => return None,
    };
    let dt = match chrono::DateTime::<chrono::Utc>::from_timestamp_millis(now_ms) {
        Some(d) => d,
        None => return None,
    };
    schedule.after(&dt).next().map(|t| t.timestamp_millis())
}

/// The first scheduled instant strictly after `now_ms`, or None when the
/// expression does not parse (or no fire remains). Every instant it
/// returns lies strictly in the future.
pub fn next_cron(expr: &str, now_ms: i64) -> (r: Option<i64>)
    requires
        valid_time(now_ms as int),
    ensures
        r == spec_cron_next(expr@, now_ms as int),
        r matches Some(t) ==> now_ms < t,
{
    cron_next_call(expr, now_ms)
}

/// Jitter added to the idle-poll sleep so that concurrent workers detune.
pub fn pickup_jitter_ms() -> (r: i64)
    ensures
        0 <= r <= 1000,
{
    random_in_range(0, 1000)
}

/// Seconds-free form of the pickup-lag sample: how far past its scheduled
/// time a job was picked up, in milliseconds, clamped below at zero.
pub open spec fn lag_v(now: int, next_run_at: int) -> int {
    if now - next_run_at < 0 {
        0
    } else if now - next_run_at > i64::MAX {
        i64::MAX as int
    } else {
        now - next_run_at
    }
}

/// The queue-lag sample recorded at pickup.
pub fn queue_lag_ms(now: i64, next_run_at: i64) -> (r: i64)
    ensures
        r == lag_v(now as int, next_run_at as int),
{
    match now.checked_sub(next_run_at) {
        Some(d) => {
            if d < 0 {
                0
            } else {
                d
            }
        },
        None => {
            if now < next_run_at {
                0
            } else {
                i64::MAX
            }
        },
    }
}

} // verus!
