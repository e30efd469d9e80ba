//! The per-host rate gate: a keyed token bucket that either admits a
//! request now or names the instant at which the next token frees.
//! Its state is process-local; what it decides depends on that state
//! and on the clock, so the engine is specified for every outcome.
use governor::clock::Clock;
use vstd::prelude::*;

verus! {

/// What the limiter answers for one outgoing call.
pub enum GateDecision {
    /// A token was consumed; the request may go out now.
    Admit,
    /// No token was free; the job is to run again at this instant.
    DeferUntil(i64),
}

/// A per-host token bucket with a configured steady rate (and a burst
/// equal to it), keyed by hostname.
#[verifier::external_body]
pub struct RateGate {
    inner: governor::DefaultKeyedRateLimiter<String>,
}

impl RateGate {
    /// Relies on governor::Quota::per_second and RateLimiter::keyed: a
    /// keyed limiter replenishing `per_second` tokens per second per
    /// key. `NonZeroU32::new` only refuses zero, which the bound rules
    /// out.
    #[verifier::external_body]
    pub fn new(per_second: u32) -> (r: RateGate)
        requires
            per_second >= 1,
    {
        let quota = governor::Quota::per_second(core::num::NonZeroU32::new(per_second).unwrap());
        RateGate { inner: governor::RateLimiter::keyed(quota) }
    }

    /// Relies on governor::RateLimiter::check_key and
    /// NotUntil::wait_time_from: either a token was consumed for this
    /// host, or the wait until the next token frees, in milliseconds.
    /// The outcome depends on the limiter's state and its clock, so
    /// nothing more is promised of it.
    #[verifier::external_body]
    fn check_wait_ms(&self, host: &str) -> (r: Option<u64>) {
        match self.inner.check_key(&host.to_string()) {
            Ok(_) => None,
            Err(nb) => {
                let from = self.inner.clock().now();
                Some(nb.wait_time_from(from).as_millis() as u64)
            },
        }
    }

    /// The limiter's answer for one outgoing call to `host` at `now`:
    /// admit, or defer to an instant no earlier than `now`.
    pub fn check(&self, host: &str, now: i64) -> (r: GateDecision)
        ensures
            r matches GateDecision::DeferUntil(t) ==> t >= now,
    {
        match self.check_wait_ms(host) {
            Option::None => GateDecision::Admit,
            Option::Some(w) => {
                let wait: i64 = if w > (i64::MAX as u64) {
                    i64::MAX
                } else {
                    w as i64
                };
                let release = match now.checked_add(wait) {
                    Option::Some(t) => t,
                    Option::None => i64::MAX,
                };
                GateDecision::DeferUntil(release)
            },
        }
    }
}

} // verus!
