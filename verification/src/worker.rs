//! The worker's half of the claim → execute → settle loop: every
//! decision it takes on a row, as pure verified transitions. The
//! surrounding process drives the HTTP call and the database round
//! trips and feeds their outcomes back in.
use vstd::prelude::*;
use vstd::string::StringExecFns;

use crate::job::{job_wf, Job, JobV, Status};
use crate::sched::{backoff_ms, backoff_v, next_cron, spec_cron_next};
use crate::{valid_time, MAX_ATTEMPTS};

verus! {

/// `max(0, a - 1)`: the counter rollback the engine applies.
pub open spec fn dec0(a: int) -> int {
    if a > 0 {
        a - 1
    } else {
        0
    }
}

/// The pickup increment, held at the integer ceiling rather than
/// overflowing.
pub open spec fn inc_attempts(a: int) -> int {
    if a == i32::MAX {
        a
    } else {
        a + 1
    }
}

/// A claim turns an eligible row Running, counts the pickup, and opens
/// the lease.
pub open spec fn claimed_v(j: JobV, now: int) -> JobV {
    JobV {
        status: Status::Running,
        attempts: inc_attempts(j.attempts),
        updated_at: now,
        check_in: Option::Some(now),
        ..j
    }
}

/// A rate-limited row goes back to Pending at the limiter's release
/// instant, and the pickup that found it is undone so that deferral
/// consumes no retry budget.
pub open spec fn rate_deferred_v(j: JobV, release: int, now: int) -> JobV {
    let a = dec0(j.attempts);
    JobV {
        status: Status::Pending,
        next_run_at: release,
        attempts: a,
        retries: dec0(a),
        updated_at: now,
        ..j
    }
}

/// A row that fails validation — its method or URL does not parse, or
/// the URL carries no host — is dead on arrival.
pub open spec fn invalid_failed_v(j: JobV, now: int) -> JobV {
    JobV { status: Status::Failure, updated_at: now, ..j }
}

/// An HTTP status in the 2xx range counts as success.
pub open spec fn success_code(code: u16) -> bool {
    200 <= code < 300
}

/// What serde_json makes of a text: whether it is valid JSON, and the
/// canonical text of the value it spells.
pub uninterp spec fn json_canon(s: Seq<char>) -> Option<Seq<char>>;

/// Relies on serde_json::from_str and the Display of serde_json::Value:
/// acceptance and the canonical rendering are functions of the text
/// alone.
#[verifier::external_body]
fn json_canon_text(s: &str) -> (r: Option<String>)
    ensures
        (r is Some) == (json_canon(s@) is Some),
        r matches Some(t) ==> json_canon(s@) == Some(t@),
{
    serde_json::from_str::<serde_json::Value>(s).ok().map(|v| v.to_string())
}

/// The settlement of a claimed row once the HTTP outcome `(code, resp)`
/// is known, with `jitter` the backoff jitter sample.
///
/// On success a one-shot row ends Success; a recurring row is rearmed at
/// its next cron fire, or ends Failure if the expression yields none.
/// Either way the stored body becomes the canonical JSON of the response
/// (JSON null if unparseable) and `retries` is rewritten to
/// `max(0, attempts - 1)`. On failure the row retries with exponential
/// backoff until MAX_ATTEMPTS pickups, then ends Failure.
pub open spec fn settle_v(j: JobV, code: u16, resp: Seq<char>, now: int, jitter: int) -> JobV {
    if success_code(code) {
        let body1 = match json_canon(resp) {
            Option::Some(t) => t,
            Option::None => "null"@,
        };
        let base = match j.cron {
            Option::Some(exp) => match spec_cron_next(exp, now) {
                Option::Some(t) => JobV {
                    status: Status::Pending,
                    next_run_at: t as int,
                    attempts: 0,
                    ..j
                },
                Option::None => JobV { status: Status::Failure, ..j },
            },
            Option::None => JobV { status: Status::Success, ..j },
        };
        JobV { retries: dec0(j.attempts), updated_at: now, body: body1, ..base }
    } else if j.attempts >= MAX_ATTEMPTS as int {
        JobV { status: Status::Failure, retries: dec0(j.attempts), updated_at: now, ..j }
    } else {
        JobV {
            status: Status::Pending,
            retries: dec0(j.attempts),
            next_run_at: now + backoff_v(j.attempts, jitter),
            updated_at: now,
            ..j
        }
    }
}

/// Whether `code` reports success.
pub fn is_success_code(code: u16) -> (r: bool)
    ensures
        r == success_code(code),
{
    code >= 200 && code < 300
}

/// The row as a claim writes it back.
pub fn claim_job(job: &Job, now: i64) -> (r: Job)
    ensures
        r@ == claimed_v(job@, now as int),
{
    let mut r = job.duplicate();
    r.status = Status::Running;
    r.attempts = if job.attempts == i32::MAX {
        job.attempts
    } else {
        job.attempts + 1
    };
    r.updated_at = now;
    r.check_in = Some(now);
    proof {
        assert(r@ =~= claimed_v(job@, now as int));
    }
    r
}

/// The row as a rate-limit deferral writes it back.
pub fn rate_deferred_job(job: &Job, release: i64, now: i64) -> (r: Job)
    ensures
        r@ == rate_deferred_v(job@, release as int, now as int),
{
    let mut r = job.duplicate();
    let a = if job.attempts > 0 {
        job.attempts - 1
    } else {
        0
    };
    r.status = Status::Pending;
    r.next_run_at = release;
    r.attempts = a;
    r.retries = if a > 0 {
        a - 1
    } else {
        0
    };
    r.updated_at = now;
    proof {
        assert(r@ =~= rate_deferred_v(job@, release as int, now as int));
    }
    r
}

/// The row as a validation failure writes it back.
pub fn invalid_failed_job(job: &Job, now: i64) -> (r: Job)
    ensures
        r@ == invalid_failed_v(job@, now as int),
{
    let mut r = job.duplicate();
    r.status = Status::Failure;
    r.updated_at = now;
    proof {
        assert(r@ =~= invalid_failed_v(job@, now as int));
    }
    r
}

/// Whether a text is a valid HTTP method token.
pub uninterp spec fn spec_method_ok(s: Seq<char>) -> bool;

/// Relies on reqwest::Method::from_bytes (the http crate's Method):
/// acceptance of a method token is a function of the text alone.
#[verifier::external_body]
fn method_token_ok(s: &str) -> (r: bool)
    ensures
        r == spec_method_ok(s@),
{
    reqwest::Method::from_bytes(s.as_bytes()).is_ok()
}

/// What the URL parser makes of a text: None when it does not parse as
/// an absolute URL, otherwise its host, if it has one.
pub uninterp spec fn spec_url_host(s: Seq<char>) -> Option<Option<Seq<char>>>;

/// Outcome of parsing a job's URL down to its target host.
pub enum HostCheck {
    BadUrl,
    NoHost,
    Host(String),
}

/// Relies on url::Url::parse and Url::host_str: acceptance and the host
/// are functions of the text alone.
#[verifier::external_body]
fn url_host_of(s: &str) -> (r: HostCheck)
    ensures
        (r is BadUrl) == (spec_url_host(s@) is None),
        (r is NoHost) == (spec_url_host(s@) == Some(Option::<Seq<char>>::None)),
        r matches HostCheck::Host(h) ==> spec_url_host(s@) == Some(Some(h@)),
{
    match url::Url::parse(s) {
        Ok(u) => match u.host_str() {
            Some(h) => HostCheck::Host(h.to_string()),
            None => HostCheck::NoHost,
        },
        Err(_) => HostCheck::BadUrl,
    }
}

/// What validation decides for a claimed row, in the order the worker
/// checks it: method first, then URL, then host.
pub enum Validation {
    BadMethod,
    BadUrl,
    NoHost,
    Target(String),
}

/// Validate a row's method and URL down to the host the request would
/// target.
pub fn validate(method: &str, url_text: &str) -> (r: Validation)
    ensures
        (r is BadMethod) <==> !spec_method_ok(method@),
        (r is BadUrl) <==> (spec_method_ok(method@) && spec_url_host(url_text@) is None),
        (r is NoHost) <==> (spec_method_ok(method@) && spec_url_host(url_text@) == Some(
            Option::<Seq<char>>::None,
        )),
        r matches Validation::Target(h) ==> spec_method_ok(method@) && spec_url_host(url_text@)
            == Some(Some(h@)),
{
    if !method_token_ok(method) {
        return Validation::BadMethod;
    }
    match url_host_of(url_text) {
        HostCheck::BadUrl => Validation::BadUrl,
        HostCheck::NoHost => Validation::NoHost,
        HostCheck::Host(h) => Validation::Target(h),
    }
}

/// The row as settlement writes it back, for some fresh jitter sample.
pub fn settle(job: &Job, code: u16, resp: &str, now: i64) -> (r: Job)
    requires
        valid_time(now as int),
        job_wf(job@),
    ensures
        exists|jit: int|
            -500 <= jit <= 500 && r@ == settle_v(job@, code, resp@, now as int, jit),
        job_wf(r@),
{
    let mut r = job.duplicate();
    if is_success_code(code) {
        match &job.cron {
            Option::Some(exp) => {
                match next_cron(exp.as_str(), now) {
                    Option::Some(t) => {
                        r.status = Status::Pending;
                        r.next_run_at = t;
                        r.attempts = 0;
                    },
                    Option::None => {
                        r.status = Status::Failure;
                    },
                }
            },
            Option::None => {
                r.status = Status::Success;
            },
        }
        r.retries = if job.attempts > 0 {
            job.attempts - 1
        } else {
            0
        };
        r.updated_at = now;
        r.body = match json_canon_text(resp) {
            Option::Some(t) => t,
            Option::None => String::from_str("null"),
        };
        proof {
            assert(r@ =~= settle_v(job@, code, resp@, now as int, 0));
        }
        r
    } else {
        r.retries = if job.attempts > 0 {
            job.attempts - 1
        } else {
            0
        };
        if job.attempts >= MAX_ATTEMPTS {
            r.status = Status::Failure;
            r.updated_at = now;
            proof {
                assert(r@ =~= settle_v(job@, code, resp@, now as int, 0));
            }
            r
        } else {
            r.status = Status::Pending;
            let b = backoff_ms(job.attempts);
            proof {
                let jit = choose|jit: int|
                    -500 <= jit <= 500 && b == backoff_v(job.attempts as int, jit);
                vstd::arithmetic::power2::lemma2_to64();
                if (job.attempts as int) < 9 {
                    vstd::arithmetic::power2::lemma_pow2_strictly_increases(
                        job.attempts as nat,
                        9,
                    );
                }
                assert(0 <= b <= 1000 * pow2v(9) + 500);
            }
            r.next_run_at = now + b;
            r.updated_at = now;
            proof {
                let jit = choose|jit: int|
                    -500 <= jit <= 500 && b == backoff_v(job.attempts as int, jit);
                assert(r@ =~= settle_v(job@, code, resp@, now as int, jit));
            }
            r
        }
    }
}

/// Shorthand so proofs here can cite powers of two.
spec fn pow2v(e: nat) -> nat {
    vstd::arithmetic::power2::pow2(e)
}

/// Counters survive every settlement ordered: `attempts >= retries >= 0`,
/// except that rearming a recurring job which needed several pickups
/// rewrites `retries` from the old pickup count after zeroing `attempts`.
pub proof fn lemma_settle_counters(j: JobV, code: u16, resp: Seq<char>, now: int, jitter: int)
    requires
        job_wf(j),
        ({
            &&& success_code(code)
            &&& j.cron matches Some(e) && spec_cron_next(e, now) is Some
        }) ==> j.attempts <= 1,
    ensures
        ({
            let r = settle_v(j, code, resp, now, jitter);
            r.attempts >= r.retries >= 0
        }),
{
}

/// A row that settles Success was a one-shot job: recurring jobs are
/// never observed in Success.
pub proof fn lemma_success_only_oneshot(j: JobV, code: u16, resp: Seq<char>, now: int, jitter: int)
    ensures
        settle_v(j, code, resp, now, jitter).status is Success ==> settle_v(
            j,
            code,
            resp,
            now,
            jitter,
        ).cron is None,
{
}

/// A row that a failing response drives to Failure holds exactly
/// MAX_ATTEMPTS pickups.
pub proof fn lemma_failure_exhausts_attempts(
    j: JobV,
    code: u16,
    resp: Seq<char>,
    now: int,
    jitter: int,
)
    requires
        job_wf(j),
        j.attempts <= MAX_ATTEMPTS as int,
        !success_code(code),
    ensures
        ({
            let r = settle_v(j, code, resp, now, jitter);
            r.status is Failure ==> r.attempts == MAX_ATTEMPTS as int
        }),
{
}

/// A rate-limit deferral hands back exactly the pickup count the row had
/// before it was claimed: deferral consumes no attempt.
pub proof fn lemma_defer_restores_attempts(j: JobV, claim_now: int, release: int, defer_now: int)
    requires
        0 <= j.attempts < i32::MAX,
    ensures
        rate_deferred_v(claimed_v(j, claim_now), release, defer_now).attempts == j.attempts,
        rate_deferred_v(claimed_v(j, claim_now), release, defer_now).next_run_at == release,
{
}

} // verus!
