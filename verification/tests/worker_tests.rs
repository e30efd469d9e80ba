use jobq::gate::{GateDecision, RateGate};
use jobq::job::{Job, Status};
use jobq::monitor::{is_stale, monitor_requeue_job, stale_cutoff};
use jobq::store::Store;
use jobq::worker::{
    invalid_failed_job, is_success_code, rate_deferred_job, settle, validate, Validation,
};
use jobq::MAX_ATTEMPTS;

fn pending(id: u128, fp: &str, url: &str, next_run_at: i64) -> Job {
    Job {
        id,
        unique_id: fp.to_string(),
        url: url.to_string(),
        method: "GET".to_string(),
        headers: Vec::new(),
        body: "null".to_string(),
        retries: 0,
        attempts: 0,
        status: Status::Pending,
        next_run_at,
        cron: None,
        check_in: None,
        created_at: 0,
        updated_at: 0,
    }
}

#[test]
fn success_codes_are_the_2xx_range() {
    assert!(!is_success_code(199));
    assert!(is_success_code(200));
    assert!(is_success_code(299));
    assert!(!is_success_code(300));
    assert!(!is_success_code(500));
}

#[test]
fn validate_rejects_bad_method_then_bad_url_then_no_host() {
    assert!(matches!(validate("GE T", "http://h/ok"), Validation::BadMethod));
    assert!(matches!(validate("", "http://h/ok"), Validation::BadMethod));
    assert!(matches!(validate("GET", "not a url"), Validation::BadUrl));
    assert!(matches!(validate("GET", "mailto:a@b"), Validation::NoHost));
    match validate("GET", "http://example.com/x") {
        Validation::Target(h) => assert_eq!(h, "example.com"),
        _ => panic!("expected a host"),
    }
}

#[test]
fn one_successful_iteration_settles_the_row() {
    // a Pending job whose target answers 200 with body {"x":1}
    let now: i64 = 1_700_000_000_000;
    let mut s = Store::new();
    s.insert(pending(1, "fp-a", "http://h/ok", now - 1_000)).unwrap();
    let claimed = s.claim_next(now).unwrap();
    assert_eq!(claimed.attempts, 1);
    let settled = settle(&claimed, 200, "{\"x\":1}", now + 10);
    s.update(settled).unwrap();
    let row = s.find_by_id(1).unwrap();
    assert_eq!(row.status, Status::Success);
    assert_eq!(row.body, "{\"x\":1}");
    assert_eq!(row.attempts, 1);
    assert_eq!(row.retries, 0);
    assert!(row.cron.is_none());
}

#[test]
fn response_bodies_are_stored_canonically_or_as_null() {
    let now: i64 = 1_700_000_000_000;
    let job = {
        let mut j = pending(1, "fp-a", "http://h/ok", 0);
        j.status = Status::Running;
        j.attempts = 1;
        j.check_in = Some(now);
        j
    };
    let spaced = settle(&job, 200, "{\"x\": 1}", now);
    assert_eq!(spaced.body, "{\"x\":1}");
    let broken = settle(&job, 200, "not json at all", now);
    assert_eq!(broken.body, "null");
}

#[test]
fn failures_back_off_then_exhaust_the_attempt_budget() {
    // a Pending job whose target answers 500, driven to the end
    let mut now: i64 = 1_700_000_000_000;
    let mut s = Store::new();
    s.insert(pending(1, "fp-a", "http://h/ok", now - 1)).unwrap();
    let mut iterations = 0;
    loop {
        let claimed = match s.claim_next(now) {
            Some(j) => j,
            None => {
                // advance time past the backoff and try again
                let row = s.find_by_id(1).unwrap();
                assert_eq!(row.status, Status::Pending);
                now = row.next_run_at;
                continue;
            }
        };
        iterations += 1;
        let settled = settle(&claimed, 500, "", now);
        if settled.status == Status::Pending {
            assert!(settled.next_run_at > now);
            assert!(settled.next_run_at <= now + 1_000 * (1 << settled.attempts) + 500);
        }
        s.update(settled).unwrap();
        let row = s.find_by_id(1).unwrap();
        if row.status == Status::Failure {
            break;
        }
        assert!(iterations < 100);
    }
    let row = s.find_by_id(1).unwrap();
    assert_eq!(row.attempts, MAX_ATTEMPTS);
    assert_eq!(row.retries, MAX_ATTEMPTS - 1);
    assert_eq!(iterations, MAX_ATTEMPTS);
}

#[test]
fn rate_limit_deferral_keeps_the_attempt_budget() {
    // two Pending jobs against one host, with a gate of one token per second
    let now: i64 = 1_700_000_000_000;
    let mut s = Store::new();
    s.insert(pending(1, "fp-a", "http://h/one", now - 10)).unwrap();
    s.insert(pending(2, "fp-b", "http://h/two", now - 10)).unwrap();
    let gate = RateGate::new(1);
    let first = s.claim_next(now).unwrap();
    let host = match validate(&first.method, &first.url) {
        Validation::Target(h) => h,
        _ => panic!("expected a host"),
    };
    assert!(matches!(gate.check(&host, now), GateDecision::Admit));
    let second = s.claim_next(now).unwrap();
    assert_eq!(second.attempts, 1);
    match gate.check(&host, now) {
        GateDecision::Admit => panic!("the bucket held one token"),
        GateDecision::DeferUntil(t) => {
            assert!(t >= now + 900 && t <= now + 1_100);
            let deferred = rate_deferred_job(&second, t, now);
            assert_eq!(deferred.status, Status::Pending);
            assert_eq!(deferred.next_run_at, t);
            // the pickup was undone: no attempt consumed
            assert_eq!(deferred.attempts, 0);
            assert_eq!(deferred.retries, 0);
            s.update(deferred).unwrap();
        }
    }
    let row = s.find_by_id(2).unwrap();
    assert_eq!(row.attempts, 0);
}

#[test]
fn the_monitor_rescues_a_stalled_row() {
    // flip a Running row's check_in 31 s into the past
    let now: i64 = 1_700_000_000_000;
    let mut s = Store::new();
    let mut dead = pending(1, "fp-a", "http://h/ok", 0);
    dead.status = Status::Running;
    dead.attempts = 1;
    dead.check_in = Some(now - 31_000);
    dead.updated_at = now - 31_000;
    s.insert(dead).unwrap();
    let cutoff = stale_cutoff(now);
    let found = s.find_stale_running(cutoff).unwrap();
    assert!(is_stale(&found, cutoff));
    let rescued = monitor_requeue_job(&found, now);
    assert_eq!(rescued.status, Status::Pending);
    assert_eq!(rescued.check_in, Some(now));
    s.update(rescued).unwrap();
    let row = s.find_by_id(1).unwrap();
    assert_eq!(row.status, Status::Pending);
    assert_eq!(row.check_in, Some(now));
    // the refreshed check_in keeps the sweeper from picking it again
    assert!(s.find_stale_running(cutoff).is_none());
}

#[test]
fn a_recurring_job_rearms_at_the_next_cron_fire() {
    // cron "0 */5 * * * *": every five minutes on the minute
    let now: i64 = 1_700_000_000_000;
    let mut s = Store::new();
    let mut recurring = pending(1, "fp-a", "http://h/ok", now - 1);
    recurring.cron = Some("0 */5 * * * *".to_string());
    s.insert(recurring).unwrap();
    let claimed = s.claim_next(now).unwrap();
    let settled = settle(&claimed, 200, "ok-not-json", now);
    s.update(settled).unwrap();
    let row = s.find_by_id(1).unwrap();
    assert_eq!(row.status, Status::Pending);
    assert_eq!(row.attempts, 0);
    assert_eq!(row.retries, 0);
    // the next five-minute boundary strictly after now
    let expected = ((now / 300_000) + 1) * 300_000;
    assert_eq!(row.next_run_at, expected);
    assert!(row.next_run_at > now);
}

#[test]
fn rearming_after_several_pickups_rewrites_retries_from_the_old_count() {
    // the settled row zeroes attempts first, then rewrites retries from
    // the pickup count the row had before rearming
    let now: i64 = 1_700_000_000_000;
    let mut job = pending(1, "fp-a", "http://h/ok", 0);
    job.status = Status::Running;
    job.attempts = 3;
    job.retries = 2;
    job.check_in = Some(now);
    job.cron = Some("0 */5 * * * *".to_string());
    let settled = settle(&job, 200, "", now);
    assert_eq!(settled.status, Status::Pending);
    assert_eq!(settled.attempts, 0);
    assert_eq!(settled.retries, 2);
}

#[test]
fn settled_counters_stay_ordered_for_one_shot_jobs() {
    let now: i64 = 1_700_000_000_000;
    for attempts in 1..=10 {
        let mut job = pending(1, "fp-a", "http://h/ok", 0);
        job.status = Status::Running;
        job.attempts = attempts;
        job.check_in = Some(now);
        let ok = settle(&job, 200, "", now);
        assert!(ok.attempts >= ok.retries && ok.retries >= 0);
        let bad = settle(&job, 500, "", now);
        assert!(bad.attempts >= bad.retries && bad.retries >= 0);
    }
}

#[test]
fn a_recurring_job_with_a_bad_expression_fails_at_settlement() {
    let now: i64 = 1_700_000_000_000;
    let mut job = pending(1, "fp-a", "http://h/ok", 0);
    job.status = Status::Running;
    job.attempts = 1;
    job.check_in = Some(now);
    job.cron = Some("never never".to_string());
    let settled = settle(&job, 200, "", now);
    assert_eq!(settled.status, Status::Failure);
}

#[test]
fn invalid_rows_are_marked_failed() {
    let now: i64 = 1_700_000_000_000;
    let mut job = pending(1, "fp-a", "not a url", 0);
    job.status = Status::Running;
    job.attempts = 1;
    job.check_in = Some(now);
    let failed = invalid_failed_job(&job, now);
    assert_eq!(failed.status, Status::Failure);
    assert_eq!(failed.updated_at, now);
    assert_eq!(failed.attempts, 1);
    assert_eq!(failed.next_run_at, job.next_run_at);
}
