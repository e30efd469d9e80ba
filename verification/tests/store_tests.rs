use jobq::job::{Job, Status};
use jobq::store::{Store, StoreError};

fn job(id: u128, fp: &str, created_at: i64, next_run_at: i64, status: Status) -> Job {
    Job {
        id,
        unique_id: fp.to_string(),
        url: "http://h/ok".to_string(),
        method: "GET".to_string(),
        headers: Vec::new(),
        body: "null".to_string(),
        retries: 0,
        attempts: 0,
        status,
        next_run_at,
        cron: None,
        check_in: if let Status::Running = status { Some(created_at) } else { None },
        created_at,
        updated_at: created_at,
    }
}

#[test]
fn insert_refuses_a_duplicate_fingerprint() {
    let mut s = Store::new();
    assert!(s.insert(job(1, "fp-a", 0, 0, Status::Pending)).is_ok());
    let r = s.insert(job(2, "fp-a", 0, 0, Status::Pending));
    assert_eq!(r, Err(StoreError::DuplicateFingerprint));
    assert_eq!(s.len(), 1);
}

#[test]
fn insert_refuses_a_duplicate_id() {
    let mut s = Store::new();
    assert!(s.insert(job(1, "fp-a", 0, 0, Status::Pending)).is_ok());
    let r = s.insert(job(1, "fp-b", 0, 0, Status::Pending));
    assert_eq!(r, Err(StoreError::DuplicateFingerprint));
}

#[test]
fn find_by_fingerprint_and_id() {
    let mut s = Store::new();
    s.insert(job(1, "fp-a", 0, 0, Status::Pending)).unwrap();
    s.insert(job(2, "fp-b", 0, 0, Status::Pending)).unwrap();
    assert_eq!(s.find_by_fingerprint("fp-b").unwrap().id, 2);
    assert!(s.find_by_fingerprint("fp-c").is_none());
    assert_eq!(s.find_by_id(1).unwrap().unique_id, "fp-a");
    assert!(s.find_by_id(3).is_none());
}

#[test]
fn claim_takes_the_earliest_created_eligible_row() {
    let mut s = Store::new();
    s.insert(job(1, "fp-a", 200, 0, Status::Pending)).unwrap();
    s.insert(job(2, "fp-b", 100, 0, Status::Pending)).unwrap();
    s.insert(job(3, "fp-c", 50, 9_999_999, Status::Pending)).unwrap();
    let claimed = s.claim_next(1_000).unwrap();
    assert_eq!(claimed.id, 2);
    assert_eq!(claimed.status, Status::Running);
    assert_eq!(claimed.attempts, 1);
    assert_eq!(claimed.check_in, Some(1_000));
    assert_eq!(claimed.updated_at, 1_000);
}

#[test]
fn a_claimed_row_is_not_claimed_twice() {
    let mut s = Store::new();
    s.insert(job(1, "fp-a", 0, 0, Status::Pending)).unwrap();
    s.insert(job(2, "fp-b", 1, 0, Status::Pending)).unwrap();
    let first = s.claim_next(1_000).unwrap();
    let second = s.claim_next(1_000).unwrap();
    assert_ne!(first.id, second.id);
    assert!(s.claim_next(1_000).is_none());
}

#[test]
fn a_future_row_is_not_eligible() {
    let mut s = Store::new();
    s.insert(job(1, "fp-a", 0, 5_000, Status::Pending)).unwrap();
    assert!(s.claim_next(4_999).is_none());
    assert!(s.claim_next(5_000).is_some());
}

#[test]
fn update_replaces_by_id_and_reports_missing_rows() {
    let mut s = Store::new();
    s.insert(job(1, "fp-a", 0, 0, Status::Pending)).unwrap();
    let mut changed = job(1, "fp-a", 0, 0, Status::Failure);
    changed.updated_at = 99;
    assert!(s.update(changed).is_ok());
    let got = s.find_by_id(1).unwrap();
    assert_eq!(got.status, Status::Failure);
    assert_eq!(got.updated_at, 99);
    let missing = job(7, "fp-z", 0, 0, Status::Pending);
    assert_eq!(s.update(missing), Err(StoreError::NotFound));
}

#[test]
fn stale_rows_are_found_by_check_in_or_updated_at() {
    let now: i64 = 100_000;
    let cutoff = now - 30_000;
    let mut s = Store::new();
    // fresh Running row: not stale
    let mut fresh = job(1, "fp-a", now - 1_000, 0, Status::Running);
    fresh.check_in = Some(now - 1_000);
    s.insert(fresh).unwrap();
    assert!(s.find_stale_running(cutoff).is_none());
    // stale check_in
    let mut dead = job(2, "fp-b", 0, 0, Status::Running);
    dead.check_in = Some(now - 31_000);
    dead.updated_at = now - 31_000;
    s.insert(dead).unwrap();
    // no check_in at all, stale updated_at
    let mut silent = job(3, "fp-c", 0, 0, Status::Running);
    silent.check_in = None;
    silent.updated_at = now - 40_000;
    s.insert(silent).unwrap();
    // the one updated longest ago comes first
    let got = s.find_stale_running(cutoff).unwrap();
    assert_eq!(got.id, 3);
}

#[test]
fn count_eligible_counts_pending_rows_strictly_past_due() {
    let mut s = Store::new();
    s.insert(job(1, "fp-a", 0, 500, Status::Pending)).unwrap();
    s.insert(job(2, "fp-b", 0, 1_000, Status::Pending)).unwrap();
    s.insert(job(3, "fp-c", 0, 0, Status::Running)).unwrap();
    s.insert(job(4, "fp-d", 0, 2_000, Status::Pending)).unwrap();
    assert_eq!(s.count_eligible(1_000), 1);
    assert_eq!(s.count_eligible(1_001), 2);
    assert_eq!(s.count_eligible(0), 0);
}
