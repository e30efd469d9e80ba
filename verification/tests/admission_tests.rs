use jobq::admission::{submit, AdmitError, SubmitRequest};
use jobq::job::{HeaderEntry, Status};
use jobq::store::Store;

fn request(url: &str, run_at: Option<i64>) -> SubmitRequest {
    SubmitRequest {
        url: url.to_string(),
        method: "GET".to_string(),
        headers: Vec::new(),
        body_text: None,
        run_at,
        cron: None,
    }
}

fn header(name: &str, text: &str) -> HeaderEntry {
    HeaderEntry { name: name.to_string(), text: text.to_string(), str_value: None }
}

#[test]
fn the_second_identical_submission_returns_the_first_id() {
    let now: i64 = 1_700_000_000_000;
    let mut s = Store::new();
    let req = request("http://h/ok", Some(now));
    let first = submit(&mut s, &req, 11, now).unwrap();
    assert_eq!(first, 11);
    assert_eq!(s.len(), 1);
    let again = request("http://h/ok", Some(now));
    let second = submit(&mut s, &again, 22, now + 5_000).unwrap();
    assert_eq!(second, 11);
    assert_eq!(s.len(), 1);
}

#[test]
fn the_new_row_is_pending_with_zeroed_counters() {
    let now: i64 = 1_700_000_000_000;
    let mut s = Store::new();
    let mut req = request("http://h/ok", None);
    req.cron = Some("0 */5 * * * *".to_string());
    let id = submit(&mut s, &req, 7, now).unwrap();
    let row = s.find_by_id(id).unwrap();
    assert_eq!(row.status, Status::Pending);
    assert_eq!(row.attempts, 0);
    assert_eq!(row.retries, 0);
    // run_at defaults to now
    assert_eq!(row.next_run_at, now);
    assert_eq!(row.created_at, now);
    assert_eq!(row.body, "null");
    assert_eq!(row.cron.as_deref(), Some("0 */5 * * * *"));
    assert_eq!(row.unique_id.len(), 64);
}

#[test]
fn an_unrelated_admission_between_retries_changes_nothing() {
    let now: i64 = 1_700_000_000_000;
    let mut s = Store::new();
    let first = submit(&mut s, &request("http://h/ok", Some(now)), 1, now).unwrap();
    submit(&mut s, &request("http://h/other", Some(now)), 2, now).unwrap();
    let retried = submit(&mut s, &request("http://h/ok", Some(now)), 3, now + 100).unwrap();
    assert_eq!(retried, first);
    assert_eq!(s.len(), 2);
}

#[test]
fn different_run_times_are_different_jobs() {
    let now: i64 = 1_700_000_000_000;
    let mut s = Store::new();
    let a = submit(&mut s, &request("http://h/ok", Some(now)), 1, now).unwrap();
    let b = submit(&mut s, &request("http://h/ok", Some(now + 60_000)), 2, now).unwrap();
    assert_ne!(a, b);
    assert_eq!(s.len(), 2);
}

#[test]
fn submissions_agree_across_header_order_and_casing() {
    let now: i64 = 1_700_000_000_000;
    let mut s = Store::new();
    let mut one = request("http://h/ok", Some(now));
    one.headers = vec![header("B-Key", "\"2\""), header("A-Key", "\"1\"")];
    let mut two = request("http://h/ok", Some(now));
    two.headers = vec![header("a-key", "\"1\""), header("b-key", "\"2\"")];
    let a = submit(&mut s, &one, 1, now).unwrap();
    let b = submit(&mut s, &two, 2, now).unwrap();
    assert_eq!(a, b);
    assert_eq!(s.len(), 1);
}

#[test]
fn a_body_makes_a_different_job() {
    let now: i64 = 1_700_000_000_000;
    let mut s = Store::new();
    let a = submit(&mut s, &request("http://h/ok", Some(now)), 1, now).unwrap();
    let mut with_body = request("http://h/ok", Some(now));
    with_body.body_text = Some("{\"a\":1}".to_string());
    let b = submit(&mut s, &with_body, 2, now).unwrap();
    assert_ne!(a, b);
    let row = s.find_by_id(b).unwrap();
    assert_eq!(row.body, "{\"a\":1}");
}

#[test]
fn a_colliding_fresh_id_surfaces_an_internal_error() {
    let now: i64 = 1_700_000_000_000;
    let mut s = Store::new();
    submit(&mut s, &request("http://h/one", Some(now)), 1, now).unwrap();
    let r = submit(&mut s, &request("http://h/two", Some(now)), 1, now);
    assert_eq!(r, Err(AdmitError::Internal));
    assert_eq!(s.len(), 1);
}
