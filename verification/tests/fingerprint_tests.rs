use jobq::fingerprint::fingerprint;
use jobq::job::HeaderEntry;

fn header(name: &str, text: &str) -> HeaderEntry {
    HeaderEntry { name: name.to_string(), text: text.to_string(), str_value: None }
}

#[test]
fn fingerprint_is_deterministic() {
    let h = vec![header("X-A", "\"v\"")];
    let a = fingerprint("GET", "http://h/ok", &h, None, Some(1_000));
    let h2 = vec![header("X-A", "\"v\"")];
    let b = fingerprint("GET", "http://h/ok", &h2, None, Some(1_000));
    assert_eq!(a, b);
    assert_eq!(a.len(), 64);
}

#[test]
fn fingerprint_matches_known_digest_without_extras() {
    // canonical form: GET|http://h/ok|||0
    let fp = fingerprint("GET", "http://h/ok", &Vec::new(), None, None);
    assert_eq!(fp, "9c891d9c5db9256f37f4c8be167e571cd1b863b70319a4c865811b2db1927a97");
}

#[test]
fn fingerprint_matches_known_digest_with_body_and_header() {
    // canonical form:
    // GET|http://h/ok|{"a":1}|content-type:"application/json"|1700000000
    let h = vec![header("Content-Type", "\"application/json\"")];
    let body = "{\"a\":1}".to_string();
    let fp = fingerprint("GET", "http://h/ok", &h, Some(&body), Some(1_700_000_000_500));
    assert_eq!(fp, "61a60d3c434234b2440a593ee73f0f285256c0d2789fb03e28aba2aba42ae97d");
}

#[test]
fn header_order_does_not_matter() {
    let h1 = vec![header("B-Key", "\"2\""), header("A-Key", "\"1\""), header("C-Key", "\"3\"")];
    let h2 = vec![header("A-Key", "\"1\""), header("C-Key", "\"3\""), header("B-Key", "\"2\"")];
    let a = fingerprint("POST", "http://h/x", &h1, None, Some(5_000));
    let b = fingerprint("POST", "http://h/x", &h2, None, Some(5_000));
    assert_eq!(a, b);
}

#[test]
fn header_key_casing_does_not_matter() {
    let h1 = vec![header("Content-Type", "\"t\""), header("AUTHORIZATION", "\"a\"")];
    let h2 = vec![header("content-type", "\"t\""), header("authorization", "\"a\"")];
    let a = fingerprint("GET", "http://h/ok", &h1, None, Some(0));
    let b = fingerprint("GET", "http://h/ok", &h2, None, Some(0));
    assert_eq!(a, b);
}

#[test]
fn any_field_changes_the_fingerprint() {
    let base = fingerprint("GET", "http://h/ok", &Vec::new(), None, Some(1_000));
    assert_ne!(base, fingerprint("PUT", "http://h/ok", &Vec::new(), None, Some(1_000)));
    assert_ne!(base, fingerprint("GET", "http://h/ok2", &Vec::new(), None, Some(1_000)));
    let body = "1".to_string();
    assert_ne!(base, fingerprint("GET", "http://h/ok", &Vec::new(), Some(&body), Some(1_000)));
    let h = vec![header("k", "\"v\"")];
    assert_ne!(base, fingerprint("GET", "http://h/ok", &h, None, Some(1_000)));
    assert_ne!(base, fingerprint("GET", "http://h/ok", &Vec::new(), None, Some(2_000)));
}

#[test]
fn header_value_changes_the_fingerprint() {
    let h1 = vec![header("k", "\"v\"")];
    let h2 = vec![header("k", "\"w\"")];
    let a = fingerprint("GET", "http://h/ok", &h1, None, Some(0));
    let b = fingerprint("GET", "http://h/ok", &h2, None, Some(0));
    assert_ne!(a, b);
}

#[test]
fn run_times_in_the_same_second_collapse() {
    // the run time is folded in as whole epoch seconds
    let a = fingerprint("GET", "http://h/ok", &Vec::new(), None, Some(1_500));
    let b = fingerprint("GET", "http://h/ok", &Vec::new(), None, Some(1_999));
    let c = fingerprint("GET", "http://h/ok", &Vec::new(), None, Some(2_000));
    assert_eq!(a, b);
    assert_ne!(a, c);
}

#[test]
fn absent_run_time_counts_as_second_zero() {
    let a = fingerprint("GET", "http://h/ok", &Vec::new(), None, None);
    let b = fingerprint("GET", "http://h/ok", &Vec::new(), None, Some(500));
    assert_eq!(a, b);
}
