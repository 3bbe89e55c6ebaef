use nhk_now::bridge::Bridge;
use nhk_now::{HttpRequest, Method};

fn get_request(url: &str) -> HttpRequest {
    HttpRequest { method: Method::Get, url: url.to_string(), headers: Vec::new() }
}

#[test]
fn lifecycle_of_a_single_slot() {
    let mut b = Bridge::new();
    assert!(b.submit(3, get_request("http://example.invalid/feed")));
    assert_eq!(b.pending_requests(), vec![3]);

    let req = b.take_request(3).expect("the submitted request");
    assert_eq!(req.url, "http://example.invalid/feed");
    assert_eq!(req.method, Method::Get);
    assert!(b.pending_requests().is_empty());

    assert!(b.mark_inflight(3, 100));
    assert_eq!(b.inflight_tasks(), vec![(3, 100)]);
    assert!(!b.has_result(3));

    assert!(b.complete(3, Ok(vec![1, 2, 3])));
    assert!(b.inflight_tasks().is_empty());
    assert!(b.has_result(3));
    let seen = b.result_of(3).expect("a recorded outcome");
    assert_eq!(seen.0.as_ref().unwrap().as_slice(), &[1, 2, 3]);

    let taken = b.take_result(3).expect("a recorded outcome");
    assert_eq!(taken.0.as_ref().unwrap().as_slice(), &[1, 2, 3]);
    assert!(!b.has_result(3));
    assert!(b.take_result(3).is_none());
}

#[test]
fn submit_is_refused_while_a_slot_is_tagged() {
    let mut b = Bridge::new();
    assert!(b.submit(1, get_request("http://example.invalid/a")));
    assert!(!b.submit(1, get_request("http://example.invalid/b")));

    let taken = b.take_request(1).expect("the first request");
    assert_eq!(taken.url, "http://example.invalid/a");

    assert!(b.mark_inflight(1, 7));
    assert!(!b.submit(1, get_request("http://example.invalid/c")));

    assert!(b.complete(1, Ok(Vec::new())));
    assert!(!b.submit(1, get_request("http://example.invalid/d")));

    assert!(b.take_result(1).is_some());
    assert!(b.submit(1, get_request("http://example.invalid/e")));
}

#[test]
fn complete_is_refused_unless_the_slot_is_inflight() {
    let mut b = Bridge::new();
    assert!(!b.complete(9, Ok(vec![0])));

    assert!(b.submit(9, get_request("http://example.invalid/feed")));
    assert!(!b.complete(9, Ok(vec![0])));
    assert!(!b.has_result(9));

    assert!(b.take_request(9).is_some());
    assert!(b.mark_inflight(9, 4));
    assert!(b.complete(9, Ok(vec![0])));

    // A result is written at most once: the second attempt changes nothing.
    assert!(!b.complete(9, Ok(vec![9, 9])));
    let seen = b.take_result(9).expect("the first outcome");
    assert_eq!(seen.0.as_ref().unwrap().as_slice(), &[0]);
}

#[test]
fn take_request_leaves_other_tags_alone() {
    let mut b = Bridge::new();
    assert!(b.submit(2, get_request("http://example.invalid/a")));
    assert!(b.take_request(8).is_none());
    assert_eq!(b.pending_requests(), vec![2]);

    assert!(b.take_request(2).is_some());
    assert!(b.mark_inflight(2, 11));
    assert!(b.take_request(2).is_none());
    assert_eq!(b.inflight_tasks(), vec![(2, 11)]);
}

#[test]
fn two_slots_resolve_once_each_in_either_completion_order() {
    let mut b = Bridge::new();
    assert!(b.submit(1, get_request("http://example.invalid/first")));
    assert!(b.submit(2, get_request("http://example.invalid/second")));

    for slot in b.pending_requests() {
        assert!(b.take_request(slot).is_some());
        assert!(b.mark_inflight(slot, slot + 10));
    }

    // The second-submitted request finishes first; each slot still resolves
    // exactly once, with its own outcome.
    assert!(b.complete(2, Ok(b"second".to_vec())));
    assert!(b.complete(1, Ok(b"first".to_vec())));
    assert!(!b.complete(2, Ok(b"again".to_vec())));
    assert!(!b.complete(1, Ok(b"again".to_vec())));

    let first = b.take_result(1).expect("outcome of slot 1");
    let second = b.take_result(2).expect("outcome of slot 2");
    assert_eq!(first.0.as_ref().unwrap().as_slice(), b"first");
    assert_eq!(second.0.as_ref().unwrap().as_slice(), b"second");
    assert!(b.take_result(1).is_none());
    assert!(b.take_result(2).is_none());
}

#[test]
fn transport_failure_is_carried_as_a_value() {
    let mut b = Bridge::new();
    assert!(b.submit(6, get_request("http://127.0.0.1:1/closed")));
    assert!(b.take_request(6).is_some());
    assert!(b.mark_inflight(6, 1));

    assert!(b.complete(6, Err("connection refused".to_string())));
    let outcome = b.result_of(6).expect("a recorded outcome");
    assert_eq!(outcome.0.as_ref().unwrap_err(), "connection refused");
    assert!(outcome.as_str().is_none());
}

#[test]
fn a_request_wraps_into_its_slot_tag() {
    let rr = nhk_now::ReqwestRequest::from(get_request("http://example.invalid/feed"));
    let inner = rr.0.expect("a freshly wrapped request is intact");
    assert_eq!(inner.url, "http://example.invalid/feed");
}
