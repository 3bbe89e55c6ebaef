use nhk_now::bridge::Bridge;
use nhk_now::nhk::build_url;
use nhk_now::{HttpRequest, Method, NhkView, Service};

// A slot is driven through the full bridge protocol with the body a local
// stub server would return, and the structured decode exposes the programme
// title at the expected place.
#[test]
fn stub_feed_round_trip() {
    let mut bridge = Bridge::new();
    let url = build_url(400, Service::G1, "k");
    assert!(bridge.submit(5, HttpRequest { method: Method::Get, url, headers: Vec::new() }));

    // Dispatcher tick: consume the request, spawn, record the inflight marker.
    assert_eq!(bridge.pending_requests(), vec![5]);
    let req = bridge.take_request(5).expect("the submitted request");
    assert_eq!(req.url, "https://api.nhk.or.jp/v2/pg/now/400/g1.json?key=k");
    assert!(bridge.mark_inflight(5, 1));

    // A tick where the task has not finished: the slot stays inflight and no
    // result is observable yet.
    assert_eq!(bridge.inflight_tasks(), vec![(5, 1)]);
    assert!(!bridge.has_result(5));

    // The task finishes with the stub server's body; the next poll records it.
    let body = "{\"nowonair_list\":{\"g1\":{\"present\":{\"title\":\"X\"}}}}".as_bytes().to_vec();
    assert!(bridge.complete(5, Ok(body)));
    assert!(bridge.inflight_tasks().is_empty());

    // Consumption: the outcome is Ok(bytes) and decodes to the document.
    let mut outcome = bridge.take_result(5).expect("a recorded outcome");
    let doc = outcome.deserialize_json().expect("well-formed JSON");
    assert_eq!(
        doc.get("nowonair_list")
            .and_then(|l| l.get("g1"))
            .and_then(|c| c.get("present"))
            .and_then(|p| p.get("title"))
            .and_then(|t| t.as_str()),
        Some("X")
    );

    // The same document through the view model's content helper.
    let text = outcome.as_str().expect("UTF-8 text");
    let view = NhkView::from_json_text(Service::G1, text).expect("well-formed JSON");
    let (start, title, subtitle) = view.on_air_content("present");
    assert_eq!(title, "X");
    assert_eq!(start, "");
    assert_eq!(subtitle, "");
}
