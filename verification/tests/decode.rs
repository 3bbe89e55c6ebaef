use nhk_now::ReqwestBytesResult;

#[test]
fn as_str_decodes_utf8_text() {
    let r = ReqwestBytesResult(Ok(b"hello".to_vec()));
    assert_eq!(r.as_str(), Some("hello"));
}

#[test]
fn as_str_decodes_multibyte_text() {
    let r = ReqwestBytesResult(Ok("総合".as_bytes().to_vec()));
    assert_eq!(r.as_str(), Some("総合"));
}

#[test]
fn as_str_is_none_on_invalid_utf8_and_the_result_is_untouched() {
    let mut r = ReqwestBytesResult(Ok(vec![0xff, 0xfe, 0x61]));
    assert!(r.as_str().is_none());
    assert!(r.as_string().is_none());
    // Re-querying still returns the same stored bytes.
    assert_eq!(r.0.as_ref().unwrap().as_slice(), &[0xff, 0xfe, 0x61]);
    assert!(r.as_str().is_none());
}

#[test]
fn as_str_is_none_on_a_failure_outcome() {
    let r = ReqwestBytesResult(Err("timed out".to_string()));
    assert!(r.as_str().is_none());
}

#[test]
fn as_string_returns_owned_text() {
    let mut r = ReqwestBytesResult(Ok(b"body".to_vec()));
    assert_eq!(r.as_string(), Some("body".to_string()));
    assert_eq!(r.0.as_ref().unwrap().as_slice(), b"body");
}

#[test]
fn deserialize_json_parses_a_document() {
    let mut r = ReqwestBytesResult(Ok(br#"{"a": 1}"#.to_vec()));
    let doc = r.deserialize_json().expect("well-formed JSON");
    assert_eq!(doc.get("a").and_then(|v| v.as_i64()), Some(1));
    // The stored outcome is untouched.
    assert_eq!(r.0.as_ref().unwrap().as_slice(), br#"{"a": 1}"#);
}

#[test]
fn deserialize_json_is_none_on_malformed_text() {
    let mut r = ReqwestBytesResult(Ok(b"{".to_vec()));
    assert!(r.deserialize_json().is_none());
}

#[test]
fn deserialize_json_is_none_on_invalid_utf8_or_failure() {
    let mut bad = ReqwestBytesResult(Ok(vec![0xff]));
    assert!(bad.deserialize_json().is_none());
    let mut failed = ReqwestBytesResult(Err("no route to host".to_string()));
    assert!(failed.deserialize_json().is_none());
}
