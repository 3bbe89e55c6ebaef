use nhk_now::content::{clip_time_window, get_content, render_timeline, trim_quote_marks};

#[test]
fn trim_strips_surrounding_quote_marks() {
    assert_eq!(trim_quote_marks("\"X\""), "X");
    assert_eq!(trim_quote_marks("\"\""), "");
    assert_eq!(trim_quote_marks("\""), "");
    assert_eq!(trim_quote_marks(""), "");
    assert_eq!(trim_quote_marks("plain"), "plain");
    assert_eq!(trim_quote_marks("a\"b"), "a\"b");
    assert_eq!(trim_quote_marks("\"\"x\"\""), "x");
}

#[test]
fn clip_takes_the_clock_window_of_a_timestamp() {
    assert_eq!(clip_time_window("2024-05-01T13:45:00+09:00"), "13:45");
    assert_eq!(clip_time_window("2024-05-01T1"), "1");
    assert_eq!(clip_time_window("2024-05-01T"), "");
    assert_eq!(clip_time_window("short"), "");
    assert_eq!(clip_time_window(""), "");
}

#[test]
fn render_trims_and_clips_each_field() {
    let (start, title, subtitle) = render_timeline(
        Some("\"2024-05-01T13:45:00+09:00\"".to_string()),
        Some("\"X\"".to_string()),
        Some("\"S\"".to_string()),
    );
    assert_eq!(start, "13:45");
    assert_eq!(title, "X");
    assert_eq!(subtitle, "S");
}

#[test]
fn render_shows_missing_fields_as_empty() {
    let (start, title, subtitle) = render_timeline(None, None, None);
    assert_eq!(start, "");
    assert_eq!(title, "");
    assert_eq!(subtitle, "");
}

#[test]
fn content_of_a_channel_object() {
    let doc: serde_json::Value = serde_json::from_str(
        "{\"present\":{\"start_time\":\"2024-05-01T13:45:00+09:00\",\
         \"title\":\"X\",\"subtitle\":\"S\"}}",
    )
    .expect("well-formed JSON");
    let (start, title, subtitle) = get_content(Some(&doc), "present");
    assert_eq!(start, "13:45");
    assert_eq!(title, "X");
    assert_eq!(subtitle, "S");

    let (start, title, subtitle) = get_content(Some(&doc), "following");
    assert_eq!(start, "");
    assert_eq!(title, "");
    assert_eq!(subtitle, "");
}

#[test]
fn content_without_a_channel_object_is_empty() {
    let (start, title, subtitle) = get_content(None, "present");
    assert_eq!(start, "");
    assert_eq!(title, "");
    assert_eq!(subtitle, "");
}
