use nhk_now::nhk::build_url;
use nhk_now::{Action, Error, Message, NhkView, Service};

#[test]
fn service_codes_match_the_feed() {
    assert_eq!(Service::Unselected.code(), "");
    assert_eq!(Service::G1.code(), "g1");
    assert_eq!(Service::E1.code(), "e1");
    assert_eq!(Service::R1.code(), "r1");
    assert_eq!(Service::R2.code(), "r2");
    assert_eq!(Service::R3.code(), "r3");
}

#[test]
fn service_labels_are_the_display_names() {
    assert_eq!(Service::G1.label(), "NHK総合1");
    assert_eq!(Service::E1.label(), "Eテレ1");
    assert_eq!(Service::R1.label(), "ラジオ第1");
    assert_eq!(Service::R2.label(), "ラジオ第2");
    assert_eq!(Service::R3.label(), "NHK FM");
    assert_eq!(Service::Unselected.label(), "");
}

#[test]
fn url_is_built_from_area_service_and_key() {
    assert_eq!(
        build_url(400, Service::G1, "SECRET-REDACTED"),
        "https://api.nhk.or.jp/v2/pg/now/400/g1.json?key=SECRET-REDACTED"
    );
    assert_eq!(build_url(0, Service::R3, ""), "https://api.nhk.or.jp/v2/pg/now/0/r3.json?key=");
    assert_eq!(
        build_url(130, Service::E1, "k"),
        "https://api.nhk.or.jp/v2/pg/now/130/e1.json?key=k"
    );
}

#[test]
fn a_new_view_has_nothing_selected() {
    let v = NhkView::new();
    assert_eq!(v.service(), Service::Unselected);
    assert_eq!(v.title(), "NHK now");
}

#[test]
fn update_switch_asks_for_a_fetch_and_changes_nothing() {
    let mut v = NhkView::new();
    let action = v.update(Message::SwitchTo(Service::R2));
    assert_eq!(action, Action::Fetch(Service::R2));
    assert_eq!(v.service(), Service::Unselected);
}

#[test]
fn update_applies_a_successful_load() {
    let mut v = NhkView::new();
    let loaded = NhkView::from_json_text(Service::G1, "{}").expect("well-formed JSON");
    let action = v.update(Message::JsonLoaded(Ok(loaded)));
    assert_eq!(action, Action::Idle);
    assert_eq!(v.service(), Service::G1);
}

#[test]
fn update_keeps_state_on_a_failed_load_and_on_redraw() {
    let mut v = NhkView::new();
    assert_eq!(v.update(Message::JsonLoaded(Err(Error::APIError))), Action::Idle);
    assert_eq!(v.service(), Service::Unselected);
    assert_eq!(v.update(Message::Reloading), Action::Idle);
    assert_eq!(v.service(), Service::Unselected);
}

#[test]
fn from_json_text_rejects_malformed_text() {
    assert_eq!(NhkView::from_json_text(Service::G1, "not json").unwrap_err(), Error::APIError);
    assert_eq!(NhkView::from_json_text(Service::G1, "{\"open").unwrap_err(), Error::APIError);
    assert!(NhkView::from_json_text(Service::G1, "[1, 2]").is_ok());
}
