use errors::kv::KeyValue;
use errors::message::{compose_error_message, Message, MessageWrapper};
use errors::value::BasicType;

#[test]
fn permuted_insertions_render_identically() {
    let mut a = KeyValue::new();
    a.insert("alpha", 1u8);
    a.insert("beta", 2u8);
    a.insert("gamma", 3u8);

    let mut b = KeyValue::new();
    b.insert("gamma", 3u8);
    b.insert("alpha", 1u8);
    b.insert("beta", 2u8);

    let mut c = KeyValue::new();
    c.insert("beta", 2u8);
    c.insert("gamma", 3u8);
    c.insert("alpha", 1u8);

    let rendered = a.render_text();
    assert_eq!(rendered, b.render_text());
    assert_eq!(rendered, c.render_text());
    assert_eq!(rendered, "ErrorInfo { alpha: 1, beta: 2, gamma: 3 }");

    let json = a.render_json();
    assert_eq!(json, b.render_json());
    assert_eq!(json, c.render_json());
    assert_eq!(json, "{\"alpha\":1,\"beta\":2,\"gamma\":3}");
}

#[test]
fn same_key_in_two_maps_never_interferes() {
    let mut a = KeyValue::new();
    let mut b = KeyValue::new();
    a.insert("k", "first");
    b.insert("k", "second");
    assert_eq!(a.render_text(), "ErrorInfo { k: \"first\" }");
    assert_eq!(b.render_text(), "ErrorInfo { k: \"second\" }");
    assert_eq!(a.len(), 1);
    assert_eq!(b.len(), 1);
}

#[test]
fn empty_map_renders_bare() {
    let kv = KeyValue::new();
    assert_eq!(kv.len(), 0);
    assert_eq!(kv.render_text(), "ErrorInfo");
    assert_eq!(kv.render_json(), "{}");
    assert_eq!(kv.render_json_pretty(""), "{}");
}

#[test]
fn insert_value_stores_the_given_arm() {
    let mut kv = KeyValue::new();
    kv.insert_value("flag", BasicType::Bool(true));
    assert_eq!(kv.len(), 1);
    assert_eq!(kv.render_text(), "ErrorInfo { flag: true }");
}

#[test]
fn pretty_map_indents_fields() {
    let mut kv = KeyValue::new();
    kv.insert("a", 1u8);
    kv.insert("b", 2u8);
    assert_eq!(kv.render_json_pretty(""), "{\n  \"a\": 1,\n  \"b\": 2\n}");
    assert_eq!(kv.render_json_pretty("  "), "{\n    \"a\": 1,\n    \"b\": 2\n  }");
}

#[test]
fn contains_key_reports_presence() {
    let mut kv = KeyValue::new();
    assert!(!kv.contains_key("k"));
    kv.insert("k", 1u8);
    assert!(kv.contains_key("k"));
    assert!(!kv.contains_key("other"));
    assert!(!kv.contains_key(""));
}

#[test]
fn message_conversion_keeps_text() {
    let m = Message::from(MessageWrapper::from("hello"));
    assert_eq!(m.into_string(), "hello");
    let owned = String::from("there");
    let m2 = Message::from(MessageWrapper::from(&owned));
    assert_eq!(m2.into_string(), "there");
    let m3 = Message::from(MessageWrapper::from(String::from("third")));
    assert_eq!(m3.into_string(), "third");
    let m4 = Message::from(String::from("direct"));
    assert_eq!(m4.into_string(), "direct");
}

#[test]
fn composed_message_covers_all_parts() {
    let m = compose_error_message(
        String::from("open failed"),
        String::from("an io error"),
        Some(String::from("root cause")),
        Some(String::from("deep source")),
    );
    assert_eq!(
        m.into_string(),
        "err:'open failed' description:'an io error' cause:'root cause' source:'deep source'"
    );
}

#[test]
fn composed_message_without_description_or_cause() {
    let bare = compose_error_message(String::from("boom"), String::new(), None, None);
    assert_eq!(bare.into_string(), "err:'boom'");
    let only_source =
        compose_error_message(String::from("boom"), String::new(), None, Some(String::from("s")));
    assert_eq!(only_source.into_string(), "err:'boom' cause:'s'");
    let only_cause =
        compose_error_message(String::from("boom"), String::new(), Some(String::from("c")), None);
    assert_eq!(only_cause.into_string(), "err:'boom' cause:'c'");
    let with_desc =
        compose_error_message(String::from("boom"), String::from("d"), Some(String::from("c")), None);
    assert_eq!(with_desc.into_string(), "err:'boom' description:'d' cause:'c'");
}

#[test]
fn wrapper_exposes_its_payload() {
    let w = MessageWrapper::from("wrapped");
    assert_eq!(w.0, "wrapped");
}
