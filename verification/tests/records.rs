use errors::value::BasicType;
use errors::{Cause, ErrorRecord};

#[test]
fn new_record_renders_message_only() {
    let r = ErrorRecord::new("boom");
    assert_eq!(r.render_text(), "Error { message: \"boom\" }");
}

#[test]
fn default_record_is_empty() {
    let r = ErrorRecord::default();
    assert_eq!(r.render_text(), "Error { message: \"\" }");
    assert_eq!(r.to_json(), "{\"message\":\"\"}");
}

#[test]
fn note_then_render_shows_annotation() {
    let r = ErrorRecord::new("disk full").note("path", "/tmp/x");
    assert_eq!(
        r.render_text(),
        "Error { message: \"disk full\", info: ErrorInfo { path: \"/tmp/x\" } }"
    );
}

#[test]
fn to_json_compact_record() {
    let r = ErrorRecord::new("disk full").note("path", "/tmp/x");
    assert_eq!(
        r.to_json(),
        "{\"message\":\"disk full\",\"info\":{\"path\":\"/tmp/x\"}}"
    );
}

#[test]
fn json_round_trip_decodes_to_same_fields() {
    let r = ErrorRecord::new("disk full").note("path", "/tmp/x");
    let j = r.to_json();
    let v: serde_json::Value = serde_json::from_str(&j).unwrap();
    assert_eq!(v["message"].as_str().unwrap(), "disk full");
    assert_eq!(v["info"]["path"].as_str().unwrap(), "/tmp/x");
    assert!(v.get("existing_error").is_none());
    assert_eq!(v.as_object().unwrap().len(), 2);
}

#[test]
fn wrap_renders_outer_then_inner() {
    let inner = ErrorRecord::new("inner");
    let outer = ErrorRecord::default().err(Cause::Record(Box::new(inner)), "outer");
    assert_eq!(
        outer.render_text(),
        "Error { message: \"outer\", existing_error: Error { message: \"inner\" } }"
    );
}

#[test]
fn wrap_keeps_annotations_and_serializes_cause() {
    let inner = ErrorRecord::new("inner").note("step", 1u8);
    let outer = ErrorRecord::default()
        .note("attempt", 2u8)
        .err(Cause::Record(Box::new(inner)), "outer");
    assert_eq!(
        outer.to_json(),
        "{\"message\":\"outer\",\"existing_error\":{\"message\":\"inner\",\"info\":{\"step\":1}},\"info\":{\"attempt\":2}}"
    );
}

#[test]
fn io_failure_wrapped_with_annotation() {
    let io_failure = std::io::Error::new(
        std::io::ErrorKind::Other,
        "No such file or directory",
    );
    let cause = Cause::External(format!("{}", io_failure));
    let r = ErrorRecord::default()
        .err(cause, "failed to open file")
        .note("path", "/etc/missing");
    assert_eq!(
        r.render_text(),
        "Error { message: \"failed to open file\", existing_error: No such file or directory, info: ErrorInfo { path: \"/etc/missing\" } }"
    );
    let v: serde_json::Value = serde_json::from_str(&r.to_json()).unwrap();
    assert_eq!(v["message"].as_str().unwrap(), "failed to open file");
    assert_eq!(
        v["existing_error"].as_str().unwrap(),
        "No such file or directory"
    );
    assert_eq!(v["info"]["path"].as_str().unwrap(), "/etc/missing");
}

#[test]
fn has_note_reports_presence() {
    let r = ErrorRecord::new("m").note("seen", 1u8);
    assert!(r.has_note("seen"));
    assert!(!r.has_note("unseen"));
}

#[test]
fn three_level_causal_chain_renders_in_full() {
    let root = ErrorRecord::new("root");
    let mid = ErrorRecord::default().err(Cause::Record(Box::new(root)), "mid");
    let top = ErrorRecord::default().err(Cause::Record(Box::new(mid)), "top");
    assert_eq!(
        top.render_text(),
        "Error { message: \"top\", existing_error: Error { message: \"mid\", existing_error: Error { message: \"root\" } } }"
    );
    assert_eq!(
        top.to_json(),
        "{\"message\":\"top\",\"existing_error\":{\"message\":\"mid\",\"existing_error\":{\"message\":\"root\"}}}"
    );
}

#[test]
fn to_json_pretty_record() {
    let r = ErrorRecord::new("disk full").note("path", "/tmp/x");
    assert_eq!(
        r.to_json_pretty(),
        "{\n  \"message\": \"disk full\",\n  \"info\": {\n    \"path\": \"/tmp/x\"\n  }\n}"
    );
}

#[test]
fn to_json_pretty_without_annotations_omits_info() {
    let r = ErrorRecord::new("boom");
    assert_eq!(r.to_json_pretty(), "{\n  \"message\": \"boom\"\n}");
}

#[test]
fn empty_map_omits_info_member() {
    let r = ErrorRecord::new("boom");
    let v: serde_json::Value = serde_json::from_str(&r.to_json()).unwrap();
    assert!(v.get("info").is_none());
    assert_eq!(v.as_object().unwrap().len(), 1);
}

#[test]
fn message_with_quote_is_escaped_in_json() {
    let r = ErrorRecord::new("say \"hi\"");
    let j = r.to_json();
    assert_eq!(j, "{\"message\":\"say \\\"hi\\\"\"}");
    let v: serde_json::Value = serde_json::from_str(&j).unwrap();
    assert_eq!(v["message"].as_str().unwrap(), "say \"hi\"");
}

#[test]
fn message_escapes_in_text_render() {
    let r = ErrorRecord::new("a\\b\n\tc\r\"d\"");
    assert_eq!(
        r.render_text(),
        "Error { message: \"a\\\\b\\n\\tc\\r\\\"d\\\"\" }"
    );
}

#[test]
fn chained_notes_render_in_key_order() {
    let r = ErrorRecord::new("m")
        .note("zeta", 1u8)
        .note("alpha", 2u8)
        .note("mid", BasicType::Bool(false));
    assert_eq!(
        r.render_text(),
        "Error { message: \"m\", info: ErrorInfo { alpha: 2, mid: false, zeta: 1 } }"
    );
}

#[test]
fn display_and_debug_share_one_text() {
    let r = ErrorRecord::new("oops").note("k", "v");
    let shown = r.render_text();
    assert_eq!(shown, r.render_text());
    assert!(shown.starts_with("Error { "));
}
