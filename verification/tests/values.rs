use errors::value::{BasicType, DurationVal, IpAddress, SockAddress};
use errors::ErrorRecord;

#[test]
fn bool_canonical_forms() {
    assert_eq!(BasicType::Bool(true).render_text(), "true");
    assert_eq!(BasicType::Bool(false).render_text(), "false");
    assert_eq!(BasicType::Bool(true).render_json(), "true");
}

#[test]
fn integer_canonical_forms() {
    assert_eq!(BasicType::U8(0).render_text(), "0");
    assert_eq!(BasicType::I8(-128).render_text(), "-128");
    assert_eq!(BasicType::I32(-42).render_text(), "-42");
    assert_eq!(BasicType::U64(18446744073709551615).render_text(), "18446744073709551615");
    assert_eq!(
        BasicType::U128(340282366920938463463374607431768211455).render_text(),
        "340282366920938463463374607431768211455"
    );
    assert_eq!(
        BasicType::I128(i128::MIN).render_text(),
        "-170141183460469231731687303715884105728"
    );
    assert_eq!(BasicType::I64(7).render_json(), "7");
}

#[test]
fn string_canonical_forms() {
    assert_eq!(BasicType::StaticStr("plain").render_text(), "\"plain\"");
    assert_eq!(BasicType::Str(String::from("a\"b")).render_text(), "\"a\\\"b\"");
    assert_eq!(BasicType::StaticStr("").render_text(), "\"\"");
    assert_eq!(BasicType::StaticStr("tab\t").render_text(), "\"tab\\t\"");
    assert_eq!(BasicType::Str(String::from("x")).render_json(), "\"x\"");
}

#[test]
fn control_characters_escape_in_text_form() {
    let v = BasicType::Str(String::from("a\u{1}b\u{7f}c\u{1b}"));
    assert_eq!(v.render_text(), "\"a\\u{1}b\\u{7f}c\\u{1b}\"");
    let nul = BasicType::StaticStr("\u{0}");
    assert_eq!(nul.render_text(), "\"\\u{0}\"");
}

#[test]
fn ipv4_canonical_form() {
    let ip = IpAddress::V4 { a: 10, b: 0, c: 0, d: 1 };
    assert_eq!(BasicType::Ip(ip).render_text(), "10.0.0.1");
    assert_eq!(BasicType::Ip(ip).render_json(), "\"10.0.0.1\"");
}

#[test]
fn ipv4_note_renders_canonically() {
    let ip = IpAddress::V4 { a: 10, b: 0, c: 0, d: 1 };
    let r = ErrorRecord::new("m").note("peer", ip);
    assert_eq!(
        r.render_text(),
        "Error { message: \"m\", info: ErrorInfo { peer: 10.0.0.1 } }"
    );
}

#[test]
fn ipv6_canonical_form_compresses_zero_run() {
    let ip = IpAddress::V6 {
        g0: 0x2001,
        g1: 0xdb8,
        g2: 0,
        g3: 0,
        g4: 0,
        g5: 0,
        g6: 0,
        g7: 1,
    };
    assert_eq!(BasicType::Ip(ip).render_text(), "2001:db8::1");
}

#[test]
fn ipv6_edge_forms() {
    let all_zero = IpAddress::V6 { g0: 0, g1: 0, g2: 0, g3: 0, g4: 0, g5: 0, g6: 0, g7: 0 };
    assert_eq!(BasicType::Ip(all_zero).render_text(), "::");

    let loopback = IpAddress::V6 { g0: 0, g1: 0, g2: 0, g3: 0, g4: 0, g5: 0, g6: 0, g7: 1 };
    assert_eq!(BasicType::Ip(loopback).render_text(), "::1");

    let trailing = IpAddress::V6 { g0: 1, g1: 0, g2: 0, g3: 0, g4: 0, g5: 0, g6: 0, g7: 0 };
    assert_eq!(BasicType::Ip(trailing).render_text(), "1::");

    // Single zero groups are not compressed.
    let alternating = IpAddress::V6 { g0: 1, g1: 0, g2: 1, g3: 0, g4: 1, g5: 0, g6: 1, g7: 0 };
    assert_eq!(BasicType::Ip(alternating).render_text(), "1:0:1:0:1:0:1:0");

    // Among equally long runs the leftmost is compressed.
    let tie = IpAddress::V6 { g0: 0, g1: 0, g2: 1, g3: 0, g4: 0, g5: 1, g6: 0xffff, g7: 2 };
    assert_eq!(BasicType::Ip(tie).render_text(), "::1:0:0:1:ffff:2");
}

#[test]
fn ipv4_mapped_ipv6_uses_mixed_notation() {
    let mapped = IpAddress::V6 {
        g0: 0,
        g1: 0,
        g2: 0,
        g3: 0,
        g4: 0,
        g5: 0xffff,
        g6: 0x0a00,
        g7: 0x0001,
    };
    assert_eq!(BasicType::Ip(mapped).render_text(), "::ffff:10.0.0.1");
    let zero_quad = IpAddress::V6 { g0: 0, g1: 0, g2: 0, g3: 0, g4: 0, g5: 0xffff, g6: 0, g7: 0 };
    assert_eq!(BasicType::Ip(zero_quad).render_text(), "::ffff:0.0.0.0");
}

#[test]
fn socket_canonical_forms() {
    let v4 = SockAddress { ip: IpAddress::V4 { a: 10, b: 0, c: 0, d: 1 }, port: 8080 };
    assert_eq!(BasicType::Socket(v4).render_text(), "10.0.0.1:8080");
    let v6 = SockAddress {
        ip: IpAddress::V6 { g0: 0, g1: 0, g2: 0, g3: 0, g4: 0, g5: 0, g6: 0, g7: 1 },
        port: 443,
    };
    assert_eq!(BasicType::Socket(v6).render_text(), "[::1]:443");
    assert_eq!(BasicType::Socket(v4).render_json(), "\"10.0.0.1:8080\"");
}

#[test]
fn duration_of_1500_ms_renders_1_5s() {
    let d = DurationVal { secs: 1, nanos: 500_000_000 };
    assert_eq!(BasicType::Dur(d).render_text(), "1.5s");
}

#[test]
fn duration_unit_selection() {
    assert_eq!(BasicType::Dur(DurationVal { secs: 0, nanos: 0 }).render_text(), "0ns");
    assert_eq!(BasicType::Dur(DurationVal { secs: 0, nanos: 999 }).render_text(), "999ns");
    assert_eq!(BasicType::Dur(DurationVal { secs: 0, nanos: 1_500 }).render_text(), "1.5\u{b5}s");
    assert_eq!(
        BasicType::Dur(DurationVal { secs: 0, nanos: 250_000_000 }).render_text(),
        "250ms"
    );
    assert_eq!(BasicType::Dur(DurationVal { secs: 2, nanos: 0 }).render_text(), "2s");
    assert_eq!(
        BasicType::Dur(DurationVal { secs: 1, nanos: 5 }).render_text(),
        "1.000000005s"
    );
    assert_eq!(
        BasicType::Dur(DurationVal { secs: 3, nanos: 7_000_000 }).render_text(),
        "3.007s"
    );
}

#[test]
fn duration_note_renders_canonically() {
    let d = DurationVal { secs: 1, nanos: 500_000_000 };
    let r = ErrorRecord::new("m").note("took", d);
    assert_eq!(
        r.render_text(),
        "Error { message: \"m\", info: ErrorInfo { took: 1.5s } }"
    );
}

#[test]
fn time_point_renders_as_span_since_epoch() {
    let t = DurationVal { secs: 5, nanos: 0 };
    assert_eq!(BasicType::SysTime(t).render_text(), "5s");
    assert_eq!(BasicType::SysTime(t).render_json(), "\"5s\"");
}

#[test]
fn duration_serializes_as_json_string() {
    let d = DurationVal { secs: 1, nanos: 500_000_000 };
    assert_eq!(BasicType::Dur(d).render_json(), "\"1.5s\"");
}

#[test]
fn io_error_arm_uses_debug_text_and_display_json() {
    let v = BasicType::IoError {
        display: String::from("No such file or directory"),
        debug: String::from("Custom { kind: NotFound }"),
    };
    assert_eq!(v.render_text(), "Custom { kind: NotFound }");
    assert_eq!(v.render_json(), "\"No such file or directory\"");
}

#[test]
fn escape_hatch_carries_tag_and_debug_text() {
    let v = BasicType::Debuggable {
        tag: String::from("Widget"),
        text: String::from("Widget { size: 3 }"),
    };
    assert_eq!(v.render_text(), "Widget='Widget { size: 3 }'");
    assert_eq!(v.render_json(), "\"Widget='Widget { size: 3 }'\"");
}

#[test]
fn json_quoting_escapes_specials() {
    let v = BasicType::Str(String::from("a\"b\\c\nd"));
    assert_eq!(v.render_json(), "\"a\\\"b\\\\c\\nd\"");
    let parsed: serde_json::Value = serde_json::from_str(&v.render_json()).unwrap();
    assert_eq!(parsed.as_str().unwrap(), "a\"b\\c\nd");
}

#[test]
fn conversion_accepts_references_too() {
    let owned = String::from("shared");
    let flag = true;
    let count = 9u64;
    let r = ErrorRecord::new("m")
        .note("flag", &flag)
        .note("count", &count)
        .note("text", &owned);
    assert_eq!(
        r.render_text(),
        "Error { message: \"m\", info: ErrorInfo { count: 9, flag: true, text: \"shared\" } }"
    );
    assert_eq!(owned, "shared");
}

#[test]
fn conversion_dispatch_selects_the_exact_arm() {
    let r = ErrorRecord::new("m")
        .note("b", true)
        .note("i", -5i16)
        .note("u", 7u32)
        .note("s", "txt")
        .note("o", String::from("own"));
    assert_eq!(
        r.render_text(),
        "Error { message: \"m\", info: ErrorInfo { b: true, i: -5, o: \"own\", s: \"txt\", u: 7 } }"
    );
}
