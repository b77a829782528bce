use second_opinion::protocol::{decode_incoming, same_text, Outgoing};

fn parse(text: &str) -> serde_json::Value {
    serde_json::from_str(text).expect("valid JSON")
}

#[test]
fn response_is_written_with_sorted_keys() {
    let m = Outgoing::Response { id: "abc".to_string(), text: "hello".to_string() };
    assert_eq!(m.encode(), r#"{"id":"abc","text":"hello","type":"response"}"#);
}

#[test]
fn error_is_written_with_sorted_keys() {
    let m = Outgoing::Error { id: "1".to_string(), error: "extension_not_connected".to_string() };
    assert_eq!(m.encode(), r#"{"error":"extension_not_connected","id":"1","type":"error"}"#);
}

#[test]
fn ask_is_written_with_sorted_keys() {
    let m = Outgoing::Ask { id: "q".to_string(), message: "why?".to_string() };
    assert_eq!(m.encode(), r#"{"id":"q","message":"why?","type":"ask"}"#);
}

#[test]
fn status_messages_are_written() {
    assert_eq!(Outgoing::StatusQuery.encode(), r#"{"type":"status_query"}"#);
    assert_eq!(
        Outgoing::StatusResponse { extension_connected: true }.encode(),
        r#"{"extension_connected":true,"type":"status_response"}"#
    );
    assert_eq!(
        Outgoing::StatusResponse { extension_connected: false }.encode(),
        r#"{"extension_connected":false,"type":"status_response"}"#
    );
}

#[test]
fn strings_are_escaped_as_serde_json_escapes_them() {
    let tricky = "quote \" backslash \\ newline \n tab \t bell \u{7} del \u{7f} é 日本 \u{1f600}";
    let m = Outgoing::Response { id: "x".to_string(), text: tricky.to_string() };
    let text = m.encode();
    assert!(text.contains(r#"\"#));
    assert!(text.contains(r#"\u0007"#));
    let v = parse(&text);
    assert_eq!(v.get("text").and_then(|t| t.as_str()), Some(tricky));
    assert_eq!(
        text,
        format!(
            "{{\"id\":{},\"text\":{},\"type\":\"response\"}}",
            serde_json::to_string("x").unwrap(),
            serde_json::to_string(tricky).unwrap()
        )
    );
}

#[test]
fn written_messages_read_back() {
    let m = Outgoing::Ask { id: "id-1".to_string(), message: "line1\nline2 \"q\"".to_string() };
    let d = decode_incoming(&m.encode());
    assert_eq!(d.kind.as_deref(), Some("ask"));
    assert_eq!(d.id.as_deref(), Some("id-1"));
    assert_eq!(d.message.as_deref(), Some("line1\nline2 \"q\""));
    assert_eq!(d.text, None);
    assert_eq!(d.extension_connected, None);
}

#[test]
fn members_of_other_types_are_absent() {
    let d = decode_incoming(r#"{"type":"response","id":7,"text":null,"extension_connected":"yes"}"#);
    assert_eq!(d.kind.as_deref(), Some("response"));
    assert_eq!(d.id, None);
    assert_eq!(d.text, None);
    assert_eq!(d.extension_connected, None);
}

#[test]
fn text_that_is_not_an_object_has_no_members() {
    for t in ["not json", "[1,2]", "\"type\"", "", "{\"type\":\"ask\""] {
        let d = decode_incoming(t);
        assert_eq!(d.kind, None, "input {:?}", t);
        assert_eq!(d.id, None);
    }
}

#[test]
fn boolean_member_is_read() {
    let d = decode_incoming(r#"{"type":"status_response","extension_connected":true}"#);
    assert_eq!(d.kind.as_deref(), Some("status_response"));
    assert_eq!(d.extension_connected, Some(true));
}

#[test]
fn same_text_compares_characters() {
    assert!(same_text("abc", "abc"));
    assert!(!same_text("abc", "abd"));
    assert!(!same_text("abc", "ab"));
    assert!(same_text("", ""));
    assert!(same_text("日本", "日本"));
}

#[test]
fn control_characters_are_escaped() {
    let m = Outgoing::Error { id: "\u{1f}\u{8}\u{c}\r".to_string(), error: "a\\b\"c\u{7f}".to_string() };
    assert_eq!(
        m.encode(),
        "{\"error\":\"a\\\\b\\\"c\u{7f}\",\"id\":\"\\u001f\\b\\f\\r\",\"type\":\"error\"}"
    );
}
