use second_opinion::server::{Connection, Delivery, RequestResult, ServerState};

fn sent(ds: &[Delivery]) -> Vec<(u64, String)> {
    ds.iter().map(|d| (d.conn, d.message.encode())).collect()
}

fn setup() -> (ServerState, Connection, Connection) {
    let mut s = ServerState::new();
    let mut ext = Connection::new(1);
    let cli = Connection::new(2);
    let out = s.handle_text(&mut ext, r#"{"type":"extension_ready"}"#);
    assert!(out.is_empty());
    (s, ext, cli)
}

#[test]
fn new_state_has_no_extension() {
    let s = ServerState::new();
    assert!(!s.extension_connected());
    assert_eq!(s.pending_count(), 0);
}

#[test]
fn extension_ready_marks_the_connection() {
    let (s, ext, cli) = setup();
    assert!(s.extension_connected());
    assert!(ext.is_extension);
    assert!(!cli.is_extension);
}

#[test]
fn ask_without_extension_is_refused_at_once() {
    let mut s = ServerState::new();
    let mut cli = Connection::new(5);
    let out = s.handle_text(&mut cli, r#"{"type":"ask","id":"q1","message":"hi"}"#);
    assert_eq!(
        sent(&out),
        vec![(5, r#"{"error":"extension_not_connected","id":"q1","type":"error"}"#.to_string())]
    );
    assert_eq!(s.pending_count(), 0);
}

#[test]
fn ask_is_relayed_and_answer_routed_back() {
    let (mut s, mut ext, mut cli) = setup();
    let out = s.handle_text(&mut cli, r#"{"type":"ask","id":"q1","message":"hi"}"#);
    assert_eq!(sent(&out), vec![(1, r#"{"id":"q1","message":"hi","type":"ask"}"#.to_string())]);
    assert_eq!(s.pending_count(), 1);
    let out = s.handle_text(&mut ext, r#"{"type":"response","id":"q1","text":"hello"}"#);
    assert_eq!(sent(&out), vec![(2, r#"{"id":"q1","text":"hello","type":"response"}"#.to_string())]);
    assert_eq!(s.pending_count(), 0);
}

#[test]
fn answer_is_delivered_once() {
    let (mut s, mut ext, mut cli) = setup();
    s.handle_text(&mut cli, r#"{"type":"ask","id":"q1","message":"hi"}"#);
    let first = s.handle_text(&mut ext, r#"{"type":"error","id":"q1","error":"timeout"}"#);
    assert_eq!(sent(&first), vec![(2, r#"{"error":"timeout","id":"q1","type":"error"}"#.to_string())]);
    let second = s.handle_text(&mut ext, r#"{"type":"response","id":"q1","text":"late"}"#);
    assert!(second.is_empty());
}

#[test]
fn missing_members_take_their_defaults() {
    let (mut s, mut ext, mut cli) = setup();
    let out = s.handle_text(&mut cli, r#"{"type":"ask","id":"a"}"#);
    assert_eq!(sent(&out), vec![(1, r#"{"id":"a","message":"","type":"ask"}"#.to_string())]);
    let out = s.handle_text(&mut ext, r#"{"type":"response","id":"a"}"#);
    assert_eq!(sent(&out), vec![(2, r#"{"id":"a","text":"","type":"response"}"#.to_string())]);
    s.handle_text(&mut cli, r#"{"type":"ask","id":"b"}"#);
    let out = s.handle_text(&mut ext, r#"{"type":"error","id":"b"}"#);
    assert_eq!(sent(&out), vec![(2, r#"{"error":"unknown","id":"b","type":"error"}"#.to_string())]);
}

#[test]
fn messages_without_id_or_type_are_ignored() {
    let (mut s, mut ext, mut cli) = setup();
    assert!(s.handle_text(&mut cli, r#"{"type":"ask","message":"no id"}"#).is_empty());
    assert!(s.handle_text(&mut ext, r#"{"type":"response","text":"x"}"#).is_empty());
    assert!(s.handle_text(&mut cli, r#"{"message":"no type"}"#).is_empty());
    assert!(s.handle_text(&mut cli, "garbage").is_empty());
    assert!(s.handle_text(&mut cli, r#"{"type":"something_else"}"#).is_empty());
    assert_eq!(s.pending_count(), 0);
}

#[test]
fn unknown_answer_is_ignored() {
    let (mut s, mut ext, _cli) = setup();
    assert!(s.handle_text(&mut ext, r#"{"type":"response","id":"nope","text":"x"}"#).is_empty());
}

#[test]
fn status_query_reports_the_extension() {
    let mut s = ServerState::new();
    let mut cli = Connection::new(3);
    let out = s.handle_text(&mut cli, r#"{"type":"status_query"}"#);
    assert_eq!(sent(&out), vec![(3, r#"{"extension_connected":false,"type":"status_response"}"#.to_string())]);
    let mut ext = Connection::new(4);
    s.handle_text(&mut ext, r#"{"type":"extension_ready"}"#);
    let out = s.handle_text(&mut cli, r#"{"type":"status_query"}"#);
    assert_eq!(sent(&out), vec![(3, r#"{"extension_connected":true,"type":"status_response"}"#.to_string())]);
}

#[test]
fn extension_disconnect_fails_every_waiting_question() {
    let (mut s, ext, mut cli) = setup();
    let mut other = Connection::new(9);
    s.handle_text(&mut cli, r#"{"type":"ask","id":"a","message":"1"}"#);
    s.handle_text(&mut other, r#"{"type":"ask","id":"b","message":"2"}"#);
    assert_eq!(s.pending_count(), 2);
    let mut out = sent(&s.handle_disconnect(&ext));
    out.sort();
    assert_eq!(
        out,
        vec![
            (2, r#"{"error":"extension_not_connected","id":"a","type":"error"}"#.to_string()),
            (9, r#"{"error":"extension_not_connected","id":"b","type":"error"}"#.to_string()),
        ]
    );
    assert!(!s.extension_connected());
    assert_eq!(s.pending_count(), 0);
}

#[test]
fn other_disconnects_change_nothing() {
    let (mut s, _ext, mut cli) = setup();
    s.handle_text(&mut cli, r#"{"type":"ask","id":"a","message":"1"}"#);
    assert!(s.handle_disconnect(&cli).is_empty());
    assert!(s.extension_connected());
    assert_eq!(s.pending_count(), 1);
}

#[test]
fn failed_relay_fails_the_question() {
    let (mut s, _ext, mut cli) = setup();
    s.handle_text(&mut cli, r#"{"type":"ask","id":"a","message":"1"}"#);
    let out = s.handle_relay_failed("a");
    assert_eq!(
        sent(&out),
        vec![(2, r#"{"error":"extension_not_connected","id":"a","type":"error"}"#.to_string())]
    );
    assert!(!s.extension_connected());
    assert_eq!(s.pending_count(), 0);
}

#[test]
fn repeated_id_replaces_the_waiting_question() {
    let (mut s, mut ext, mut cli) = setup();
    let mut other = Connection::new(7);
    s.handle_text(&mut cli, r#"{"type":"ask","id":"dup","message":"1"}"#);
    s.handle_text(&mut other, r#"{"type":"ask","id":"dup","message":"2"}"#);
    assert_eq!(s.pending_count(), 1);
    let out = s.handle_text(&mut ext, r#"{"type":"response","id":"dup","text":"t"}"#);
    assert_eq!(sent(&out), vec![(7, r#"{"id":"dup","text":"t","type":"response"}"#.to_string())]);
}

#[test]
fn request_result_becomes_the_message() {
    let m = RequestResult::Response("ok".to_string()).into_message("i".to_string());
    assert_eq!(m.encode(), r#"{"id":"i","text":"ok","type":"response"}"#);
    let m = RequestResult::Error("bad".to_string()).into_message("i".to_string());
    assert_eq!(m.encode(), r#"{"error":"bad","id":"i","type":"error"}"#);
}

#[test]
fn answers_after_the_first_are_dropped_over_a_long_run() {
    let (mut s, mut ext, mut cli) = setup();
    let mut other = Connection::new(8);
    s.handle_text(&mut cli, r#"{"type":"ask","id":"q","message":"hi"}"#);
    let mut answers = 0;
    let frames = [
        (1u8, r#"{"type":"response","id":"q","text":"one"}"#),
        (2, r#"{"type":"error","id":"q","error":"again"}"#),
        (1, r#"{"type":"status_query"}"#),
        (1, r#"{"type":"response","id":"q","text":"two"}"#),
    ];
    for (who, f) in frames {
        let conn = if who == 1 { &mut ext } else { &mut other };
        for d in s.handle_text(conn, f) {
            let text = d.message.encode();
            if text.contains(r#""id":"q""#) {
                answers += 1;
                assert_eq!(d.conn, 2);
            }
        }
    }
    for d in s.handle_relay_failed("q") {
        assert!(!d.message.encode().contains(r#""id":"q""#));
    }
    for d in s.handle_disconnect(&ext) {
        assert!(!d.message.encode().contains(r#""id":"q""#));
    }
    assert_eq!(answers, 1);
}

#[test]
fn refused_reask_leaves_the_waiting_question() {
    let (mut s, ext, mut cli) = setup();
    s.handle_text(&mut cli, r#"{"type":"ask","id":"q","message":"hi"}"#);
    let out = s.handle_relay_failed("other");
    assert!(out.is_empty());
    assert!(!s.extension_connected());
    let mut late = Connection::new(6);
    let out = s.handle_text(&mut late, r#"{"type":"ask","id":"q","message":"again"}"#);
    assert_eq!(
        sent(&out),
        vec![(6, r#"{"error":"extension_not_connected","id":"q","type":"error"}"#.to_string())]
    );
    assert_eq!(s.pending_count(), 1);
    let mut ext2 = Connection::new(10);
    s.handle_text(&mut ext2, r#"{"type":"extension_ready"}"#);
    let out = s.handle_text(&mut ext2, r#"{"type":"response","id":"q","text":"done"}"#);
    assert_eq!(sent(&out), vec![(2, r#"{"id":"q","text":"done","type":"response"}"#.to_string())]);
    let _ = ext;
}
