use second_opinion::client::{
    ask_exit, ask_message, ask_reply, is_server_running, new_request_id, pid_file, pid_file_in,
    port_file_in, resolve_port, state_dir_under, status_document, status_reply, AskOutcome,
    Config,
};
use second_opinion::protocol::decode_incoming;
use second_opinion::server::RequestResult;

#[test]
fn command_line_port_wins() {
    let config = Config { port: Some(1000), timeout_secs: None };
    assert_eq!(resolve_port(Some(42), Some("9000"), &config), 42);
}

#[test]
fn environment_port_comes_next() {
    let config = Config { port: Some(1000), timeout_secs: None };
    assert_eq!(resolve_port(None, Some("9000"), &config), 9000);
}

#[test]
fn unreadable_environment_port_is_skipped() {
    let config = Config { port: Some(1000), timeout_secs: None };
    assert_eq!(resolve_port(None, Some("nine"), &config), 1000);
    assert_eq!(resolve_port(None, Some("70000"), &config), 1000);
}

#[test]
fn configured_port_then_default() {
    let config = Config { port: Some(1000), timeout_secs: None };
    assert_eq!(resolve_port(None, None, &config), 1000);
    assert_eq!(resolve_port(None, None, &Config::default()), 7878);
}

#[test]
fn timeout_defaults_to_sixty_seconds() {
    assert_eq!(Config::default().timeout_secs_or_default(), 60);
    assert_eq!(Config { port: None, timeout_secs: Some(5) }.timeout_secs_or_default(), 5);
}

#[test]
fn state_files_live_in_the_home_directory() {
    let dir = state_dir_under(b"/home/alice");
    assert_eq!(dir, b"/home/alice/.second-opinion".to_vec());
    assert_eq!(state_dir_under(b"/home/bob/"), b"/home/bob/.second-opinion".to_vec());
    assert_eq!(pid_file_in(&dir), b"/home/alice/.second-opinion/server.pid".to_vec());
    assert_eq!(port_file_in(&dir), b"/home/alice/.second-opinion/server.port".to_vec());
    let joined = std::path::Path::new("/home/alice").join(".second-opinion").join("server.pid");
    assert_eq!(pid_file_in(&dir), joined.into_os_string().into_encoded_bytes());
}

#[test]
fn home_directories_that_are_not_utf8_are_kept() {
    let home: &[u8] = b"/home/\xff\xfeuser";
    let dir = state_dir_under(home);
    let mut expected = home.to_vec();
    expected.extend_from_slice(b"/.second-opinion");
    assert_eq!(dir, expected);
    assert!(std::str::from_utf8(&dir).is_err());
}

#[test]
fn pid_file_follows_the_home_directory() {
    if let Some(home) = dirs::home_dir() {
        let expected = home.join(".second-opinion").join("server.pid");
        assert_eq!(pid_file().unwrap(), expected.into_os_string().into_encoded_bytes());
    }
}

#[test]
fn running_needs_a_pid_and_a_live_process() {
    assert!(is_server_running(Some(10), true));
    assert!(!is_server_running(Some(10), false));
    assert!(!is_server_running(None, true));
}

#[test]
fn request_ids_are_random_uuids() {
    let a = new_request_id();
    let b = new_request_id();
    assert_ne!(a, b);
    assert_eq!(a.len(), 36);
    assert_eq!(&a[14..15], "4");
    assert!(uuid::Uuid::parse_str(&a).is_ok());
}

#[test]
fn question_message_is_written() {
    assert_eq!(ask_message("id", "what?").encode(), r#"{"id":"id","message":"what?","type":"ask"}"#);
}

fn render(r: Option<RequestResult>) -> Option<(bool, String)> {
    r.map(|r| match r {
        RequestResult::Response(t) => (true, t),
        RequestResult::Error(e) => (false, e),
    })
}

#[test]
fn reply_for_the_question_ends_the_wait() {
    let m = decode_incoming(r#"{"type":"response","id":"q","text":"yes"}"#);
    assert_eq!(render(ask_reply(&m, "q")), Some((true, "yes".to_string())));
    let m = decode_incoming(r#"{"type":"error","id":"q","error":"timeout"}"#);
    assert_eq!(render(ask_reply(&m, "q")), Some((false, "timeout".to_string())));
    let m = decode_incoming(r#"{"type":"error","id":"q"}"#);
    assert_eq!(render(ask_reply(&m, "q")), Some((false, "unknown".to_string())));
}

#[test]
fn other_replies_do_not_end_the_wait() {
    let m = decode_incoming(r#"{"type":"response","id":"other","text":"yes"}"#);
    assert_eq!(render(ask_reply(&m, "q")), None);
    let m = decode_incoming(r#"{"type":"status_response","id":"q"}"#);
    assert_eq!(render(ask_reply(&m, "q")), None);
    let m = decode_incoming(r#"{"type":"response","text":"no id"}"#);
    assert_eq!(render(ask_reply(&m, "q")), None);
    assert_eq!(render(ask_reply(&m, "")), Some((true, "no id".to_string())));
}

#[test]
fn status_reply_reads_the_flag() {
    let m = decode_incoming(r#"{"type":"status_response","extension_connected":true}"#);
    assert_eq!(status_reply(&m), Some(true));
    let m = decode_incoming(r#"{"type":"status_response"}"#);
    assert_eq!(status_reply(&m), Some(false));
    let m = decode_incoming(r#"{"type":"response","extension_connected":true}"#);
    assert_eq!(status_reply(&m), None);
}

#[test]
fn status_document_is_written() {
    assert_eq!(
        status_document(false, 1234, true),
        r#"{"extension_connected":false,"port":0,"running":false}"#
    );
    assert_eq!(
        status_document(true, 7878, true),
        r#"{"extension_connected":true,"port":7878,"running":true}"#
    );
    assert_eq!(
        status_document(true, 1, false),
        r#"{"extension_connected":false,"port":1,"running":true}"#
    );
}

fn exit_of(o: AskOutcome) -> (i32, bool, String) {
    let e = ask_exit(o);
    (e.code, e.to_stderr, e.text)
}

#[test]
fn exit_codes_follow_the_readme() {
    assert_eq!(
        exit_of(AskOutcome::Finished(RequestResult::Response("answer".to_string()))),
        (0, false, "answer".to_string())
    );
    assert_eq!(
        exit_of(AskOutcome::Unreachable),
        (1, true, "Server not running. Call 'start' first.".to_string())
    );
    assert_eq!(
        exit_of(AskOutcome::Finished(RequestResult::Error("extension_not_connected".to_string()))),
        (2, true, "extension_not_connected".to_string())
    );
    assert_eq!(
        exit_of(AskOutcome::Finished(RequestResult::Error("timeout".to_string()))),
        (3, true, "timeout".to_string())
    );
    assert_eq!(
        exit_of(AskOutcome::TimedOut),
        (3, true, "Timeout waiting for Grok response.".to_string())
    );
    assert_eq!(
        exit_of(AskOutcome::Finished(RequestResult::Error("connection_closed".to_string()))),
        (1, true, "connection_closed".to_string())
    );
}

fn outcome_of(frames: &[&str], id: &str) -> (i32, bool, String) {
    let mut wait = second_opinion::client::ReplyWait::new(id.to_string());
    for f in frames {
        if wait.receive(&decode_incoming(f)) {
            break;
        }
    }
    exit_of(wait.outcome())
}

#[test]
fn first_matching_reply_ends_the_wait() {
    let frames = [
        r#"{"type":"response","id":"other","text":"no"}"#,
        "not json",
        r#"{"type":"status_response","id":"q"}"#,
        r#"{"type":"response","id":"q","text":"yes"}"#,
        r#"{"type":"error","id":"q","error":"timeout"}"#,
    ];
    assert_eq!(outcome_of(&frames, "q"), (0, false, "yes".to_string()));
}

#[test]
fn irrelevant_frames_do_not_change_the_outcome() {
    let plain = [r#"{"type":"error","id":"q","error":"extension_not_connected"}"#];
    let noisy = [
        "garbage",
        r#"{"type":"response","id":"z","text":"x"}"#,
        r#"{"type":"ask","id":"q","message":"m"}"#,
        r#"{"type":"error","id":"q","error":"extension_not_connected"}"#,
    ];
    assert_eq!(outcome_of(&plain, "q"), outcome_of(&noisy, "q"));
    assert_eq!(outcome_of(&plain, "q"), (2, true, "extension_not_connected".to_string()));
}

#[test]
fn closed_connection_without_reply() {
    assert_eq!(
        outcome_of(&[r#"{"type":"response","id":"z","text":"x"}"#], "q"),
        (1, true, "connection_closed".to_string())
    );
    assert_eq!(outcome_of(&[], "q"), (1, true, "connection_closed".to_string()));
}

#[test]
fn later_frames_do_not_replace_the_reply() {
    let mut wait = second_opinion::client::ReplyWait::new("q".to_string());
    assert!(wait.receive(&decode_incoming(r#"{"type":"error","id":"q","error":"timeout"}"#)));
    assert!(wait.receive(&decode_incoming(r#"{"type":"response","id":"q","text":"late"}"#)));
    assert_eq!(exit_of(wait.outcome()), (3, true, "timeout".to_string()));
}

fn status_of_frames(frames: &[&str]) -> bool {
    let mut wait = second_opinion::client::StatusWait::new();
    for f in frames {
        if wait.receive(&decode_incoming(f)) {
            break;
        }
    }
    wait.outcome()
}

#[test]
fn first_status_response_decides() {
    let frames = [
        "noise",
        r#"{"type":"response","id":"x","extension_connected":false}"#,
        r#"{"type":"status_response","extension_connected":true}"#,
        r#"{"type":"status_response","extension_connected":false}"#,
    ];
    assert!(status_of_frames(&frames));
}

#[test]
fn no_status_response_means_not_connected() {
    assert!(!status_of_frames(&[]));
    assert!(!status_of_frames(&[r#"{"type":"error","id":"q"}"#, "[]"]));
    assert!(!status_of_frames(&[r#"{"type":"status_response","extension_connected":"yes"}"#]));
}

#[test]
fn later_frames_do_not_change_the_status() {
    let mut wait = second_opinion::client::StatusWait::new();
    assert!(wait.receive(&decode_incoming(r#"{"type":"status_response","extension_connected":false}"#)));
    assert!(wait.receive(&decode_incoming(r#"{"type":"status_response","extension_connected":true}"#)));
    assert!(!wait.outcome());
}
