use second_opinion::commands::{
    Action, Event, StartCommand, StartStage, StatusCommand, StopCommand, StopStage,
};

fn show(actions: &[Action]) -> Vec<String> {
    actions
        .iter()
        .map(|a| match a {
            Action::ReadPidFile => "read pid".to_string(),
            Action::ReadPortFile => "read port".to_string(),
            Action::ProbeProcess(p) => format!("probe process {}", p),
            Action::ProbePort(p) => format!("probe port {}", p),
            Action::Terminate(p) => format!("terminate {}", p),
            Action::StartClock => "start clock".to_string(),
            Action::Sleep(ms) => format!("sleep {}", ms),
            Action::RemoveStateFiles => "remove files".to_string(),
            Action::Launch(p) => format!("launch {}", p),
            Action::QueryExtension(p) => format!("query {}", p),
            Action::Print(t) => format!("print {}", t),
            Action::PrintError(t) => format!("eprint {}", t),
            Action::Fail(t) => format!("fail {}", t),
            Action::Exit(c) => format!("exit {}", c),
            Action::Finish => "finish".to_string(),
        })
        .collect()
}

fn pid(text: &str) -> Event {
    Event::PidFile(Some(text.to_string()))
}

fn port(text: Option<&str>, elapsed_ms: u64) -> Event {
    Event::PortFile { text: text.map(|t| t.to_string()), elapsed_ms }
}

#[test]
fn stop_without_pid_file() {
    let (mut m, first) = StopCommand::new();
    assert_eq!(show(&first), vec!["read pid"]);
    assert_eq!(show(&m.step(&Event::PidFile(None))), vec!["print Server not running.", "finish"]);
    assert!(matches!(m.stage, StopStage::Done));
}

#[test]
fn stop_with_stale_pid_file() {
    let (mut m, _) = StopCommand::new();
    assert_eq!(show(&m.step(&pid("123\n"))), vec!["probe process 123"]);
    assert_eq!(
        show(&m.step(&Event::ProcessAlive { alive: false, elapsed_ms: 0 })),
        vec!["remove files", "print Server not running.", "finish"]
    );
}

#[test]
fn stop_a_running_server() {
    let (mut m, _) = StopCommand::new();
    m.step(&pid("123"));
    assert_eq!(show(&m.step(&Event::ProcessAlive { alive: true, elapsed_ms: 0 })), vec!["read port"]);
    assert_eq!(
        show(&m.step(&port(Some("7878"), 0))),
        vec!["terminate 123", "start clock", "probe process 123"]
    );
    assert_eq!(
        show(&m.step(&Event::ProcessAlive { alive: true, elapsed_ms: 100 })),
        vec!["sleep 100", "probe process 123"]
    );
    assert_eq!(
        show(&m.step(&Event::ProcessAlive { alive: false, elapsed_ms: 200 })),
        vec!["start clock", "probe port 7878"]
    );
    assert_eq!(
        show(&m.step(&Event::PortFree { free: false, elapsed_ms: 100 })),
        vec!["sleep 100", "probe port 7878"]
    );
    assert_eq!(
        show(&m.step(&Event::PortFree { free: true, elapsed_ms: 200 })),
        vec!["remove files", "print Server stopped.", "finish"]
    );
}

#[test]
fn stop_gives_up_waiting() {
    let (mut m, _) = StopCommand::new();
    m.step(&pid("9"));
    m.step(&Event::ProcessAlive { alive: true, elapsed_ms: 0 });
    m.step(&port(None, 0));
    assert_eq!(
        show(&m.step(&Event::ProcessAlive { alive: true, elapsed_ms: 5000 })),
        vec!["eprint Timeout waiting for server to stop", "remove files", "print Server stopped.", "finish"]
    );
}

#[test]
fn stop_gives_up_waiting_for_the_port() {
    let (mut m, _) = StopCommand::new();
    m.step(&pid("9"));
    m.step(&Event::ProcessAlive { alive: true, elapsed_ms: 0 });
    m.step(&port(Some("80"), 0));
    m.step(&Event::ProcessAlive { alive: false, elapsed_ms: 0 });
    assert_eq!(
        show(&m.step(&Event::PortFree { free: false, elapsed_ms: 2000 })),
        vec!["remove files", "print Server stopped.", "finish"]
    );
}

#[test]
fn unexpected_events_are_ignored() {
    let (mut m, _) = StopCommand::new();
    assert!(m.step(&Event::ExtensionStatus(true)).is_empty());
    assert!(matches!(m.stage, StopStage::ReadingPid));
}

#[test]
fn start_when_already_running() {
    let (mut m, first) = StartCommand::new(7878);
    assert_eq!(show(&first), vec!["read pid"]);
    assert_eq!(show(&m.step(&pid("55"))), vec!["probe process 55"]);
    assert_eq!(show(&m.step(&Event::ProcessAlive { alive: true, elapsed_ms: 0 })), vec!["read port"]);
    assert_eq!(
        show(&m.step(&port(Some("9000"), 0))),
        vec!["print Server already running on port 9000", "finish"]
    );
}

#[test]
fn start_reports_the_requested_port_without_a_port_file() {
    let (mut m, _) = StartCommand::new(7878);
    m.step(&pid("55"));
    m.step(&Event::ProcessAlive { alive: true, elapsed_ms: 0 });
    assert_eq!(show(&m.step(&port(None, 0))), vec!["print Server already running on port 7878", "finish"]);
}

#[test]
fn start_on_a_busy_port_fails() {
    let (mut m, _) = StartCommand::new(8080);
    assert_eq!(show(&m.step(&Event::PidFile(None))), vec!["probe port 8080"]);
    assert_eq!(
        show(&m.step(&Event::PortFree { free: false, elapsed_ms: 0 })),
        vec!["fail Port 8080 is not available"]
    );
}

#[test]
fn start_launches_and_waits_for_the_port_file() {
    let (mut m, _) = StartCommand::new(8080);
    m.step(&pid("55"));
    assert_eq!(show(&m.step(&Event::ProcessAlive { alive: false, elapsed_ms: 0 })), vec!["probe port 8080"]);
    assert_eq!(
        show(&m.step(&Event::PortFree { free: true, elapsed_ms: 0 })),
        vec!["launch 8080", "start clock", "read port"]
    );
    assert!(matches!(m.stage, StartStage::AwaitingStart));
    assert_eq!(show(&m.step(&port(None, 100))), vec!["sleep 100", "read port"]);
    assert_eq!(show(&m.step(&port(Some("8080\n"), 300))), vec!["print Server started on port 8080", "exit 0"]);
}

#[test]
fn start_times_out() {
    let (mut m, _) = StartCommand::new(8080);
    m.step(&Event::PidFile(None));
    m.step(&Event::PortFree { free: true, elapsed_ms: 0 });
    assert_eq!(
        show(&m.step(&port(Some("garbage"), 5000))),
        vec!["eprint Timeout waiting for server to start", "exit 1"]
    );
}

#[test]
fn status_when_not_running() {
    let (mut m, first) = StatusCommand::new(7878);
    assert_eq!(show(&first), vec!["read pid"]);
    assert_eq!(show(&m.step(&Event::PidFile(None))), vec!["read port"]);
    assert_eq!(
        show(&m.step(&port(Some("9999"), 0))),
        vec![r#"print {"extension_connected":false,"port":0,"running":false}"#, "finish"]
    );
}

#[test]
fn status_when_running() {
    let (mut m, _) = StatusCommand::new(7878);
    assert_eq!(show(&m.step(&pid("42"))), vec!["probe process 42"]);
    assert_eq!(show(&m.step(&Event::ProcessAlive { alive: true, elapsed_ms: 0 })), vec!["read port"]);
    assert_eq!(show(&m.step(&port(None, 0))), vec!["query 7878"]);
    assert_eq!(
        show(&m.step(&Event::ExtensionStatus(true))),
        vec![r#"print {"extension_connected":true,"port":7878,"running":true}"#, "finish"]
    );
}
