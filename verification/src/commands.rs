//! The `start`, `stop` and `status` commands as state machines. Each machine
//! asks for what it needs to know (a state file's text, whether a process or
//! a port answers, how long a wait has lasted) through actions, and decides
//! from the events that answer them. The process around it carries out the
//! actions: it reads files, probes processes and ports, signals, sleeps,
//! starts the relay in the background, prints and exits.

use vstd::prelude::*;
use vstd::string::StringExecFns;
use crate::client::status_document;
use crate::client::status_document_spec;
use crate::decimal::decimal_string;
use crate::decimal::format_u16;
use crate::decimal::parse_i32_spec;
use crate::decimal::parse_pid_text;
use crate::decimal::parse_port_text;
use crate::decimal::parse_u16_spec;
use crate::decimal::trimmed;

verus! {

/// How long `stop` waits for the relay's process to end.
pub const STOP_WAIT_MS: u64 = 5000;

/// How long `stop` waits, after that, for the relay's port to be free.
pub const PORT_WAIT_MS: u64 = 2000;

/// How long `start` waits for the relay to write its port file.
pub const START_WAIT_MS: u64 = 5000;

/// The pause between two probes while waiting.
pub const POLL_MS: u64 = 100;

/// What a machine learns from the process around it.
pub enum Event {
    /// The text of the process-id file, where it could be read.
    PidFile(Option<String>),
    /// The text of the port file, where it could be read, and the
    /// milliseconds since the clock was last started.
    PortFile { text: Option<String>, elapsed_ms: u64 },
    /// Whether the probed process answers, and the milliseconds since the clock was last started.
    ProcessAlive { alive: bool, elapsed_ms: u64 },
    /// Whether the probed port is free, and the milliseconds since the clock was last started.
    PortFree { free: bool, elapsed_ms: u64 },
    /// Whether the relay reports a connected extension.
    ExtensionStatus(bool),
}

pub enum EventView {
    PidFile(Option<Seq<char>>),
    PortFile { text: Option<Seq<char>>, elapsed_ms: u64 },
    ProcessAlive { alive: bool, elapsed_ms: u64 },
    PortFree { free: bool, elapsed_ms: u64 },
    ExtensionStatus(bool),
}

impl View for Event {
    type V = EventView;

    open spec fn view(&self) -> EventView {
        match self {
            Event::PidFile(t) => EventView::PidFile(crate::protocol::opt_view(*t)),
            Event::PortFile { text, elapsed_ms } => EventView::PortFile {
                text: crate::protocol::opt_view(*text),
                elapsed_ms: *elapsed_ms,
            },
            Event::ProcessAlive { alive, elapsed_ms } => EventView::ProcessAlive {
                alive: *alive,
                elapsed_ms: *elapsed_ms,
            },
            Event::PortFree { free, elapsed_ms } => EventView::PortFree {
                free: *free,
                elapsed_ms: *elapsed_ms,
            },
            Event::ExtensionStatus(b) => EventView::ExtensionStatus(*b),
        }
    }
}

/// What a machine asks the process around it to do, in order.
pub enum Action {
    /// Read the process-id file; answered by `PidFile`.
    ReadPidFile,
    /// Read the port file; answered by `PortFile`.
    ReadPortFile,
    /// Probe whether process `pid` is alive; answered by `ProcessAlive`.
    ProbeProcess(i32),
    /// Probe whether the port is free to bind; answered by `PortFree`.
    ProbePort(u16),
    /// Ask process `pid` to terminate.
    Terminate(i32),
    /// Start the clock that later events report on.
    StartClock,
    /// Sleep for the given milliseconds.
    Sleep(u64),
    /// Remove the process-id and port files.
    RemoveStateFiles,
    /// Start the relay on the port in the background; the foreground goes on
    /// with the next actions.
    Launch(u16),
    /// Ask the relay on the port whether the extension is connected;
    /// answered by `ExtensionStatus`.
    QueryExtension(u16),
    /// Print a line on standard output.
    Print(String),
    /// Print a line on standard error.
    PrintError(String),
    /// The command fails with this message.
    Fail(String),
    /// The process exits with this status.
    Exit(i32),
    /// The command is done.
    Finish,
}

pub enum ActionView {
    ReadPidFile,
    ReadPortFile,
    ProbeProcess(i32),
    ProbePort(u16),
    Terminate(i32),
    StartClock,
    Sleep(u64),
    RemoveStateFiles,
    Launch(u16),
    QueryExtension(u16),
    Print(Seq<char>),
    PrintError(Seq<char>),
    Fail(Seq<char>),
    Exit(i32),
    Finish,
}

impl View for Action {
    type V = ActionView;

    open spec fn view(&self) -> ActionView {
        match self {
            Action::ReadPidFile => ActionView::ReadPidFile,
            Action::ReadPortFile => ActionView::ReadPortFile,
            Action::ProbeProcess(p) => ActionView::ProbeProcess(*p),
            Action::ProbePort(p) => ActionView::ProbePort(*p),
            Action::Terminate(p) => ActionView::Terminate(*p),
            Action::StartClock => ActionView::StartClock,
            Action::Sleep(ms) => ActionView::Sleep(*ms),
            Action::RemoveStateFiles => ActionView::RemoveStateFiles,
            Action::Launch(p) => ActionView::Launch(*p),
            Action::QueryExtension(p) => ActionView::QueryExtension(*p),
            Action::Print(t) => ActionView::Print(t@),
            Action::PrintError(t) => ActionView::PrintError(t@),
            Action::Fail(t) => ActionView::Fail(t@),
            Action::Exit(c) => ActionView::Exit(*c),
            Action::Finish => ActionView::Finish,
        }
    }
}

pub open spec fn actions_view(a: Seq<Action>) -> Seq<ActionView> {
    a.map_values(|x: Action| x@)
}

/// The process id that a state file's text names, where it names one.
pub open spec fn pid_of(text: Option<Seq<char>>) -> Option<i32> {
    match text {
        Some(t) => parse_i32_spec(trimmed(t)),
        None => None,
    }
}

/// The port that a state file's text names, where it names one.
pub open spec fn port_of(text: Option<Seq<char>>) -> Option<u16> {
    match text {
        Some(t) => parse_u16_spec(trimmed(t)),
        None => None,
    }
}

fn pid_in(text: &Option<String>) -> (r: Option<i32>)
    ensures
        r == pid_of(crate::protocol::opt_view(*text)),
{
    match text {
        Some(t) => parse_pid_text(t.as_str()),
        None => None,
    }
}

fn port_in(text: &Option<String>) -> (r: Option<u16>)
    ensures
        r == port_of(crate::protocol::opt_view(*text)),
{
    match text {
        Some(t) => parse_port_text(t.as_str()),
        None => None,
    }
}

/// `prefix` followed by the port in base ten, and then `suffix`.
fn with_port(prefix: &str, port: u16, suffix: &str) -> (r: String)
    ensures
        r@ == prefix@ + decimal_string(port as nat) + suffix@,
{
    let mut out = String::from_str(prefix);
    out.append(format_u16(port).as_str());
    out.append(suffix);
    out
}

// ---------------------------------------------------------------- stop

/// Where `stop` stands.
#[derive(Clone, Copy)]
pub enum StopStage {
    /// Waiting for the process-id file.
    ReadingPid,
    /// Waiting to learn whether process `pid` is alive.
    CheckingProcess(i32),
    /// Waiting for the port file, before terminating `pid`.
    ReadingPort(i32),
    /// Waiting for `pid` to end; then for the port, if one was recorded.
    AwaitingExit(i32, Option<u16>),
    /// Waiting for the port to be free.
    AwaitingPort(u16),
    Done,
}

/// The end of `stop` once the relay is gone: the state files are removed.
pub open spec fn stop_finish() -> Seq<ActionView> {
    seq![ActionView::RemoveStateFiles, ActionView::Print("Server stopped."@), ActionView::Finish]
}

/// After the process ended (or the wait for it ran out): wait for the
/// recorded port to be free, if there is one, else finish.
pub open spec fn stop_after_exit(port: Option<u16>) -> (StopStage, Seq<ActionView>) {
    match port {
        Some(q) => (StopStage::AwaitingPort(q), seq![ActionView::StartClock, ActionView::ProbePort(q)]),
        None => (StopStage::Done, stop_finish()),
    }
}

/// One step of `stop`:
/// - no process id in the file: "Server not running.";
/// - a dead process: the stale state files are removed, "Server not running.";
/// - a live process: the port file is read, the process is asked to
///   terminate, and `stop` waits up to 5 s for it to end (with a warning when
///   it does not), then up to 2 s for the recorded port to be free, then
///   removes the state files: "Server stopped.".
pub open spec fn stop_step(stage: StopStage, e: EventView) -> (StopStage, Seq<ActionView>) {
    match (stage, e) {
        (StopStage::ReadingPid, EventView::PidFile(text)) => match pid_of(text) {
            Some(pid) => (StopStage::CheckingProcess(pid), seq![ActionView::ProbeProcess(pid)]),
            None => (
                StopStage::Done,
                seq![ActionView::Print("Server not running."@), ActionView::Finish],
            ),
        },
        (StopStage::CheckingProcess(pid), EventView::ProcessAlive { alive, .. }) => if alive {
            (StopStage::ReadingPort(pid), seq![ActionView::ReadPortFile])
        } else {
            (
                StopStage::Done,
                seq![
                    ActionView::RemoveStateFiles,
                    ActionView::Print("Server not running."@),
                    ActionView::Finish,
                ],
            )
        },
        (StopStage::ReadingPort(pid), EventView::PortFile { text, .. }) => (
            StopStage::AwaitingExit(pid, port_of(text)),
            seq![ActionView::Terminate(pid), ActionView::StartClock, ActionView::ProbeProcess(pid)],
        ),
        (StopStage::AwaitingExit(pid, port), EventView::ProcessAlive { alive, elapsed_ms }) => if !alive {
            stop_after_exit(port)
        } else if elapsed_ms >= STOP_WAIT_MS {
            (
                stop_after_exit(port).0,
                seq![ActionView::PrintError("Timeout waiting for server to stop"@)] + stop_after_exit(
                    port,
                ).1,
            )
        } else {
            (
                StopStage::AwaitingExit(pid, port),
                seq![ActionView::Sleep(POLL_MS), ActionView::ProbeProcess(pid)],
            )
        },
        (StopStage::AwaitingPort(q), EventView::PortFree { free, elapsed_ms }) => if free
            || elapsed_ms >= PORT_WAIT_MS {
            (StopStage::Done, stop_finish())
        } else {
            (StopStage::AwaitingPort(q), seq![ActionView::Sleep(POLL_MS), ActionView::ProbePort(q)])
        },
        _ => (stage, Seq::empty()),
    }
}

/// The `stop` command.
pub struct StopCommand {
    pub stage: StopStage,
}

fn stop_finish_actions() -> (r: Vec<Action>)
    ensures
        actions_view(r@) == stop_finish(),
{
    let mut out: Vec<Action> = Vec::new();
    out.push(Action::RemoveStateFiles);
    out.push(Action::Print(String::from_str("Server stopped.")));
    out.push(Action::Finish);
    assert(actions_view(out@) =~= stop_finish());
    out
}

fn stop_after_exit_exec(port: Option<u16>, out: &mut Vec<Action>) -> (r: StopStage)
    ensures
        r == stop_after_exit(port).0,
        actions_view(final(out)@) == actions_view(old(out)@) + stop_after_exit(port).1,
{
    match port {
        Some(q) => {
            out.push(Action::StartClock);
            out.push(Action::ProbePort(q));
            assert(actions_view(out@) =~= actions_view(old(out)@) + stop_after_exit(port).1);
            StopStage::AwaitingPort(q)
        },
        None => {
            let mut tail = stop_finish_actions();
            out.append(&mut tail);
            assert(actions_view(out@) =~= actions_view(old(out)@) + stop_after_exit(port).1);
            StopStage::Done
        },
    }
}

impl StopCommand {
    /// `stop` starts by reading the process-id file.
    pub fn new() -> (r: (StopCommand, Vec<Action>))
        ensures
            r.0.stage == StopStage::ReadingPid,
            actions_view(r.1@) == seq![ActionView::ReadPidFile],
    {
        let mut out: Vec<Action> = Vec::new();
        out.push(Action::ReadPidFile);
        assert(actions_view(out@) =~= seq![ActionView::ReadPidFile]);
        (StopCommand { stage: StopStage::ReadingPid }, out)
    }

    /// One step of `stop`; see `stop_step`.
    pub fn step(&mut self, e: &Event) -> (r: Vec<Action>)
        ensures
            (final(self).stage, actions_view(r@)) == stop_step(old(self).stage, e@),
    {
        let mut out: Vec<Action> = Vec::new();
        match (self.stage, e) {
            (StopStage::ReadingPid, Event::PidFile(text)) => match pid_in(text) {
                Some(pid) => {
                    out.push(Action::ProbeProcess(pid));
                    self.stage = StopStage::CheckingProcess(pid);
                },
                None => {
                    out.push(Action::Print(String::from_str("Server not running.")));
                    out.push(Action::Finish);
                    self.stage = StopStage::Done;
                },
            },
            (StopStage::CheckingProcess(pid), Event::ProcessAlive { alive, .. }) => {
                if *alive {
                    out.push(Action::ReadPortFile);
                    self.stage = StopStage::ReadingPort(pid);
                } else {
                    out.push(Action::RemoveStateFiles);
                    out.push(Action::Print(String::from_str("Server not running.")));
                    out.push(Action::Finish);
                    self.stage = StopStage::Done;
                }
            },
            (StopStage::ReadingPort(pid), Event::PortFile { text, .. }) => {
                let port = port_in(text);
                out.push(Action::Terminate(pid));
                out.push(Action::StartClock);
                out.push(Action::ProbeProcess(pid));
                self.stage = StopStage::AwaitingExit(pid, port);
            },
            (StopStage::AwaitingExit(pid, port), Event::ProcessAlive { alive, elapsed_ms }) => {
                if !*alive {
                    self.stage = stop_after_exit_exec(port, &mut out);
                } else if *elapsed_ms >= STOP_WAIT_MS {
                    out.push(
                        Action::PrintError(String::from_str("Timeout waiting for server to stop")),
                    );
                    self.stage = stop_after_exit_exec(port, &mut out);
                } else {
                    out.push(Action::Sleep(POLL_MS));
                    out.push(Action::ProbeProcess(pid));
                }
            },
            (StopStage::AwaitingPort(q), Event::PortFree { free, elapsed_ms }) => {
                if *free || *elapsed_ms >= PORT_WAIT_MS {
                    out = stop_finish_actions();
                    self.stage = StopStage::Done;
                } else {
                    out.push(Action::Sleep(POLL_MS));
                    out.push(Action::ProbePort(q));
                }
            },
            _ => {},
        }
        proof {
            let want = stop_step(old(self).stage, e@).1;
            assert(actions_view(out@) =~= want);
        }
        out
    }
}

// ---------------------------------------------------------------- start

/// Where `start` stands.
#[derive(Clone, Copy)]
pub enum StartStage {
    /// Waiting for the process-id file.
    ReadingPid,
    /// Waiting to learn whether the recorded process `pid` is alive.
    CheckingProcess(i32),
    /// The relay runs; waiting for the port file to report its port.
    ReportingRunning,
    /// Waiting to learn whether the port is free.
    CheckingPort,
    /// The relay was started in the background; waiting for its port file.
    AwaitingStart,
    Done,
}

/// One step of `start` on `port`:
/// - a live recorded process: "Server already running on port N", with the
///   recorded port, or `port` where none is recorded;
/// - otherwise, a port that is not free fails the command;
/// - otherwise the relay is started in the background, and `start` waits up
///   to 5 s for its port file: "Server started on port N" and status 0, or a
///   timeout message and status 1.
pub open spec fn start_step(port: u16, stage: StartStage, e: EventView) -> (StartStage, Seq<ActionView>) {
    match (stage, e) {
        (StartStage::ReadingPid, EventView::PidFile(text)) => match pid_of(text) {
            Some(pid) => (StartStage::CheckingProcess(pid), seq![ActionView::ProbeProcess(pid)]),
            None => (StartStage::CheckingPort, seq![ActionView::ProbePort(port)]),
        },
        (StartStage::CheckingProcess(_), EventView::ProcessAlive { alive, .. }) => if alive {
            (StartStage::ReportingRunning, seq![ActionView::ReadPortFile])
        } else {
            (StartStage::CheckingPort, seq![ActionView::ProbePort(port)])
        },
        (StartStage::ReportingRunning, EventView::PortFile { text, .. }) => {
            let q = match port_of(text) {
                Some(q) => q,
                None => port,
            };
            (
                StartStage::Done,
                seq![
                    ActionView::Print("Server already running on port "@ + decimal_string(q as nat)),
                    ActionView::Finish,
                ],
            )
        },
        (StartStage::CheckingPort, EventView::PortFree { free, .. }) => if free {
            (
                StartStage::AwaitingStart,
                seq![ActionView::Launch(port), ActionView::StartClock, ActionView::ReadPortFile],
            )
        } else {
            (
                StartStage::Done,
                seq![
                    ActionView::Fail(
                        "Port "@ + decimal_string(port as nat) + " is not available"@,
                    ),
                ],
            )
        },
        (StartStage::AwaitingStart, EventView::PortFile { text, elapsed_ms }) => match port_of(text) {
            Some(q) => (
                StartStage::Done,
                seq![
                    ActionView::Print("Server started on port "@ + decimal_string(q as nat)),
                    ActionView::Exit(0),
                ],
            ),
            None => if elapsed_ms >= START_WAIT_MS {
                (
                    StartStage::Done,
                    seq![
                        ActionView::PrintError("Timeout waiting for server to start"@),
                        ActionView::Exit(1),
                    ],
                )
            } else {
                (StartStage::AwaitingStart, seq![ActionView::Sleep(POLL_MS), ActionView::ReadPortFile])
            },
        },
        _ => (stage, Seq::empty()),
    }
}

/// The `start` command on a port.
pub struct StartCommand {
    pub port: u16,
    pub stage: StartStage,
}

impl StartCommand {
    /// `start` on `port` begins by reading the process-id file.
    pub fn new(port: u16) -> (r: (StartCommand, Vec<Action>))
        ensures
            r.0.port == port,
            r.0.stage == StartStage::ReadingPid,
            actions_view(r.1@) == seq![ActionView::ReadPidFile],
    {
        let mut out: Vec<Action> = Vec::new();
        out.push(Action::ReadPidFile);
        assert(actions_view(out@) =~= seq![ActionView::ReadPidFile]);
        (StartCommand { port, stage: StartStage::ReadingPid }, out)
    }

    /// One step of `start`; see `start_step`.
    pub fn step(&mut self, e: &Event) -> (r: Vec<Action>)
        ensures
            final(self).port == old(self).port,
            (final(self).stage, actions_view(r@)) == start_step(old(self).port, old(self).stage, e@),
    {
        let mut out: Vec<Action> = Vec::new();
        let port = self.port;
        match (self.stage, e) {
            (StartStage::ReadingPid, Event::PidFile(text)) => match pid_in(text) {
                Some(pid) => {
                    out.push(Action::ProbeProcess(pid));
                    self.stage = StartStage::CheckingProcess(pid);
                },
                None => {
                    out.push(Action::ProbePort(port));
                    self.stage = StartStage::CheckingPort;
                },
            },
            (StartStage::CheckingProcess(_), Event::ProcessAlive { alive, .. }) => {
                if *alive {
                    out.push(Action::ReadPortFile);
                    self.stage = StartStage::ReportingRunning;
                } else {
                    out.push(Action::ProbePort(port));
                    self.stage = StartStage::CheckingPort;
                }
            },
            (StartStage::ReportingRunning, Event::PortFile { text, .. }) => {
                let q = match port_in(text) {
                    Some(q) => q,
                    None => port,
                };
                out.push(Action::Print(with_port("Server already running on port ", q, "")));
                out.push(Action::Finish);
                self.stage = StartStage::Done;
                assert(("Server already running on port "@ + decimal_string(q as nat) + ""@)
                    =~= "Server already running on port "@ + decimal_string(q as nat)) by {
                    reveal_strlit("");
                }
            },
            (StartStage::CheckingPort, Event::PortFree { free, .. }) => {
                if *free {
                    out.push(Action::Launch(port));
                    out.push(Action::StartClock);
                    out.push(Action::ReadPortFile);
                    self.stage = StartStage::AwaitingStart;
                } else {
                    out.push(Action::Fail(with_port("Port ", port, " is not available")));
                    self.stage = StartStage::Done;
                }
            },
            (StartStage::AwaitingStart, Event::PortFile { text, elapsed_ms }) => {
                match port_in(text) {
                    Some(q) => {
                        out.push(Action::Print(with_port("Server started on port ", q, "")));
                        out.push(Action::Exit(0));
                        self.stage = StartStage::Done;
                        assert(("Server started on port "@ + decimal_string(q as nat) + ""@)
                            =~= "Server started on port "@ + decimal_string(q as nat)) by {
                            reveal_strlit("");
                        }
                    },
                    None => {
                        if *elapsed_ms >= START_WAIT_MS {
                            out.push(
                                Action::PrintError(
                                    String::from_str("Timeout waiting for server to start"),
                                ),
                            );
                            out.push(Action::Exit(1));
                            self.stage = StartStage::Done;
                        } else {
                            out.push(Action::Sleep(POLL_MS));
                            out.push(Action::ReadPortFile);
                        }
                    },
                }
            },
            _ => {},
        }
        proof {
            let want = start_step(old(self).port, old(self).stage, e@).1;
            assert(actions_view(out@) =~= want);
        }
        out
    }
}

// ---------------------------------------------------------------- status

/// Where `status` stands.
#[derive(Clone, Copy)]
pub enum StatusStage {
    /// Waiting for the process-id file.
    ReadingPid,
    /// Waiting to learn whether the recorded process `pid` is alive.
    CheckingProcess(i32),
    /// Waiting for the port file; whether the relay runs.
    ReadingPort(bool),
    /// Waiting for the relay on this port to report its extension.
    Querying(u16),
    Done,
}

/// One step of `status` with `port` as the fallback port: the relay runs
/// when the process-id file names a live process; its port is the recorded
/// one, or `port`; a running relay is asked about its extension; the status
/// document is printed.
pub open spec fn status_step(port: u16, stage: StatusStage, e: EventView) -> (
    StatusStage,
    Seq<ActionView>,
) {
    match (stage, e) {
        (StatusStage::ReadingPid, EventView::PidFile(text)) => match pid_of(text) {
            Some(pid) => (StatusStage::CheckingProcess(pid), seq![ActionView::ProbeProcess(pid)]),
            None => (StatusStage::ReadingPort(false), seq![ActionView::ReadPortFile]),
        },
        (StatusStage::CheckingProcess(_), EventView::ProcessAlive { alive, .. }) => (
            StatusStage::ReadingPort(alive),
            seq![ActionView::ReadPortFile],
        ),
        (StatusStage::ReadingPort(running), EventView::PortFile { text, .. }) => {
            let actual = match port_of(text) {
                Some(q) => q,
                None => port,
            };
            if running {
                (StatusStage::Querying(actual), seq![ActionView::QueryExtension(actual)])
            } else {
                (
                    StatusStage::Done,
                    seq![
                        ActionView::Print(status_document_spec(false, 0, false)),
                        ActionView::Finish,
                    ],
                )
            }
        },
        (StatusStage::Querying(actual), EventView::ExtensionStatus(connected)) => (
            StatusStage::Done,
            seq![ActionView::Print(status_document_spec(true, actual, connected)), ActionView::Finish],
        ),
        _ => (stage, Seq::empty()),
    }
}

/// The `status` command.
pub struct StatusCommand {
    pub port: u16,
    pub stage: StatusStage,
}

impl StatusCommand {
    /// `status` with fallback port `port` begins by reading the process-id file.
    pub fn new(port: u16) -> (r: (StatusCommand, Vec<Action>))
        ensures
            r.0.port == port,
            r.0.stage == StatusStage::ReadingPid,
            actions_view(r.1@) == seq![ActionView::ReadPidFile],
    {
        let mut out: Vec<Action> = Vec::new();
        out.push(Action::ReadPidFile);
        assert(actions_view(out@) =~= seq![ActionView::ReadPidFile]);
        (StatusCommand { port, stage: StatusStage::ReadingPid }, out)
    }

    /// One step of `status`; see `status_step`.
    pub fn step(&mut self, e: &Event) -> (r: Vec<Action>)
        ensures
            final(self).port == old(self).port,
            (final(self).stage, actions_view(r@)) == status_step(old(self).port, old(self).stage, e@),
    {
        let mut out: Vec<Action> = Vec::new();
        let port = self.port;
        match (self.stage, e) {
            (StatusStage::ReadingPid, Event::PidFile(text)) => match pid_in(text) {
                Some(pid) => {
                    out.push(Action::ProbeProcess(pid));
                    self.stage = StatusStage::CheckingProcess(pid);
                },
                None => {
                    out.push(Action::ReadPortFile);
                    self.stage = StatusStage::ReadingPort(false);
                },
            },
            (StatusStage::CheckingProcess(_), Event::ProcessAlive { alive, .. }) => {
                out.push(Action::ReadPortFile);
                self.stage = StatusStage::ReadingPort(*alive);
            },
            (StatusStage::ReadingPort(running), Event::PortFile { text, .. }) => {
                let actual = match port_in(text) {
                    Some(q) => q,
                    None => port,
                };
                if running {
                    out.push(Action::QueryExtension(actual));
                    self.stage = StatusStage::Querying(actual);
                } else {
                    out.push(Action::Print(status_document(false, 0, false)));
                    out.push(Action::Finish);
                    self.stage = StatusStage::Done;
                }
            },
            (StatusStage::Querying(actual), Event::ExtensionStatus(connected)) => {
                out.push(Action::Print(status_document(true, actual, *connected)));
                out.push(Action::Finish);
                self.stage = StatusStage::Done;
            },
            _ => {},
        }
        proof {
            let want = status_step(old(self).port, old(self).stage, e@).1;
            assert(actions_view(out@) =~= want);
        }
        out
    }
}

// ---------------------------------------------------------------- laws

/// `stop` signals only the process that the process-id file names, and only
/// after seeing it alive: a step that terminates `pid` comes from reading the
/// port file for `pid`, and that stage is reached only when `pid` answered.
pub proof fn lemma_stop_signals_only_live_process(stage: StopStage, e: EventView, pid: i32)
    ensures
        stop_step(stage, e).1.contains(ActionView::Terminate(pid)) ==> stage == StopStage::ReadingPort(
            pid,
        ),
        stop_step(stage, e).0 == StopStage::ReadingPort(pid) ==> (stage == StopStage::ReadingPort(pid)
            || (stage == StopStage::CheckingProcess(pid) && e matches EventView::ProcessAlive {
            alive: true,
            ..
        })),
{
    let acts = stop_step(stage, e).1;
    if acts.contains(ActionView::Terminate(pid)) {
        let k = choose|k: int| 0 <= k < acts.len() && acts[k] == ActionView::Terminate(pid);
        match (stage, e) {
            (StopStage::AwaitingExit(p, port), EventView::ProcessAlive { alive, elapsed_ms }) => {
                if alive && elapsed_ms >= STOP_WAIT_MS {
                    assert(acts[k] == (seq![
                        ActionView::PrintError("Timeout waiting for server to stop"@),
                    ] + stop_after_exit(port).1)[k]);
                }
            },
            _ => {},
        }
    }
}

/// Once `stop` has read a process id, it always ends by removing the state
/// files: every step from a later stage that finishes removes them.
pub proof fn lemma_stop_removes_state_files(stage: StopStage, e: EventView)
    requires
        !(stage is ReadingPid),
        !(stage is Done),
        stop_step(stage, e).0 is Done,
    ensures
        stop_step(stage, e).1.contains(ActionView::RemoveStateFiles),
{
    let acts = stop_step(stage, e).1;
    match (stage, e) {
        (StopStage::CheckingProcess(_), EventView::ProcessAlive { .. }) => {
            assert(acts[0] == ActionView::RemoveStateFiles);
        },
        (StopStage::AwaitingExit(_, port), EventView::ProcessAlive { alive, .. }) => {
            if !alive {
                assert(acts[0] == ActionView::RemoveStateFiles);
            } else {
                assert(acts[1] == ActionView::RemoveStateFiles);
            }
        },
        (StopStage::AwaitingPort(_), EventView::PortFree { .. }) => {
            assert(acts[0] == ActionView::RemoveStateFiles);
        },
        _ => {},
    }
}

/// `stop` does not wait past its deadlines: 5 s for the process to end,
/// then 2 s for the port to be free.
pub proof fn lemma_stop_waits_end(pid: i32, port: Option<u16>, q: u16, alive: bool, free: bool, elapsed_ms: u64)
    ensures
        elapsed_ms >= STOP_WAIT_MS ==> !(stop_step(
            StopStage::AwaitingExit(pid, port),
            EventView::ProcessAlive { alive, elapsed_ms },
        ).0 is AwaitingExit),
        elapsed_ms >= PORT_WAIT_MS ==> stop_step(
            StopStage::AwaitingPort(q),
            EventView::PortFree { free, elapsed_ms },
        ).0 is Done,
{
}

/// `start` comes to check the port only when the process-id file names no
/// process, or names one that does not answer.
pub open spec fn came_to_check_port(stage: StartStage, e: EventView) -> bool {
    match (stage, e) {
        (StartStage::ReadingPid, EventView::PidFile(text)) => pid_of(text) is None,
        (StartStage::CheckingProcess(_), EventView::ProcessAlive { alive, .. }) => !alive,
        _ => false,
    }
}

/// `start` starts the relay only on its own port, only when no recorded
/// process is alive, and only when the port is free.
pub proof fn lemma_start_launches_only_when_free(port: u16, stage: StartStage, e: EventView, q: u16)
    ensures
        start_step(port, stage, e).1.contains(ActionView::Launch(q)) ==> q == port && stage
            == StartStage::CheckingPort && e matches EventView::PortFree { free: true, .. },
        (start_step(port, stage, e).0 == StartStage::CheckingPort && stage != StartStage::CheckingPort)
            ==> came_to_check_port(stage, e),
{
    let acts = start_step(port, stage, e).1;
    if acts.contains(ActionView::Launch(q)) {
        let k = choose|k: int| 0 <= k < acts.len() && acts[k] == ActionView::Launch(q);
        assert(acts[k] == ActionView::Launch(q));
    }
}

/// `start` does not wait past its deadline of 5 s for the relay's port file.
pub proof fn lemma_start_wait_ends(port: u16, text: Option<Seq<char>>, elapsed_ms: u64)
    requires
        elapsed_ms >= START_WAIT_MS,
    ensures
        start_step(port, StartStage::AwaitingStart, EventView::PortFile { text, elapsed_ms }).0 is Done,
{
}

/// Whenever the process-id file names a process id (as `str::parse::<i32>`
/// reads its trimmed text), `stop`, `start` and `status` all probe that very
/// process next.
pub proof fn lemma_pid_file_names_the_probed_process(t: Seq<char>, pid: i32, port: u16)
    requires
        parse_i32_spec(trimmed(t)) == Some(pid),
    ensures
        stop_step(StopStage::ReadingPid, EventView::PidFile(Some(t))) == (
            StopStage::CheckingProcess(pid),
            seq![ActionView::ProbeProcess(pid)],
        ),
        start_step(port, StartStage::ReadingPid, EventView::PidFile(Some(t))) == (
            StartStage::CheckingProcess(pid),
            seq![ActionView::ProbeProcess(pid)],
        ),
        status_step(port, StatusStage::ReadingPid, EventView::PidFile(Some(t))) == (
            StatusStage::CheckingProcess(pid),
            seq![ActionView::ProbeProcess(pid)],
        ),
{
}

/// Every process id the relay can write to its file (any `i32`, written in
/// base ten) is the one that `stop` then probes.
pub proof fn lemma_stop_probes_the_written_pid(pid: i32)
    ensures
        stop_step(
            StopStage::ReadingPid,
            EventView::PidFile(Some(crate::decimal::signed_decimal_string(pid as int))),
        ) == (StopStage::CheckingProcess(pid), seq![ActionView::ProbeProcess(pid)]),
{
    crate::decimal::lemma_pid_text_round_trip(pid);
}

/// Without a process id in the file, `stop` reports that no server runs and
/// probes nothing.
pub proof fn lemma_stop_without_pid(text: Option<Seq<char>>)
    requires
        text is None || parse_i32_spec(trimmed(text->0)) is None,
    ensures
        stop_step(StopStage::ReadingPid, EventView::PidFile(text)) == (
            StopStage::Done,
            seq![ActionView::Print("Server not running."@), ActionView::Finish],
        ),
{
}

/// `status` asks and reports the relay's own port: the one in the port file
/// where it names one, else the port it was given. A relay that does not run
/// is reported with port 0, without a query.
pub proof fn lemma_status_uses_recorded_port(
    port: u16,
    t: Seq<char>,
    q: u16,
    elapsed_ms: u64,
    connected: bool,
)
    ensures
        parse_u16_spec(trimmed(t)) == Some(q) ==> status_step(
            port,
            StatusStage::ReadingPort(true),
            EventView::PortFile { text: Some(t), elapsed_ms },
        ) == (StatusStage::Querying(q), seq![ActionView::QueryExtension(q)]),
        status_step(port, StatusStage::ReadingPort(true), EventView::PortFile { text: None, elapsed_ms })
            == (StatusStage::Querying(port), seq![ActionView::QueryExtension(port)]),
        status_step(port, StatusStage::Querying(q), EventView::ExtensionStatus(connected)).1
            == seq![ActionView::Print(status_document_spec(true, q, connected)), ActionView::Finish],
        status_step(port, StatusStage::ReadingPort(false), EventView::PortFile { text: Some(t), elapsed_ms }).1
            == seq![ActionView::Print(status_document_spec(false, 0, false)), ActionView::Finish],
{
}

/// The port the relay wrote to its file is the one `status` queries.
pub proof fn lemma_status_queries_the_written_port(port: u16, q: u16, elapsed_ms: u64)
    ensures
        status_step(
            port,
            StatusStage::ReadingPort(true),
            EventView::PortFile { text: Some(decimal_string(q as nat)), elapsed_ms },
        ) == (StatusStage::Querying(q), seq![ActionView::QueryExtension(q)]),
{
    crate::decimal::lemma_port_text_round_trip(q);
}

/// `start` on a running relay reports the relay's recorded port, and starts
/// a new relay, when it does, on the port it was given.
pub proof fn lemma_start_reports_recorded_port(port: u16, t: Seq<char>, q: u16, elapsed_ms: u64)
    ensures
        parse_u16_spec(trimmed(t)) == Some(q) ==> start_step(
            port,
            StartStage::ReportingRunning,
            EventView::PortFile { text: Some(t), elapsed_ms },
        ).1 == seq![
            ActionView::Print("Server already running on port "@ + decimal_string(q as nat)),
            ActionView::Finish,
        ],
        start_step(port, StartStage::CheckingPort, EventView::PortFree { free: true, elapsed_ms }).1
            == seq![ActionView::Launch(port), ActionView::StartClock, ActionView::ReadPortFile],
{
}

/// `status` counts the relay as running exactly when the recorded process
/// answers, and then reads the port file either way.
pub proof fn lemma_status_running_flag(port: u16, pid: i32, alive: bool, elapsed_ms: u64, text: Option<Seq<char>>)
    ensures
        status_step(port, StatusStage::CheckingProcess(pid), EventView::ProcessAlive { alive, elapsed_ms })
            == (StatusStage::ReadingPort(alive), seq![ActionView::ReadPortFile]),
        (text is None || parse_i32_spec(trimmed(text->0)) is None) ==> status_step(
            port,
            StatusStage::ReadingPid,
            EventView::PidFile(text),
        ) == (StatusStage::ReadingPort(false), seq![ActionView::ReadPortFile]),
{
}

/// `stop` terminates the live process it probed, and then waits for the
/// port named in the port file (if any) to be free.
pub proof fn lemma_stop_terminates_and_waits_for_recorded_port(
    pid: i32,
    t: Seq<char>,
    q: u16,
    elapsed_ms: u64,
    later_ms: u64,
)
    requires
        parse_u16_spec(trimmed(t)) == Some(q),
    ensures
        stop_step(StopStage::CheckingProcess(pid), EventView::ProcessAlive { alive: true, elapsed_ms })
            == (StopStage::ReadingPort(pid), seq![ActionView::ReadPortFile]),
        stop_step(StopStage::ReadingPort(pid), EventView::PortFile { text: Some(t), elapsed_ms }) == (
            StopStage::AwaitingExit(pid, Some(q)),
            seq![ActionView::Terminate(pid), ActionView::StartClock, ActionView::ProbeProcess(pid)],
        ),
        stop_step(
            StopStage::AwaitingExit(pid, Some(q)),
            EventView::ProcessAlive { alive: false, elapsed_ms: later_ms },
        ) == (StopStage::AwaitingPort(q), seq![ActionView::StartClock, ActionView::ProbePort(q)]),
{
}

} // verus!
