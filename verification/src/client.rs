//! The command-line client's decisions: which port to use, where the state
//! files live, how a question is sent and its reply recognised, what a
//! status query reports, and how each outcome ends the process.

use vstd::prelude::*;
use vstd::string::StrSliceExecFns;
use vstd::string::StringExecFns;
use crate::decimal::decimal_string;
use crate::decimal::format_u16;
use crate::decimal::parse_u16;
use crate::decimal::parse_u16_spec;
use crate::protocol::Incoming;
use crate::protocol::IncomingView;
use crate::protocol::OutgoingView;
use crate::protocol::Outgoing;
use crate::protocol::same_text;
use crate::server::RequestResult;
use crate::server::text_or;

verus! {

/// The port used when neither the command line, the environment nor the
/// configuration names one.
pub const DEFAULT_PORT: u16 = 7878;

/// The seconds a question may wait for its answer when the configuration names none.
pub const DEFAULT_TIMEOUT_SECS: u64 = 60;

/// The optional configuration file's settings.
pub struct Config {
    pub port: Option<u16>,
    pub timeout_secs: Option<u64>,
}

impl Default for Config {
    /// No setting.
    fn default() -> (c: Config)
        ensures
            c.port is None,
            c.timeout_secs is None,
    {
        Config { port: None, timeout_secs: None }
    }
}

impl Config {
    /// The seconds a question may wait: the configured ones, or 60.
    pub fn timeout_secs_or_default(&self) -> (r: u64)
        ensures
            r == match self.timeout_secs {
                Some(t) => t,
                None => DEFAULT_TIMEOUT_SECS,
            },
    {
        match self.timeout_secs {
            Some(t) => t,
            None => DEFAULT_TIMEOUT_SECS,
        }
    }
}

/// The port in force: the command line's, else the environment variable's
/// where it reads as a port, else the configuration's, else 7878.
pub open spec fn resolved_port(
    cli_port: Option<u16>,
    env_value: Option<Seq<char>>,
    config_port: Option<u16>,
) -> u16 {
    match cli_port {
        Some(p) => p,
        None => match env_value {
            Some(v) if parse_u16_spec(v) is Some => parse_u16_spec(v)->0,
            _ => match config_port {
                Some(p) => p,
                None => DEFAULT_PORT,
            },
        },
    }
}

/// Picks the port from the command line, the environment variable
/// `SECOND_OPINION_PORT` (its value, where it is set) and the configuration.
pub fn resolve_port(cli_port: Option<u16>, env_value: Option<&str>, config: &Config) -> (r: u16)
    ensures
        r == resolved_port(
            cli_port,
            match env_value {
                Some(v) => Some(v@),
                None => None,
            },
            config.port,
        ),
{
    if let Some(p) = cli_port {
        return p;
    }
    if let Some(v) = env_value {
        if let Some(p) = parse_u16(v) {
            return p;
        }
    }
    if let Some(p) = config.port {
        return p;
    }
    DEFAULT_PORT
}

/// The bytes of a text written in ASCII, one per character.
pub open spec fn ascii_bytes(s: Seq<char>) -> Seq<u8> {
    Seq::new(s.len(), |i: int| s[i] as u8)
}

/// The path `name` inside the directory `base`, as `Path::join` forms it on
/// Unix for a relative `name`: a `/` is put between them unless `base` is
/// empty or already ends with one. Paths are the bytes the operating system
/// stores, so a home directory that is not UTF-8 is kept as it is.
pub open spec fn path_join(base: Seq<u8>, name: Seq<u8>) -> Seq<u8> {
    if base.len() == 0 {
        name
    } else if base.last() == 47u8 {
        base + name
    } else {
        base + seq![47u8] + name
    }
}

/// Appends the bytes of the ASCII text `name` to `out`.
fn push_ascii(out: &mut Vec<u8>, name: &str)
    ensures
        final(out)@ == old(out)@ + ascii_bytes(name@),
{
    let n = name.unicode_len();
    let mut i: usize = 0;
    while i < n
        invariant
            i <= n,
            n == name@.len(),
            out@ == old(out)@ + ascii_bytes(name@).take(i as int),
        decreases n - i,
    {
        let c = name.get_char(i);
        out.push(c as u8);
        assert(ascii_bytes(name@).take(i + 1) =~= ascii_bytes(name@).take(i as int).push(c as u8));
        i = i + 1;
    }
    assert(ascii_bytes(name@).take(n as int) =~= ascii_bytes(name@));
}

fn join_path(base: &[u8], name: &str) -> (r: Vec<u8>)
    ensures
        r@ == path_join(base@, ascii_bytes(name@)),
{
    let n = base.len();
    let mut out: Vec<u8> = Vec::new();
    let mut i: usize = 0;
    while i < n
        invariant
            i <= n,
            n == base@.len(),
            out@ == base@.take(i as int),
        decreases n - i,
    {
        out.push(base[i]);
        assert(base@.take(i + 1) =~= base@.take(i as int).push(base@[i as int]));
        i = i + 1;
    }
    assert(base@.take(n as int) =~= base@);
    if n > 0 && base[n - 1] != 47u8 {
        out.push(47u8);
    }
    let ghost before = out@;
    push_ascii(&mut out, name);
    proof {
        if n == 0 {
            assert(before =~= Seq::<u8>::empty());
            assert(out@ =~= ascii_bytes(name@));
        }
    }
    out
}

/// dirs' `home_dir`, as the bytes of the path (on Unix, what the operating
/// system stores): the user's home directory. On Unix it is `$HOME` when set
/// and not empty, else the password database's entry; `None` where neither
/// gives a non-empty path.
#[verifier::external_body]
fn home_directory() -> (r: Option<Vec<u8>>)
    ensures
        r matches Some(h) ==> h@.len() > 0,
{
    match dirs::home_dir() {
        Some(p) => Some(p.into_os_string().into_encoded_bytes()),
        None => None,
    }
}

/// The directory that holds the state files, inside the home directory `home`.
pub fn state_dir_under(home: &[u8]) -> (r: Vec<u8>)
    ensures
        r@ == path_join(home@, ascii_bytes(".second-opinion"@)),
{
    join_path(home, ".second-opinion")
}

/// The directory that holds the state files: `.second-opinion` in the home
/// directory, or `None` where no home directory can be found.
pub fn state_dir() -> (r: Option<Vec<u8>>)
    ensures
        r matches Some(d) ==> exists|home: Seq<u8>|
            home.len() > 0 && d@ == path_join(home, ascii_bytes(".second-opinion"@)),
{
    match home_directory() {
        Some(home) => Some(state_dir_under(home.as_slice())),
        None => None,
    }
}

/// The file, in the state directory `dir`, that holds the relay's process id.
pub fn pid_file_in(dir: &[u8]) -> (r: Vec<u8>)
    ensures
        r@ == path_join(dir@, ascii_bytes("server.pid"@)),
{
    join_path(dir, "server.pid")
}

/// The file, in the state directory `dir`, that holds the relay's port.
pub fn port_file_in(dir: &[u8]) -> (r: Vec<u8>)
    ensures
        r@ == path_join(dir@, ascii_bytes("server.port"@)),
{
    join_path(dir, "server.port")
}

/// The file that holds the relay's process id, where a home directory is found.
pub fn pid_file() -> (r: Option<Vec<u8>>)
    ensures
        r matches Some(f) ==> exists|home: Seq<u8>|
            home.len() > 0 && f@ == path_join(
                path_join(home, ascii_bytes(".second-opinion"@)),
                ascii_bytes("server.pid"@),
            ),
{
    match state_dir() {
        Some(d) => Some(pid_file_in(d.as_slice())),
        None => None,
    }
}

/// The file that holds the relay's port, where a home directory is found.
pub fn port_file() -> (r: Option<Vec<u8>>)
    ensures
        r matches Some(f) ==> exists|home: Seq<u8>|
            home.len() > 0 && f@ == path_join(
                path_join(home, ascii_bytes(".second-opinion"@)),
                ascii_bytes("server.port"@),
            ),
{
    match state_dir() {
        Some(d) => Some(port_file_in(d.as_slice())),
        None => None,
    }
}

/// Whether the relay runs: a process id was read from its state file and a
/// process with that id answers.
pub fn is_server_running(pid: Option<i32>, process_alive: bool) -> (r: bool)
    ensures
        r == (pid is Some && process_alive),
{
    match pid {
        Some(_) => process_alive,
        None => false,
    }
}

/// The port the relay recorded in its port file (given as text, where it
/// could be read), or `port` where none is recorded.
pub fn recorded_port_or(port_file_text: Option<&str>, port: u16) -> (r: u16)
    ensures
        r == match port_file_text {
            Some(t) => match parse_u16_spec(crate::decimal::trimmed(t@)) {
                Some(q) => q,
                None => port,
            },
            None => port,
        },
{
    match port_file_text {
        Some(t) => match crate::decimal::parse_port_text(t) {
            Some(q) => q,
            None => port,
        },
        None => port,
    }
}

/// A lowercase hexadecimal digit.
pub open spec fn is_lower_hex(c: char) -> bool {
    ('0' as int <= c as int && c as int <= '9' as int) || ('a' as int <= c as int && c as int
        <= 'f' as int)
}

/// The hyphenated text of a random (version 4) UUID: 36 characters, hyphens
/// at 8, 13, 18 and 23, lowercase hexadecimal digits elsewhere, the version
/// digit `4` at 14.
pub open spec fn is_uuid_v4_text(s: Seq<char>) -> bool {
    &&& s.len() == 36
    &&& forall|i: int|
        0 <= i < 36 ==> if i == 8 || i == 13 || i == 18 || i == 23 {
            s[i] == '-'
        } else {
            is_lower_hex(#[trigger] s[i])
        }
    &&& s[14] == '4'
}

/// uuid's `Uuid::new_v4`, written with `to_string`: a fresh random question
/// id. Which one comes is chance; its shape is fixed.
#[verifier::external_body]
fn random_request_id() -> (r: String)
    ensures
        is_uuid_v4_text(r@),
{
    uuid::Uuid::new_v4().to_string()
}

/// A fresh id for a question.
pub fn new_request_id() -> (r: String)
    ensures
        is_uuid_v4_text(r@),
{
    random_request_id()
}

/// The question `message`, under the id `id`, as the client sends it to the relay.
pub fn ask_message(id: &str, message: &str) -> (r: Outgoing)
    ensures
        r@ == (OutgoingView::Ask { id: id@, message: message@ }),
{
    Outgoing::Ask { id: String::from_str(id), message: String::from_str(message) }
}

/// How the message `m` ends the wait for the answer to question `id`:
/// messages under another id (a missing id counts as the empty one), and
/// messages of other kinds, do not end it; a response ends it with its text
/// (or the empty text), an error with its error (or `"unknown"`).
pub open spec fn ask_reply_spec(m: IncomingView, id: Seq<char>) -> Option<(bool, Seq<char>)> {
    if text_or(m.id, ""@) != id {
        None
    } else if m.kind == Some("response"@) {
        Some((true, text_or(m.text, ""@)))
    } else if m.kind == Some("error"@) {
        Some((false, text_or(m.error, "unknown"@)))
    } else {
        None
    }
}

/// The view of a question's result: whether it is an answer, and its text.
pub open spec fn result_view(r: RequestResult) -> (bool, Seq<char>) {
    match r {
        RequestResult::Response(t) => (true, t@),
        RequestResult::Error(e) => (false, e@),
    }
}

fn string_or(o: &Option<String>, default: &str) -> (r: String)
    ensures
        r@ == text_or(crate::protocol::opt_view(*o), default@),
{
    match o {
        Some(t) => t.clone(),
        None => String::from_str(default),
    }
}

/// Whether the message `m` ends the wait for the answer to question `id`, and how.
pub fn ask_reply(m: &Incoming, id: &str) -> (r: Option<RequestResult>)
    ensures
        match r {
            Some(res) => ask_reply_spec(m@, id@) == Some(result_view(res)),
            None => ask_reply_spec(m@, id@) is None,
        },
{
    let msg_id = string_or(&m.id, "");
    if !same_text(msg_id.as_str(), id) {
        return None;
    }
    match &m.kind {
        Some(kind) => {
            if same_text(kind.as_str(), "response") {
                Some(RequestResult::Response(string_or(&m.text, "")))
            } else if same_text(kind.as_str(), "error") {
                Some(RequestResult::Error(string_or(&m.error, "unknown")))
            } else {
                None
            }
        },
        None => None,
    }
}

/// The first frame among `frames` that ends the wait for the answer to
/// question `id`, and how it ends it.
pub open spec fn first_reply(frames: Seq<IncomingView>, id: Seq<char>) -> Option<(bool, Seq<char>)>
    decreases frames.len(),
{
    if frames.len() == 0 {
        None
    } else if ask_reply_spec(frames[0], id) is Some {
        ask_reply_spec(frames[0], id)
    } else {
        first_reply(frames.drop_first(), id)
    }
}

/// How the wait for question `id` ends once the connection has delivered
/// `frames` and closed: with the first reply, or with the error
/// `"connection_closed"` where none came.
pub open spec fn reply_outcome(frames: Seq<IncomingView>, id: Seq<char>) -> (bool, Seq<char>) {
    match first_reply(frames, id) {
        Some(r) => r,
        None => (false, "connection_closed"@),
    }
}

/// A frame that arrives after the frames `a` ends the wait only where none of `a` did.
proof fn lemma_first_reply_push(a: Seq<IncomingView>, f: IncomingView, id: Seq<char>)
    ensures
        first_reply(a.push(f), id) == (if first_reply(a, id) is Some {
            first_reply(a, id)
        } else {
            ask_reply_spec(f, id)
        }),
    decreases a.len(),
{
    if a.len() > 0 {
        assert(a.push(f).drop_first() =~= a.drop_first().push(f));
        assert(a.push(f)[0] == a[0]);
        lemma_first_reply_push(a.drop_first(), f, id);
    } else {
        assert(a.push(f).drop_first() =~= Seq::<IncomingView>::empty());
        assert(a.push(f)[0] == f);
        assert(first_reply(Seq::<IncomingView>::empty(), id) is None);
    }
}

/// Frames that do not answer question `id` (under another id, of another
/// kind, or not JSON at all) do not change how the wait for it ends,
/// wherever they arrive: two reply streams that differ only by such frames
/// end the same way.
pub proof fn lemma_irrelevant_frame(a: Seq<IncomingView>, f: IncomingView, b: Seq<IncomingView>, id: Seq<char>)
    requires
        ask_reply_spec(f, id) is None,
    ensures
        first_reply(a + seq![f] + b, id) == first_reply(a + b, id),
        reply_outcome(a + seq![f] + b, id) == reply_outcome(a + b, id),
    decreases a.len(),
{
    if a.len() == 0 {
        assert((a + seq![f] + b).drop_first() =~= a + b);
    } else {
        assert((a + seq![f] + b).drop_first() =~= a.drop_first() + seq![f] + b);
        assert((a + b).drop_first() =~= a.drop_first() + b);
        assert((a + seq![f] + b)[0] == a[0]);
        assert((a + b)[0] == a[0]);
        lemma_irrelevant_frame(a.drop_first(), f, b, id);
    }
}

/// Once a frame has answered question `id`, the frames after it do not matter.
pub proof fn lemma_later_frames_ignored(a: Seq<IncomingView>, b: Seq<IncomingView>, id: Seq<char>)
    requires
        first_reply(a, id) is Some,
    ensures
        first_reply(a + b, id) == first_reply(a, id),
    decreases a.len(),
{
    assert((a + b)[0] == a[0]);
    if ask_reply_spec(a[0], id) is None {
        assert((a + b).drop_first() =~= a.drop_first() + b);
        lemma_later_frames_ignored(a.drop_first(), b, id);
    }
}

/// The client's wait for the answer to one question: the frames it has been
/// given so far and whether one of them answered.
pub struct ReplyWait {
    id: String,
    result: Option<RequestResult>,
    frames: Ghost<Seq<IncomingView>>,
}

impl ReplyWait {
    #[verifier::type_invariant]
    spec fn answered_by_first_reply(self) -> bool {
        match self.result {
            Some(r) => first_reply(self.frames@, self.id@) == Some(result_view(r)),
            None => first_reply(self.frames@, self.id@) is None,
        }
    }

    /// The id of the question waited for.
    pub closed spec fn question(self) -> Seq<char> {
        self.id@
    }

    /// The frames received so far.
    pub closed spec fn received(self) -> Seq<IncomingView> {
        self.frames@
    }

    /// A wait for the answer to question `id`, before any frame.
    pub fn new(id: String) -> (w: ReplyWait)
        ensures
            w.question() == id@,
            w.received() == Seq::<IncomingView>::empty(),
    {
        ReplyWait { id, result: None, frames: Ghost(Seq::empty()) }
    }

    /// Takes the next frame; tells whether the wait has ended, that is,
    /// whether some frame so far answered the question.
    pub fn receive(&mut self, frame: &Incoming) -> (ended: bool)
        ensures
            final(self).question() == old(self).question(),
            final(self).received() == old(self).received().push(frame@),
            ended == first_reply(final(self).received(), final(self).question()) is Some,
    {
        proof {
            use_type_invariant(&*self);
            lemma_first_reply_push(self.frames@, frame@, self.id@);
        }
        let ghost frames2 = self.frames@.push(frame@);
        if self.result.is_some() {
            self.frames = Ghost(frames2);
            true
        } else {
            let r = ask_reply(frame, self.id.as_str());
            let ended = r.is_some();
            let id = self.id.clone();
            *self = ReplyWait { id, result: r, frames: Ghost(frames2) };
            ended
        }
    }

    /// How the wait ends when it is over (an answer came, or the connection
    /// closed): with the first reply among the frames, or `"connection_closed"`.
    pub fn outcome(self) -> (r: AskOutcome)
        ensures
            r matches AskOutcome::Finished(res) && result_view(res) == reply_outcome(
                self.received(),
                self.question(),
            ),
    {
        proof {
            use_type_invariant(&self);
        }
        match self.result {
            Some(res) => AskOutcome::Finished(res),
            None => AskOutcome::Finished(closed_before_reply()),
        }
    }
}

/// The answer that message `m` gives to a status query: where it is a status
/// response, whether the extension is connected (`false` where the member is
/// missing or not a boolean).
pub open spec fn status_of(m: IncomingView) -> Option<bool> {
    if m.kind == Some("status_response"@) {
        Some(
            match m.extension_connected {
                Some(b) => b,
                None => false,
            },
        )
    } else {
        None
    }
}

/// The message `m`'s answer to a status query; see `status_of`.
pub fn status_reply(m: &Incoming) -> (r: Option<bool>)
    ensures
        r == status_of(m@),
{
    match &m.kind {
        Some(kind) => {
            if same_text(kind.as_str(), "status_response") {
                Some(
                    match m.extension_connected {
                        Some(b) => b,
                        None => false,
                    },
                )
            } else {
                None
            }
        },
        None => None,
    }
}

/// The answer of the first status response among `frames`.
pub open spec fn first_status(frames: Seq<IncomingView>) -> Option<bool>
    decreases frames.len(),
{
    if frames.len() == 0 {
        None
    } else if status_of(frames[0]) is Some {
        status_of(frames[0])
    } else {
        first_status(frames.drop_first())
    }
}

/// What a status query learns from the frames it received before the
/// connection closed or the query stopped waiting: the first status
/// response decides; without one the extension counts as not connected.
pub open spec fn status_outcome(frames: Seq<IncomingView>) -> bool {
    match first_status(frames) {
        Some(b) => b,
        None => false,
    }
}

proof fn lemma_first_status_push(a: Seq<IncomingView>, f: IncomingView)
    ensures
        first_status(a.push(f)) == (if first_status(a) is Some {
            first_status(a)
        } else {
            status_of(f)
        }),
    decreases a.len(),
{
    if a.len() > 0 {
        assert(a.push(f).drop_first() =~= a.drop_first().push(f));
        assert(a.push(f)[0] == a[0]);
        lemma_first_status_push(a.drop_first(), f);
    } else {
        assert(a.push(f).drop_first() =~= Seq::<IncomingView>::empty());
        assert(a.push(f)[0] == f);
        assert(first_status(Seq::<IncomingView>::empty()) is None);
    }
}

/// Frames that are not status responses do not change what a status query
/// learns, wherever they arrive.
pub proof fn lemma_irrelevant_status_frame(a: Seq<IncomingView>, f: IncomingView, b: Seq<IncomingView>)
    requires
        status_of(f) is None,
    ensures
        first_status(a + seq![f] + b) == first_status(a + b),
        status_outcome(a + seq![f] + b) == status_outcome(a + b),
    decreases a.len(),
{
    if a.len() == 0 {
        assert((a + seq![f] + b).drop_first() =~= a + b);
    } else {
        assert((a + seq![f] + b).drop_first() =~= a.drop_first() + seq![f] + b);
        assert((a + b).drop_first() =~= a.drop_first() + b);
        assert((a + seq![f] + b)[0] == a[0]);
        assert((a + b)[0] == a[0]);
        lemma_irrelevant_status_frame(a.drop_first(), f, b);
    }
}

/// Once a status response has arrived, the frames after it do not matter.
pub proof fn lemma_later_status_frames_ignored(a: Seq<IncomingView>, b: Seq<IncomingView>)
    requires
        first_status(a) is Some,
    ensures
        first_status(a + b) == first_status(a),
    decreases a.len(),
{
    assert((a + b)[0] == a[0]);
    if status_of(a[0]) is None {
        assert((a + b).drop_first() =~= a.drop_first() + b);
        lemma_later_status_frames_ignored(a.drop_first(), b);
    }
}

/// A status query's wait for the relay's answer: the frames it has been
/// given so far and what the first status response among them said.
pub struct StatusWait {
    result: Option<bool>,
    frames: Ghost<Seq<IncomingView>>,
}

impl StatusWait {
    #[verifier::type_invariant]
    spec fn decided_by_first_status(self) -> bool {
        self.result == first_status(self.frames@)
    }

    /// The frames received so far.
    pub closed spec fn received(self) -> Seq<IncomingView> {
        self.frames@
    }

    /// A wait before any frame.
    pub fn new() -> (w: StatusWait)
        ensures
            w.received() == Seq::<IncomingView>::empty(),
    {
        StatusWait { result: None, frames: Ghost(Seq::empty()) }
    }

    /// Takes the next frame; tells whether the wait has ended, that is,
    /// whether some frame so far was a status response.
    pub fn receive(&mut self, frame: &Incoming) -> (ended: bool)
        ensures
            final(self).received() == old(self).received().push(frame@),
            ended == first_status(final(self).received()) is Some,
    {
        proof {
            use_type_invariant(&*self);
            lemma_first_status_push(self.frames@, frame@);
        }
        let ghost frames2 = self.frames@.push(frame@);
        let result = match self.result {
            Some(b) => Some(b),
            None => status_reply(frame),
        };
        *self = StatusWait { result, frames: Ghost(frames2) };
        result.is_some()
    }

    /// What the query learns when the wait is over (a status response came,
    /// the connection closed, or the time ran out); see `status_outcome`.
    pub fn outcome(&self) -> (r: bool)
        ensures
            r == status_outcome(self.received()),
    {
        proof {
            use_type_invariant(self);
        }
        match self.result {
            Some(b) => b,
            None => false,
        }
    }
}

/// The status document: whether the relay runs, its port (0 when it does
/// not run) and whether the extension is connected, as a JSON object with
/// its members in key order.
pub open spec fn status_document_spec(running: bool, port: u16, extension_connected: bool) -> Seq<
    char,
> {
    if running {
        "{\"extension_connected\":"@ + crate::protocol::json_bool(extension_connected)
            + ",\"port\":"@ + decimal_string(port as nat) + ",\"running\":true}"@
    } else {
        "{\"extension_connected\":false,\"port\":0,\"running\":false}"@
    }
}

/// Writes the status document; a relay that does not run reports port 0 and
/// no extension, whatever it was given.
pub fn status_document(running: bool, port: u16, extension_connected: bool) -> (r: String)
    ensures
        r@ == status_document_spec(running, port, extension_connected),
{
    let mut out = String::new();
    if running {
        out.append("{\"extension_connected\":");
        if extension_connected {
            out.append("true");
        } else {
            out.append("false");
        }
        out.append(",\"port\":");
        out.append(format_u16(port).as_str());
        out.append(",\"running\":true}");
        assert(Seq::<char>::empty() + "{\"extension_connected\":"@ =~= "{\"extension_connected\":"@);
    } else {
        out.append("{\"extension_connected\":false,\"port\":0,\"running\":false}");
        assert(Seq::<char>::empty() + "{\"extension_connected\":false,\"port\":0,\"running\":false}"@
            =~= "{\"extension_connected\":false,\"port\":0,\"running\":false}"@);
    }
    out
}

/// How a question ended for the client.
pub enum AskOutcome {
    /// The relay could not be reached or the question could not be sent.
    Unreachable,
    /// The relay answered the question, or the connection closed first
    /// (an error `"connection_closed"`).
    Finished(RequestResult),
    /// No answer came within the timeout.
    TimedOut,
}

/// How the client process ends: its exit status and the line it prints.
pub struct Exit {
    pub code: i32,
    pub to_stderr: bool,
    pub text: String,
}

/// The exit statuses: 0 success, 1 relay not running (or another error),
/// 2 extension not connected, 3 timeout.
pub open spec fn exit_spec(outcome: AskOutcome) -> (i32, bool, Seq<char>) {
    match outcome {
        AskOutcome::Unreachable => (1, true, "Server not running. Call 'start' first."@),
        AskOutcome::Finished(RequestResult::Response(text)) => (0, false, text@),
        AskOutcome::Finished(RequestResult::Error(error)) => if error@
            == "extension_not_connected"@ {
            (2, true, error@)
        } else if error@ == "timeout"@ {
            (3, true, error@)
        } else {
            (1, true, error@)
        },
        AskOutcome::TimedOut => (3, true, "Timeout waiting for Grok response."@),
    }
}

/// How a question ends when the relay closes the connection before its reply.
pub fn closed_before_reply() -> (r: RequestResult)
    ensures
        result_view(r) == (false, "connection_closed"@),
{
    RequestResult::Error(String::from_str("connection_closed"))
}

/// How the outcome of a question ends the client.
pub fn ask_exit(outcome: AskOutcome) -> (r: Exit)
    ensures
        (r.code, r.to_stderr, r.text@) == exit_spec(outcome),
{
    match outcome {
        AskOutcome::Unreachable => Exit {
            code: 1,
            to_stderr: true,
            text: String::from_str("Server not running. Call 'start' first."),
        },
        AskOutcome::Finished(RequestResult::Response(text)) => Exit {
            code: 0,
            to_stderr: false,
            text,
        },
        AskOutcome::Finished(RequestResult::Error(error)) => {
            let code: i32 = if same_text(error.as_str(), "extension_not_connected") {
                2
            } else if same_text(error.as_str(), "timeout") {
                3
            } else {
                1
            };
            Exit { code, to_stderr: true, text: error }
        },
        AskOutcome::TimedOut => Exit {
            code: 3,
            to_stderr: true,
            text: String::from_str("Timeout waiting for Grok response."),
        },
    }
}

/// Each exit status means one thing: 0 only for an answer, 2 only for a
/// missing extension, 3 only for a timeout (the relay's or the client's).
pub proof fn lemma_exit_codes(outcome: AskOutcome)
    ensures
        ({
            let (code, to_stderr, text) = exit_spec(outcome);
            &&& (code == 0) == (outcome matches AskOutcome::Finished(RequestResult::Response(_)))
            &&& code == 0 <==> !to_stderr
            &&& (code == 2) == (outcome matches AskOutcome::Finished(RequestResult::Error(e)) && e@
                == "extension_not_connected"@)
            &&& (code == 3) == (outcome is TimedOut || (outcome matches AskOutcome::Finished(
                RequestResult::Error(e),
            ) && e@ == "timeout"@))
            &&& 0 <= code <= 3
        }),
{
    reveal_strlit("extension_not_connected");
    reveal_strlit("timeout");
    assert("extension_not_connected"@.len() == 23);
    assert("timeout"@.len() == 7);
}

/// The port precedence: a port on the command line always wins; without
/// one, an environment value that reads as a port wins; without that, the
/// configured port; and 7878 when there is none of these.
pub proof fn lemma_port_precedence(
    cli: u16,
    env_value: Option<Seq<char>>,
    config_port: Option<u16>,
    env_text: Seq<char>,
    q: u16,
    c: u16,
)
    ensures
        resolved_port(Some(cli), env_value, config_port) == cli,
        parse_u16_spec(env_text) == Some(q) ==> resolved_port(None, Some(env_text), config_port) == q,
        (env_value is None || parse_u16_spec(env_value->0) is None) ==> resolved_port(
            None,
            env_value,
            Some(c),
        ) == c,
        (env_value is None || parse_u16_spec(env_value->0) is None) ==> resolved_port(
            None,
            env_value,
            None,
        ) == 7878,
{
}

/// A port written in base ten in `SECOND_OPINION_PORT` is the port used
/// when the command line names none.
pub proof fn lemma_env_port_written(q: u16, config_port: Option<u16>)
    ensures
        resolved_port(None, Some(decimal_string(q as nat)), config_port) == q,
{
    crate::decimal::lemma_decimal_string(q as nat);
    assert(crate::decimal::unsigned_digits(decimal_string(q as nat)) == decimal_string(q as nat));
}

/// The client prints what the question ended with, whole: the answer's text
/// on standard output, or the error's text on standard error.
pub proof fn lemma_exit_prints_result(r: RequestResult)
    ensures
        exit_spec(AskOutcome::Finished(r)).2 == result_view(r).1,
        exit_spec(AskOutcome::Finished(r)).1 == !result_view(r).0,
        (exit_spec(AskOutcome::Finished(r)).0 == 0) == result_view(r).0,
{
}

/// An answer of any length ends the client with status 0 and its whole text on standard output.
pub proof fn lemma_answer_printed_whole(t: String)
    ensures
        exit_spec(AskOutcome::Finished(RequestResult::Response(t))) == (0i32, false, t@),
        exit_spec(AskOutcome::Finished(RequestResult::Response(t))).2.len() == t@.len(),
{
}

} // verus!
