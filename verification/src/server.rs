//! The relay server's routing: which browser connection is the extension,
//! which questions wait for an answer and who asked them, and what goes out
//! on which connection when a message arrives, a connection closes, or a
//! question cannot be handed to the extension.
//!
//! Connections are named by numbers that the transport hands out. The
//! transport feeds each event to `ServerState` and carries out the
//! deliveries it gets back.

use vstd::prelude::*;
use vstd::string::StringExecFns;
use crate::protocol::same_text;
use crate::protocol::Incoming;
use crate::protocol::IncomingView;
use crate::protocol::Outgoing;
use crate::protocol::OutgoingView;
use crate::protocol::decode_incoming;
use crate::protocol::incoming_of;

verus! {

/// How a question ended: with the extension's answer or with an error.
pub enum RequestResult {
    Response(String),
    Error(String),
}

impl RequestResult {
    /// The message that tells whoever asked question `id` how it ended.
    pub fn into_message(self, id: String) -> (m: Outgoing)
        ensures
            m@ == match self {
                RequestResult::Response(text) => OutgoingView::Response { id: id@, text: text@ },
                RequestResult::Error(error) => OutgoingView::Error { id: id@, error: error@ },
            },
    {
        match self {
            RequestResult::Response(text) => Outgoing::Response { id, text },
            RequestResult::Error(error) => Outgoing::Error { id, error },
        }
    }
}

/// One connection to the relay, as the relay sees it.
pub struct Connection {
    /// The number the transport gave the connection.
    pub id: u64,
    /// Whether the connection has announced itself as the extension.
    pub is_extension: bool,
}

impl Connection {
    /// A connection that has just been accepted.
    pub fn new(id: u64) -> (c: Connection)
        ensures
            c.id == id,
            !c.is_extension,
    {
        Connection { id, is_extension: false }
    }
}

/// A message to send on a connection.
pub struct Delivery {
    pub conn: u64,
    pub message: Outgoing,
}

pub struct DeliveryView {
    pub conn: u64,
    pub message: OutgoingView,
}

impl View for Delivery {
    type V = DeliveryView;

    open spec fn view(&self) -> DeliveryView {
        DeliveryView { conn: self.conn, message: self.message@ }
    }
}

pub open spec fn deliveries_view(ds: Seq<Delivery>) -> Seq<DeliveryView> {
    ds.map_values(|d: Delivery| d@)
}

/// A question that waits for the extension's answer.
struct Pending {
    id: String,
    requester: u64,
}

/// The relay's shared state.
pub struct ServerState {
    extension: Option<u64>,
    pending: Vec<Pending>,
}

/// The relay's state as a model: whether an extension is connected, on which
/// connection, and, for each waiting question, the connection that asked it.
pub struct ServerView {
    pub extension_connected: bool,
    pub extension: Option<u64>,
    pub pending: Map<Seq<char>, u64>,
}

spec fn has_pending(v: Seq<Pending>, k: Seq<char>) -> bool {
    exists|i: int| 0 <= i < v.len() && #[trigger] v[i].id@ == k
}

spec fn pending_index(v: Seq<Pending>, k: Seq<char>) -> int {
    choose|i: int| 0 <= i < v.len() && #[trigger] v[i].id@ == k
}

spec fn pending_map(v: Seq<Pending>) -> Map<Seq<char>, u64> {
    Map::new(|k: Seq<char>| has_pending(v, k), |k: Seq<char>| v[pending_index(v, k)].requester)
}

spec fn ids_unique(v: Seq<Pending>) -> bool {
    forall|i: int, j: int|
        0 <= i < v.len() && 0 <= j < v.len() && i != j ==> #[trigger] v[i].id@ != #[trigger] v[j].id@
}

proof fn lemma_pending_at(v: Seq<Pending>, i: int)
    requires
        ids_unique(v),
        0 <= i < v.len(),
    ensures
        pending_map(v).contains_key(v[i].id@),
        pending_map(v)[v[i].id@] == v[i].requester,
{
    let k = v[i].id@;
    assert(has_pending(v, k));
    let j = pending_index(v, k);
    assert(v[j].id@ == k);
}

proof fn lemma_pending_remove(v: Seq<Pending>, i: int)
    requires
        ids_unique(v),
        0 <= i < v.len(),
    ensures
        ids_unique(v.remove(i)),
        pending_map(v.remove(i)) =~= pending_map(v).remove(v[i].id@),
{
    let w = v.remove(i);
    let gone = v[i].id@;
    assert forall|a: int, b: int|
        0 <= a < w.len() && 0 <= b < w.len() && a != b implies #[trigger] w[a].id@
        != #[trigger] w[b].id@ by {
        let a2 = if a < i { a } else { a + 1 };
        let b2 = if b < i { b } else { b + 1 };
        assert(w[a] == v[a2]);
        assert(w[b] == v[b2]);
    }
    assert forall|k: Seq<char>| #[trigger]
        pending_map(w).contains_key(k) == pending_map(v).remove(gone).contains_key(k) by {
        if has_pending(w, k) {
            let j = choose|j: int| 0 <= j < w.len() && #[trigger] w[j].id@ == k;
            let j2 = if j < i { j } else { j + 1 };
            assert(w[j] == v[j2]);
            assert(v[j2].id@ == k);
        }
        if has_pending(v, k) && k != gone {
            let j = choose|j: int| 0 <= j < v.len() && #[trigger] v[j].id@ == k;
            assert(j != i);
            let j2 = if j < i { j } else { j - 1 };
            assert(w[j2] == v[j]);
            assert(w[j2].id@ == k);
        }
    }
    assert forall|k: Seq<char>| #[trigger] pending_map(w).contains_key(k) implies pending_map(w)[k]
        == pending_map(v)[k] by {
        let j = choose|j: int| 0 <= j < w.len() && #[trigger] w[j].id@ == k;
        let j2 = if j < i { j } else { j + 1 };
        assert(w[j] == v[j2]);
        lemma_pending_at(w, j);
        lemma_pending_at(v, j2);
    }
}

proof fn lemma_pending_push(v: Seq<Pending>, p: Pending)
    requires
        ids_unique(v),
        !has_pending(v, p.id@),
    ensures
        ids_unique(v.push(p)),
        pending_map(v.push(p)) =~= pending_map(v).insert(p.id@, p.requester),
{
    let w = v.push(p);
    assert forall|a: int, b: int|
        0 <= a < w.len() && 0 <= b < w.len() && a != b implies #[trigger] w[a].id@
        != #[trigger] w[b].id@ by {
        if a < v.len() && b < v.len() {
            assert(w[a] == v[a]);
            assert(w[b] == v[b]);
        } else if a < v.len() {
            assert(w[a] == v[a]);
            assert(v[a].id@ != p.id@);
        } else if b < v.len() {
            assert(w[b] == v[b]);
            assert(v[b].id@ != p.id@);
        }
    }
    assert forall|k: Seq<char>| #[trigger]
        pending_map(w).contains_key(k) == pending_map(v).insert(p.id@, p.requester).contains_key(
            k,
        ) by {
        if has_pending(w, k) {
            let j = choose|j: int| 0 <= j < w.len() && #[trigger] w[j].id@ == k;
            if j < v.len() {
                assert(w[j] == v[j]);
            }
        }
        if has_pending(v, k) {
            let j = choose|j: int| 0 <= j < v.len() && #[trigger] v[j].id@ == k;
            assert(w[j] == v[j]);
        }
        if k == p.id@ {
            assert(w[v.len() as int].id@ == k);
        }
    }
    assert forall|k: Seq<char>| #[trigger] pending_map(w).contains_key(k) implies pending_map(w)[k]
        == pending_map(v).insert(p.id@, p.requester)[k] by {
        let j = choose|j: int| 0 <= j < w.len() && #[trigger] w[j].id@ == k;
        lemma_pending_at(w, j);
        if j < v.len() {
            assert(w[j] == v[j]);
            lemma_pending_at(v, j);
        }
    }
}

/// The error that tells whoever asked question `id` that no extension is there to answer it.
pub open spec fn not_connected(id: Seq<char>) -> OutgoingView {
    OutgoingView::Error { id, error: "extension_not_connected"@ }
}

/// The id of an error message (empty for other messages).
pub open spec fn error_id(d: DeliveryView) -> Seq<char> {
    match d.message {
        OutgoingView::Error { id, .. } => id,
        _ => Seq::empty(),
    }
}

/// `ds` tells the asker of every question in `pending`, once each and nobody
/// else, that the extension is gone.
pub open spec fn fails_all(pending: Map<Seq<char>, u64>, ds: Seq<DeliveryView>) -> bool {
    &&& forall|i: int|
        0 <= i < ds.len() ==> pending.contains_key(error_id(#[trigger] ds[i])) && ds[i]
            == DeliveryView { conn: pending[error_id(ds[i])], message: not_connected(error_id(ds[i])) }
    &&& forall|k: Seq<char>| #[trigger]
        pending.contains_key(k) ==> exists|i: int|
            0 <= i < ds.len() && error_id(#[trigger] ds[i]) == k
    &&& forall|i: int, j: int|
        0 <= i < j < ds.len() ==> error_id(#[trigger] ds[i]) != error_id(#[trigger] ds[j])
}

/// The state after a step, what became of the connection's extension flag,
/// and what is sent.
pub struct Step {
    pub state: ServerView,
    pub is_extension: bool,
    pub deliveries: Seq<DeliveryView>,
}

/// The step that changes nothing and sends nothing.
pub open spec fn no_step(s: ServerView, is_extension: bool) -> Step {
    Step { state: s, is_extension, deliveries: Seq::empty() }
}

/// The string `o` holds, or `default`.
pub open spec fn text_or(o: Option<Seq<char>>, default: Seq<char>) -> Seq<char> {
    match o {
        Some(t) => t,
        None => default,
    }
}

/// Question `id` ends with `message`: it is sent to whoever asked it and the
/// question no longer waits. An unknown `id` changes nothing.
pub open spec fn resolve(s: ServerView, is_extension: bool, id: Seq<char>, message: OutgoingView) -> Step {
    if s.pending.contains_key(id) {
        Step {
            state: ServerView { pending: s.pending.remove(id), ..s },
            is_extension,
            deliveries: seq![DeliveryView { conn: s.pending[id], message }],
        }
    } else {
        no_step(s, is_extension)
    }
}

/// What the relay does with message `m` that arrived on connection `conn`:
/// - `extension_ready`: the connection becomes the extension;
/// - `response` and `error` with an `id`: the waiting question `id` is answered
///   (with the `text`, or the empty text; with the `error`, or `"unknown"`);
/// - `ask` with an `id`: without an extension the asker gets
///   `extension_not_connected` at once; otherwise the question waits, with the
///   asker recorded, and is handed to the extension (with the `message`, or
///   the empty text);
/// - `status_query`: the asker learns whether an extension is connected;
/// - anything else: nothing.
pub open spec fn step_message(s: ServerView, conn: u64, is_extension: bool, m: IncomingView) -> Step {
    match m.kind {
        None => no_step(s, is_extension),
        Some(kind) => if kind == "extension_ready"@ {
            Step {
                state: ServerView { extension_connected: true, extension: Some(conn), ..s },
                is_extension: true,
                deliveries: Seq::empty(),
            }
        } else if kind == "response"@ {
            match m.id {
                None => no_step(s, is_extension),
                Some(id) => resolve(
                    s,
                    is_extension,
                    id,
                    OutgoingView::Response { id, text: text_or(m.text, ""@) },
                ),
            }
        } else if kind == "error"@ {
            match m.id {
                None => no_step(s, is_extension),
                Some(id) => resolve(
                    s,
                    is_extension,
                    id,
                    OutgoingView::Error { id, error: text_or(m.error, "unknown"@) },
                ),
            }
        } else if kind == "ask"@ {
            match m.id {
                None => no_step(s, is_extension),
                Some(id) => if !s.extension_connected {
                    Step {
                        state: s,
                        is_extension,
                        deliveries: seq![DeliveryView { conn, message: not_connected(id) }],
                    }
                } else {
                    Step {
                        state: ServerView { pending: s.pending.insert(id, conn), ..s },
                        is_extension,
                        deliveries: match s.extension {
                            Some(e) => seq![
                                DeliveryView {
                                    conn: e,
                                    message: OutgoingView::Ask { id, message: text_or(m.message, ""@) },
                                },
                            ],
                            None => Seq::empty(),
                        },
                    }
                },
            }
        } else if kind == "status_query"@ {
            Step {
                state: s,
                is_extension,
                deliveries: seq![
                    DeliveryView {
                        conn,
                        message: OutgoingView::StatusResponse {
                            extension_connected: s.extension_connected,
                        },
                    },
                ],
            }
        } else {
            no_step(s, is_extension)
        },
    }
}

/// The model invariant: an extension is connected exactly when its connection is known.
pub open spec fn consistent(s: ServerView) -> bool {
    s.extension_connected == (s.extension is Some)
}

impl View for ServerState {
    type V = ServerView;

    closed spec fn view(&self) -> ServerView {
        ServerView {
            extension_connected: self.extension is Some,
            extension: self.extension,
            pending: pending_map(self.pending@),
        }
    }
}

fn text_or_default(o: &Option<String>, default: &str) -> (r: String)
    ensures
        r@ == text_or(crate::protocol::opt_view(*o), default@),
{
    match o {
        Some(t) => t.clone(),
        None => String::from_str(default),
    }
}

impl ServerState {
    /// Each question waits once.
    #[verifier::type_invariant]
    spec fn each_question_waits_once(self) -> bool {
        ids_unique(self.pending@)
    }

    /// No extension, no waiting question.
    pub fn new() -> (s: ServerState)
        ensures
            !s@.extension_connected,
            s@.extension is None,
            s@.pending == Map::<Seq<char>, u64>::empty(),
    {
        let s = ServerState { extension: None, pending: Vec::new() };
        assert(s@.pending =~= Map::<Seq<char>, u64>::empty());
        s
    }

    /// Whether an extension is connected.
    pub fn extension_connected(&self) -> (r: bool)
        ensures
            r == self@.extension_connected,
    {
        self.extension.is_some()
    }

    /// The number of waiting questions.
    pub fn pending_count(&self) -> (r: usize)
        ensures
            r == self@.pending.len(),
    {
        proof {
            use_type_invariant(self);
            lemma_pending_len_seq(self.pending@);
        }
        self.pending.len()
    }

    /// The relay's state is always consistent: an extension is connected
    /// exactly when its connection is known.
    pub proof fn lemma_consistent(&self)
        ensures
            consistent(self@),
    {
    }

    /// Where question `id` waits in the list.
    fn find_pending(&self, id: &str) -> (r: Option<usize>)
        ensures
            match r {
                Some(i) => i < self.pending@.len() && self.pending@[i as int].id@ == id@,
                None => !has_pending(self.pending@, id@),
            },
    {
        let mut i: usize = 0;
        while i < self.pending.len()
            invariant
                i <= self.pending@.len(),
                forall|j: int| 0 <= j < i ==> #[trigger] self.pending@[j].id@ != id@,
            decreases self.pending@.len() - i,
        {
            if same_text(self.pending[i].id.as_str(), id) {
                return Some(i);
            }
            i = i + 1;
        }
        None
    }

    /// Question `id` no longer waits; gives the connection that asked it.
    fn take_pending(&mut self, id: &str) -> (r: Option<u64>)
        ensures
            final(self)@ == (ServerView { pending: old(self)@.pending.remove(id@), ..old(self)@ }),
            r == (if old(self)@.pending.contains_key(id@) {
                Some(old(self)@.pending[id@])
            } else {
                None
            }),
    {
        proof {
            use_type_invariant(&*self);
        }
        match self.find_pending(id) {
            Some(i) => {
                proof {
                    lemma_pending_at(self.pending@, i as int);
                    lemma_pending_remove(self.pending@, i as int);
                }
                let mut pending: Vec<Pending> = Vec::new();
                std::mem::swap(&mut pending, &mut self.pending);
                let p = pending.remove(i);
                self.pending = pending;
                Some(p.requester)
            },
            None => {
                assert(pending_map(self.pending@).remove(id@) =~= pending_map(self.pending@));
                None
            },
        }
    }

    /// Question `id` waits, asked on connection `requester`; it replaces a
    /// question with the same id.
    fn put_pending(&mut self, id: String, requester: u64)
        ensures
            final(self)@ == (ServerView {
                pending: old(self)@.pending.insert(id@, requester),
                ..old(self)@
            }),
    {
        proof {
            use_type_invariant(&*self);
        }
        let _ = self.take_pending(id.as_str());
        proof {
            use_type_invariant(&*self);
        }
        let ghost before = self.pending@;
        let p = Pending { id, requester };
        proof {
            assert(!pending_map(before).contains_key(id@));
            assert(!has_pending(before, p.id@));
            lemma_pending_push(before, p);
        }
        let mut pending: Vec<Pending> = Vec::new();
        std::mem::swap(&mut pending, &mut self.pending);
        pending.push(p);
        self.pending = pending;
        assert(pending_map(before).insert(p.id@, requester) =~= old(self)@.pending.insert(
            id@,
            requester,
        ));
    }

    fn resolve_pending(&mut self, id: &String, result: RequestResult) -> (r: Vec<Delivery>)
        ensures
            ({
                let st = resolve(
                    old(self)@,
                    false,
                    id@,
                    match result {
                        RequestResult::Response(text) => OutgoingView::Response { id: id@, text: text@ },
                        RequestResult::Error(error) => OutgoingView::Error { id: id@, error: error@ },
                    },
                );
                final(self)@ == st.state && deliveries_view(r@) == st.deliveries
            }),
    {
        let mut out: Vec<Delivery> = Vec::new();
        match self.take_pending(id.as_str()) {
            Some(requester) => {
                out.push(Delivery { conn: requester, message: result.into_message(id.clone()) });
                assert(deliveries_view(out@) =~= seq![out@[0]@]);
            },
            None => {
                assert(old(self)@.pending.remove(id@) =~= old(self)@.pending);
                assert(self@ == old(self)@);
                assert(deliveries_view(out@) =~= Seq::<DeliveryView>::empty());
            },
        }
        out
    }

    /// What the relay does with message `msg` that arrived on connection `conn`;
    /// see `step_message`.
    pub fn handle_message(&mut self, conn: &mut Connection, msg: &Incoming) -> (r: Vec<Delivery>)
        ensures
            final(conn).id == old(conn).id,
            final(self)@ == step_message(old(self)@, old(conn).id, old(conn).is_extension, msg@).state,
            final(conn).is_extension == step_message(
                old(self)@,
                old(conn).id,
                old(conn).is_extension,
                msg@,
            ).is_extension,
            deliveries_view(r@) == step_message(
                old(self)@,
                old(conn).id,
                old(conn).is_extension,
                msg@,
            ).deliveries,            event_step(
                old(self)@,
                ServerEvent::Message {
                    conn: old(conn).id,
                    is_extension: old(conn).is_extension,
                    message: msg@,
                },
                final(self)@,
                deliveries_view(r@),
            ),
    {
        proof {
            use_type_invariant(&*self);
        }
        let mut out: Vec<Delivery> = Vec::new();
        assert(deliveries_view(out@) =~= Seq::<DeliveryView>::empty());
        let kind = match &msg.kind {
            Some(k) => k,
            None => {
                return out;
            },
        };
        if same_text(kind.as_str(), "extension_ready") {
            conn.is_extension = true;
            self.extension = Some(conn.id);
            return out;
        }
        if same_text(kind.as_str(), "response") {
            return match &msg.id {
                Some(id) => {
                    let text = text_or_default(&msg.text, "");
                    self.resolve_pending(id, RequestResult::Response(text))
                },
                None => out,
            };
        }
        if same_text(kind.as_str(), "error") {
            return match &msg.id {
                Some(id) => {
                    let error = text_or_default(&msg.error, "unknown");
                    self.resolve_pending(id, RequestResult::Error(error))
                },
                None => out,
            };
        }
        if same_text(kind.as_str(), "ask") {
            let id = match &msg.id {
                Some(id) => id,
                None => {
                    return out;
                },
            };
            if self.extension.is_none() {
                out.push(
                    Delivery {
                        conn: conn.id,
                        message: Outgoing::Error {
                            id: id.clone(),
                            error: String::from_str("extension_not_connected"),
                        },
                    },
                );
                assert(deliveries_view(out@) =~= seq![out@[0]@]);
                return out;
            }
            self.put_pending(id.clone(), conn.id);
            match self.extension {
                Some(e) => {
                    let message = text_or_default(&msg.message, "");
                    out.push(Delivery { conn: e, message: Outgoing::Ask { id: id.clone(), message } });
                    assert(deliveries_view(out@) =~= seq![out@[0]@]);
                },
                None => {},
            }
            return out;
        }
        if same_text(kind.as_str(), "status_query") {
            out.push(
                Delivery {
                    conn: conn.id,
                    message: Outgoing::StatusResponse { extension_connected: self.extension.is_some() },
                },
            );
            assert(deliveries_view(out@) =~= seq![out@[0]@]);
            return out;
        }
        out
    }

    /// What the relay does with the text frame `text` that arrived on
    /// connection `conn`: it reads the frame's members and handles the message.
    pub fn handle_text(&mut self, conn: &mut Connection, text: &str) -> (r: Vec<Delivery>)
        ensures
            final(conn).id == old(conn).id,
            final(self)@ == step_message(
                old(self)@,
                old(conn).id,
                old(conn).is_extension,
                incoming_of(text@),
            ).state,
            final(conn).is_extension == step_message(
                old(self)@,
                old(conn).id,
                old(conn).is_extension,
                incoming_of(text@),
            ).is_extension,
            deliveries_view(r@) == step_message(
                old(self)@,
                old(conn).id,
                old(conn).is_extension,
                incoming_of(text@),
            ).deliveries,
    {
        let msg = decode_incoming(text);
        self.handle_message(conn, &msg)
    }

    /// Connection `conn` closed. If it had announced itself as the extension,
    /// the relay has no extension any more and every waiting question fails
    /// with `extension_not_connected`, sent to whoever asked it.
    pub fn handle_disconnect(&mut self, conn: &Connection) -> (r: Vec<Delivery>)
        ensures
            !conn.is_extension ==> final(self)@ == old(self)@ && r@.len() == 0,
            conn.is_extension ==> {
                &&& !final(self)@.extension_connected
                &&& final(self)@.extension is None
                &&& final(self)@.pending == Map::<Seq<char>, u64>::empty()
                &&& fails_all(old(self)@.pending, deliveries_view(r@))
            },            event_step(
                old(self)@,
                ServerEvent::Disconnect { conn: conn.id, is_extension: conn.is_extension },
                final(self)@,
                deliveries_view(r@),
            ),
    {
        proof {
            use_type_invariant(&*self);
        }
        let mut out: Vec<Delivery> = Vec::new();
        if !conn.is_extension {
            return out;
        }
        let ghost v = self.pending@;
        let ghost p = old(self)@.pending;
        let mut i: usize = 0;
        while i < self.pending.len()
            invariant
                self.pending@ == v,
                ids_unique(v),
                p == pending_map(v),
                i <= v.len(),
                out@.len() == i,
                forall|j: int|
                    0 <= j < i ==> (#[trigger] out@[j])@ == (DeliveryView {
                        conn: v[j].requester,
                        message: not_connected(v[j].id@),
                    }),
            decreases v.len() - i,
        {
            let d = Delivery {
                conn: self.pending[i].requester,
                message: Outgoing::Error {
                    id: self.pending[i].id.clone(),
                    error: String::from_str("extension_not_connected"),
                },
            };
            out.push(d);
            i = i + 1;
        }
        self.extension = None;
        self.pending = Vec::new();
        proof {
            let ds = deliveries_view(out@);
            assert(pending_map(self.pending@) =~= Map::<Seq<char>, u64>::empty());
            assert forall|j: int| 0 <= j < ds.len() implies p.contains_key(error_id(#[trigger] ds[j]))
                && ds[j] == DeliveryView {
                conn: p[error_id(ds[j])],
                message: not_connected(error_id(ds[j])),
            } by {
                assert(ds[j] == out@[j]@);
                lemma_pending_at(v, j);
            }
            assert forall|k: Seq<char>| #[trigger] p.contains_key(k) implies exists|j: int|
                0 <= j < ds.len() && error_id(#[trigger] ds[j]) == k by {
                let j = choose|j: int| 0 <= j < v.len() && #[trigger] v[j].id@ == k;
                assert(ds[j] == out@[j]@);
                assert(error_id(ds[j]) == k);
            }
            assert forall|a: int, b: int| 0 <= a < b < ds.len() implies error_id(#[trigger] ds[a])
                != error_id(#[trigger] ds[b]) by {
                assert(ds[a] == out@[a]@);
                assert(ds[b] == out@[b]@);
                assert(v[a].id@ != v[b].id@);
            }
        }
        out
    }

    /// Question `id` could not be handed to the extension: the relay has no
    /// extension any more, and if question `id` waits it fails with
    /// `extension_not_connected`, sent to whoever asked it.
    pub fn handle_relay_failed(&mut self, id: &str) -> (r: Vec<Delivery>)
        ensures
            !final(self)@.extension_connected,
            final(self)@.extension is None,
            final(self)@.pending == old(self)@.pending.remove(id@),
            deliveries_view(r@) == (if old(self)@.pending.contains_key(id@) {
                seq![DeliveryView { conn: old(self)@.pending[id@], message: not_connected(id@) }]
            } else {
                Seq::<DeliveryView>::empty()
            }),
            event_step(
                old(self)@,
                ServerEvent::RelayFailed { id: id@ },
                final(self)@,
                deliveries_view(r@),
            ),
    {
        proof {
            use_type_invariant(&*self);
        }
        self.extension = None;
        let mut out: Vec<Delivery> = Vec::new();
        match self.take_pending(id) {
            Some(requester) => {
                out.push(
                    Delivery {
                        conn: requester,
                        message: Outgoing::Error {
                            id: String::from_str(id),
                            error: String::from_str("extension_not_connected"),
                        },
                    },
                );
                assert(deliveries_view(out@) =~= seq![out@[0]@]);
            },
            None => {
                assert(deliveries_view(out@) =~= Seq::<DeliveryView>::empty());
            },
        }
        out
    }
}

proof fn lemma_pending_len_seq(v: Seq<Pending>)
    requires
        ids_unique(v),
    ensures
        pending_map(v).dom().finite(),
        pending_map(v).len() == v.len(),
    decreases v.len(),
{
    if v.len() == 0 {
        assert(pending_map(v).dom() =~= Set::<Seq<char>>::empty());
    } else {
        let w = v.drop_last();
        let p = v.last();
        assert(ids_unique(w)) by {
            assert forall|a: int, b: int|
                0 <= a < w.len() && 0 <= b < w.len() && a != b implies #[trigger] w[a].id@
                != #[trigger] w[b].id@ by {
                assert(w[a] == v[a]);
                assert(w[b] == v[b]);
            }
        }
        lemma_pending_len_seq(w);
        assert(!has_pending(w, p.id@)) by {
            if has_pending(w, p.id@) {
                let j = choose|j: int| 0 <= j < w.len() && #[trigger] w[j].id@ == p.id@;
                assert(w[j] == v[j]);
                assert(v[v.len() - 1].id@ == p.id@);
            }
        }
        lemma_pending_push(w, p);
        assert(w.push(p) =~= v);
    }
}

/// The message kinds are different strings.
proof fn lemma_kinds_distinct()
    ensures
        "extension_ready"@ != "response"@,
        "extension_ready"@ != "error"@,
        "extension_ready"@ != "ask"@,
        "extension_ready"@ != "status_query"@,
        "response"@ != "error"@,
        "response"@ != "ask"@,
        "response"@ != "status_query"@,
        "error"@ != "ask"@,
        "error"@ != "status_query"@,
        "ask"@ != "status_query"@,
{
    reveal_strlit("extension_ready");
    reveal_strlit("response");
    reveal_strlit("error");
    reveal_strlit("ask");
    reveal_strlit("status_query");
    assert("extension_ready"@.len() == 15);
    assert("response"@.len() == 8);
    assert("error"@.len() == 5);
    assert("ask"@.len() == 3);
    assert("status_query"@.len() == 12);
    assert("response"@[0] != "ask"@[0]);
    assert("error"@[0] != "ask"@[0]);
}

/// Every message keeps the model invariant: an extension is connected exactly
/// when the relay knows its connection.
pub proof fn lemma_step_keeps_consistent(s: ServerView, conn: u64, is_extension: bool, m: IncomingView)
    requires
        consistent(s),
    ensures
        consistent(step_message(s, conn, is_extension, m).state),
{
}

/// A question asked while no extension is connected is answered at once, on
/// the asking connection, with `extension_not_connected`, and nothing changes.
pub proof fn lemma_refused_ask(s: ServerView, conn: u64, is_extension: bool, m: IncomingView, id: Seq<char>)
    requires
        !s.extension_connected,
        m.kind == Some("ask"@),
        m.id == Some(id),
    ensures
        step_message(s, conn, is_extension, m) == (Step {
            state: s,
            is_extension,
            deliveries: seq![DeliveryView { conn, message: not_connected(id) }],
        }),
{
    lemma_kinds_distinct();
}

/// A question asked while an extension is connected is handed to the
/// extension, and the answer that comes back under its id, on whichever
/// connection, goes to the connection that asked it.
pub proof fn lemma_answer_reaches_asker(
    s: ServerView,
    asker: u64,
    asker_is_extension: bool,
    ask: IncomingView,
    id: Seq<char>,
    from: u64,
    from_is_extension: bool,
    answer: IncomingView,
)
    requires
        consistent(s),
        s.extension_connected,
        ask.kind == Some("ask"@),
        ask.id == Some(id),
        answer.kind == Some("response"@),
        answer.id == Some(id),
    ensures
        ({
            let first = step_message(s, asker, asker_is_extension, ask);
            let second = step_message(first.state, from, from_is_extension, answer);
            &&& first.deliveries == seq![
                DeliveryView {
                    conn: s.extension->0,
                    message: OutgoingView::Ask { id, message: text_or(ask.message, ""@) },
                },
            ]
            &&& first.state.pending == s.pending.insert(id, asker)
            &&& second.deliveries == seq![
                DeliveryView {
                    conn: asker,
                    message: OutgoingView::Response { id, text: text_or(answer.text, ""@) },
                },
            ]
            &&& second.state.pending == s.pending.remove(id)
        }),
{
    lemma_kinds_distinct();
    let first = step_message(s, asker, asker_is_extension, ask);
    assert(first.state.pending.insert(id, asker).remove(id) =~= s.pending.insert(id, asker).remove(id));
    assert(s.pending.insert(id, asker).remove(id) =~= s.pending.remove(id));
}

/// A question is answered at most once: once an answer or an error for `id`
/// has reached the asker, a second answer or error for `id` sends nothing
/// and changes nothing.
pub proof fn lemma_answered_once(
    s: ServerView,
    conn: u64,
    is_extension: bool,
    first: IncomingView,
    conn2: u64,
    is_extension2: bool,
    second: IncomingView,
    id: Seq<char>,
)
    requires
        first.kind == Some("response"@) || first.kind == Some("error"@),
        first.id == Some(id),
        second.kind == Some("response"@) || second.kind == Some("error"@),
        second.id == Some(id),
    ensures
        ({
            let after = step_message(s, conn, is_extension, first).state;
            let again = step_message(after, conn2, is_extension2, second);
            &&& !after.pending.contains_key(id)
            &&& again.state == after
            &&& again.deliveries.len() == 0
        }),
{
    lemma_kinds_distinct();
}

/// A status query is answered, on the asking connection, with whether an
/// extension is connected, and changes nothing.
pub proof fn lemma_status_query(s: ServerView, conn: u64, is_extension: bool, m: IncomingView)
    requires
        m.kind == Some("status_query"@),
    ensures
        step_message(s, conn, is_extension, m) == (Step {
            state: s,
            is_extension,
            deliveries: seq![
                DeliveryView {
                    conn,
                    message: OutgoingView::StatusResponse { extension_connected: s.extension_connected },
                },
            ],
        }),
{
    lemma_kinds_distinct();
}

/// An event that reaches the relay: a message on a connection (with that
/// connection's extension flag), a connection closing, or a question that
/// could not be handed to the extension.
pub enum ServerEvent {
    Message { conn: u64, is_extension: bool, message: IncomingView },
    Disconnect { conn: u64, is_extension: bool },
    RelayFailed { id: Seq<char> },
}

/// The state `t` and the deliveries `ds` can follow the event `e` in state `s`.
pub open spec fn event_step(s: ServerView, e: ServerEvent, t: ServerView, ds: Seq<DeliveryView>) -> bool {
    match e {
        ServerEvent::Message { conn, is_extension, message } => {
            let st = step_message(s, conn, is_extension, message);
            t == st.state && ds == st.deliveries
        },
        ServerEvent::Disconnect { is_extension, .. } => if is_extension {
            &&& t == (ServerView {
                extension_connected: false,
                extension: None,
                pending: Map::empty(),
            })
            &&& fails_all(s.pending, ds)
        } else {
            t == s && ds.len() == 0
        },
        ServerEvent::RelayFailed { id } => {
            &&& t == (ServerView {
                extension_connected: false,
                extension: None,
                pending: s.pending.remove(id),
            })
            &&& ds == (if s.pending.contains_key(id) {
                seq![DeliveryView { conn: s.pending[id], message: not_connected(id) }]
            } else {
                Seq::<DeliveryView>::empty()
            })
        },
    }
}

/// `states` and `outs` are a run of the relay from `s` through `events`:
/// `states[i + 1]` and `outs[i]` follow `events[i]` in `states[i]`.
pub open spec fn is_run(
    s: ServerView,
    events: Seq<ServerEvent>,
    states: Seq<ServerView>,
    outs: Seq<Seq<DeliveryView>>,
) -> bool {
    &&& states.len() == events.len() + 1
    &&& outs.len() == events.len()
    &&& states[0] == s
    &&& forall|i: int| 0 <= i < events.len() ==> #[trigger] run_step(events, states, outs, i)
}

/// Step `i` of a run follows its event.
pub open spec fn run_step(
    events: Seq<ServerEvent>,
    states: Seq<ServerView>,
    outs: Seq<Seq<DeliveryView>>,
    i: int,
) -> bool {
    event_step(states[i], events[i], states[i + 1], outs[i])
}

/// Whether `d` answers question `id`: a response or an error under that id.
pub open spec fn is_answer_for(d: DeliveryView, id: Seq<char>) -> bool {
    match d.message {
        OutgoingView::Response { id: i, .. } => i == id,
        OutgoingView::Error { id: i, .. } => i == id,
        _ => false,
    }
}

/// Whether the event is a question asked under `id`.
pub open spec fn asks_for(e: ServerEvent, id: Seq<char>) -> bool {
    e matches ServerEvent::Message { message, .. } && message.kind == Some("ask"@) && message.id
        == Some(id)
}

/// Whether the run asks `k` only at times when no extension is connected
/// (such questions are refused at once and leave the relay as it was).
pub open spec fn asks_only_when_refused(
    events: Seq<ServerEvent>,
    states: Seq<ServerView>,
    k: Seq<char>,
) -> bool {
    forall|i: int|
        0 <= i < events.len() && asks_for(#[trigger] events[i], k) ==> !states[i].extension_connected
}

proof fn lemma_event_answers(s: ServerView, e: ServerEvent, t: ServerView, ds: Seq<DeliveryView>, k: Seq<char>)
    requires
        event_step(s, e, t, ds),
        asks_for(e, k) ==> !s.extension_connected,
    ensures
        asks_for(e, k) ==> t == s,
        !asks_for(e, k) ==> forall|j: int|
            0 <= j < ds.len() && is_answer_for(#[trigger] ds[j], k) ==> s.pending.contains_key(k)
                && ds[j].conn == s.pending[k] && !t.pending.contains_key(k),
        !asks_for(e, k) ==> forall|a: int, b: int|
            0 <= a < ds.len() && 0 <= b < ds.len() && is_answer_for(#[trigger] ds[a], k)
                && is_answer_for(#[trigger] ds[b], k) ==> a == b,
        t.pending.contains_key(k) ==> s.pending.contains_key(k) && t.pending[k] == s.pending[k],
{
    lemma_kinds_distinct();
    match e {
        ServerEvent::Message { conn, is_extension, message } => {
            if message.kind == Some("ask"@) {
                if let Some(id) = message.id {
                    if id == k {
                        assert(!s.extension_connected);
                    }
                }
            }
        },
        ServerEvent::Disconnect { is_extension, .. } => {
            if is_extension {
                assert forall|j: int|
                    0 <= j < ds.len() && is_answer_for(#[trigger] ds[j], k) implies s.pending.contains_key(
                    k,
                ) && ds[j].conn == s.pending[k] && !t.pending.contains_key(k) by {
                    assert(s.pending.contains_key(error_id(ds[j])));
                }
                assert forall|a: int, b: int|
                    0 <= a < ds.len() && 0 <= b < ds.len() && is_answer_for(#[trigger] ds[a], k)
                        && is_answer_for(#[trigger] ds[b], k) implies a == b by {
                    assert(s.pending.contains_key(error_id(ds[a])));
                    assert(s.pending.contains_key(error_id(ds[b])));
                    if a < b {
                        assert(error_id(ds[a]) != error_id(ds[b]));
                    } else if b < a {
                        assert(error_id(ds[b]) != error_id(ds[a]));
                    }
                }
            }
        },
        ServerEvent::RelayFailed { id } => {},
    }
}

proof fn lemma_run_suffix(
    s: ServerView,
    events: Seq<ServerEvent>,
    states: Seq<ServerView>,
    outs: Seq<Seq<DeliveryView>>,
    k: Seq<char>,
)
    requires
        is_run(s, events, states, outs),
        asks_only_when_refused(events, states, k),
        events.len() > 0,
    ensures
        is_run(states[1], events.drop_first(), states.drop_first(), outs.drop_first()),
        asks_only_when_refused(events.drop_first(), states.drop_first(), k),
        event_step(states[0], events[0], states[1], outs[0]),
        asks_for(events[0], k) ==> !states[0].extension_connected,
{
    let events2 = events.drop_first();
    let states2 = states.drop_first();
    let outs2 = outs.drop_first();
    assert(run_step(events, states, outs, 0));
    assert forall|i: int| 0 <= i < events2.len() implies #[trigger] run_step(
        events2,
        states2,
        outs2,
        i,
    ) by {
        assert(run_step(events, states, outs, i + 1));
    }
    assert forall|i: int|
        0 <= i < events2.len() && asks_for(#[trigger] events2[i], k) implies !states2[i].extension_connected by {
        assert(asks_for(events[i + 1], k));
    }
    if asks_for(events[0], k) {
        assert(!states[0].extension_connected);
    }
}

/// Once question `k` no longer waits, and nobody asks `k` while an
/// extension is connected, nothing but the refusals of such questions
/// answers `k`.
proof fn lemma_run_no_answers(
    s: ServerView,
    events: Seq<ServerEvent>,
    states: Seq<ServerView>,
    outs: Seq<Seq<DeliveryView>>,
    k: Seq<char>,
)
    requires
        is_run(s, events, states, outs),
        !s.pending.contains_key(k),
        asks_only_when_refused(events, states, k),
    ensures
        forall|i: int, j: int|
            0 <= i < outs.len() && 0 <= j < outs[i].len() && !asks_for(events[i], k)
                ==> !is_answer_for(#[trigger] outs[i][j], k),
    decreases events.len(),
{
    if events.len() > 0 {
        lemma_run_suffix(s, events, states, outs, k);
        lemma_event_answers(states[0], events[0], states[1], outs[0], k);
        let events2 = events.drop_first();
        let states2 = states.drop_first();
        let outs2 = outs.drop_first();
        lemma_run_no_answers(states[1], events2, states2, outs2, k);
        assert forall|i: int, j: int|
            0 <= i < outs.len() && 0 <= j < outs[i].len() && !asks_for(events[i], k) implies !is_answer_for(
            #[trigger] outs[i][j],
            k,
        ) by {
            if i > 0 {
                assert(outs[i] == outs2[i - 1]);
                assert(events[i] == events2[i - 1]);
                assert(!is_answer_for(outs2[i - 1][j], k));
            }
        }
    }
}

/// A question is answered at most once, over any run of events: as long as
/// nobody asks `k` again while an extension is connected (a question asked
/// without an extension is refused at once and leaves the waiting one as it
/// was), every answer to `k` that the relay sends, apart from those
/// refusals, goes to the connection that was waiting for `k` when the run
/// began, and there is at most one such answer in the whole run (none where
/// `k` was not waiting).
pub proof fn lemma_answered_at_most_once(
    s: ServerView,
    events: Seq<ServerEvent>,
    states: Seq<ServerView>,
    outs: Seq<Seq<DeliveryView>>,
    k: Seq<char>,
)
    requires
        is_run(s, events, states, outs),
        asks_only_when_refused(events, states, k),
    ensures
        forall|i: int, j: int|
            0 <= i < outs.len() && 0 <= j < outs[i].len() && !asks_for(events[i], k) && is_answer_for(
                #[trigger] outs[i][j],
                k,
            ) ==> s.pending.contains_key(k) && outs[i][j].conn == s.pending[k],
        forall|i1: int, j1: int, i2: int, j2: int|
            0 <= i1 < outs.len() && 0 <= j1 < outs[i1].len() && 0 <= i2 < outs.len() && 0 <= j2
                < outs[i2].len() && !asks_for(events[i1], k) && !asks_for(events[i2], k)
                && is_answer_for(#[trigger] outs[i1][j1], k) && is_answer_for(
                #[trigger] outs[i2][j2],
                k,
            ) ==> i1 == i2 && j1 == j2,
    decreases events.len(),
{
    if events.len() > 0 {
        lemma_run_suffix(s, events, states, outs, k);
        lemma_event_answers(states[0], events[0], states[1], outs[0], k);
        let events2 = events.drop_first();
        let states2 = states.drop_first();
        let outs2 = outs.drop_first();
        if !asks_for(events[0], k) && exists|j: int|
            0 <= j < outs[0].len() && is_answer_for(#[trigger] outs[0][j], k) {
            let j0 = choose|j: int| 0 <= j < outs[0].len() && is_answer_for(#[trigger] outs[0][j], k);
            assert(!states[1].pending.contains_key(k));
            lemma_run_no_answers(states[1], events2, states2, outs2, k);
            assert forall|i: int, j: int|
                0 <= i < outs.len() && 0 <= j < outs[i].len() && !asks_for(events[i], k)
                    && is_answer_for(#[trigger] outs[i][j], k) implies i == 0 by {
                if i > 0 {
                    assert(outs[i] == outs2[i - 1]);
                    assert(events[i] == events2[i - 1]);
                    assert(!is_answer_for(outs2[i - 1][j], k));
                }
            }
            assert forall|i1: int, j1: int, i2: int, j2: int|
                0 <= i1 < outs.len() && 0 <= j1 < outs[i1].len() && 0 <= i2 < outs.len() && 0 <= j2
                    < outs[i2].len() && !asks_for(events[i1], k) && !asks_for(events[i2], k)
                    && is_answer_for(#[trigger] outs[i1][j1], k) && is_answer_for(
                    #[trigger] outs[i2][j2],
                    k,
                ) implies i1 == i2 && j1 == j2 by {
                assert(i1 == 0 && i2 == 0);
                let ds = outs[0];
                assert(is_answer_for(ds[j1], k) && is_answer_for(ds[j2], k));
            }
        } else {
            lemma_answered_at_most_once(states[1], events2, states2, outs2, k);
            assert(states[1].pending.contains_key(k) ==> s.pending.contains_key(k)
                && states[1].pending[k] == s.pending[k]);
            assert forall|i: int, j: int|
                0 <= i < outs.len() && 0 <= j < outs[i].len() && !asks_for(events[i], k)
                    && is_answer_for(#[trigger] outs[i][j], k) implies i > 0
                && states[1].pending.contains_key(k) && outs[i][j].conn == states[1].pending[k] by {
                if i == 0 {
                    assert(!is_answer_for(outs[0][j], k));
                } else {
                    assert(outs[i] == outs2[i - 1]);
                    assert(events[i] == events2[i - 1]);
                    assert(is_answer_for(outs2[i - 1][j], k));
                }
            }
            assert forall|i1: int, j1: int, i2: int, j2: int|
                0 <= i1 < outs.len() && 0 <= j1 < outs[i1].len() && 0 <= i2 < outs.len() && 0 <= j2
                    < outs[i2].len() && !asks_for(events[i1], k) && !asks_for(events[i2], k)
                    && is_answer_for(#[trigger] outs[i1][j1], k) && is_answer_for(
                    #[trigger] outs[i2][j2],
                    k,
                ) implies i1 == i2 && j1 == j2 by {
                assert(i1 > 0 && i2 > 0);
                assert(outs[i1] == outs2[i1 - 1]);
                assert(outs[i2] == outs2[i2 - 1]);
                assert(events[i1] == events2[i1 - 1]);
                assert(events[i2] == events2[i2 - 1]);
                assert(is_answer_for(outs2[i1 - 1][j1], k));
                assert(is_answer_for(outs2[i2 - 1][j2], k));
            }
        }
    }
}

/// Only `extension_ready` chooses the extension: every other message leaves
/// the relay's extension (and whether one is connected) and the sending
/// connection's flag as they were, so successive questions all go to the
/// same extension connection.
pub proof fn lemma_extension_changes_only_on_ready(
    s: ServerView,
    conn: u64,
    is_extension: bool,
    m: IncomingView,
)
    requires
        m.kind != Some("extension_ready"@),
    ensures
        step_message(s, conn, is_extension, m).state.extension == s.extension,
        step_message(s, conn, is_extension, m).state.extension_connected == s.extension_connected,
        step_message(s, conn, is_extension, m).is_extension == is_extension,
{
}

/// `extension_ready` makes the sending connection the extension, marks it,
/// keeps every waiting question, and sends nothing.
pub proof fn lemma_ready_chooses_sender(s: ServerView, conn: u64, is_extension: bool, m: IncomingView)
    requires
        m.kind == Some("extension_ready"@),
    ensures
        step_message(s, conn, is_extension, m).state.extension == Some(conn),
        step_message(s, conn, is_extension, m).state.extension_connected,
        step_message(s, conn, is_extension, m).state.pending == s.pending,
        step_message(s, conn, is_extension, m).is_extension,
        step_message(s, conn, is_extension, m).deliveries.len() == 0,
{
}

/// Two questions asked one after the other while an extension is connected
/// are both handed to that extension, whoever asks them.
pub proof fn lemma_questions_reach_the_extension(
    s: ServerView,
    c1: u64,
    e1: bool,
    a1: IncomingView,
    id1: Seq<char>,
    c2: u64,
    e2: bool,
    a2: IncomingView,
    id2: Seq<char>,
)
    requires
        consistent(s),
        s.extension_connected,
        a1.kind == Some("ask"@),
        a1.id == Some(id1),
        a2.kind == Some("ask"@),
        a2.id == Some(id2),
    ensures
        ({
            let first = step_message(s, c1, e1, a1);
            let second = step_message(first.state, c2, e2, a2);
            &&& first.deliveries.len() == 1
            &&& first.deliveries[0].conn == s.extension->0
            &&& second.deliveries.len() == 1
            &&& second.deliveries[0].conn == s.extension->0
            &&& second.deliveries[0].message == OutgoingView::Ask {
                id: id2,
                message: text_or(a2.message, ""@),
            }
            &&& second.state.pending.contains_key(id1)
            &&& id1 != id2 ==> second.state.pending[id1] == c1
            &&& second.state.pending[id2] == c2
            &&& second.state.extension == s.extension
        }),
{
    lemma_kinds_distinct();
}

/// A message touches at most the waiting question under its own id: every
/// other waiting question stays, with the same asker.
pub proof fn lemma_other_questions_untouched(
    s: ServerView,
    conn: u64,
    is_extension: bool,
    m: IncomingView,
    k: Seq<char>,
)
    requires
        m.id != Some(k),
    ensures
        step_message(s, conn, is_extension, m).state.pending.contains_key(k) == s.pending.contains_key(k),
        s.pending.contains_key(k) ==> step_message(s, conn, is_extension, m).state.pending[k]
            == s.pending[k],
{
}

/// Every message sent for a message goes to the sender (a refusal or a
/// status answer), to the extension (a relayed question) or to whoever
/// waits for the answered question.
pub proof fn lemma_deliveries_addressed(s: ServerView, conn: u64, is_extension: bool, m: IncomingView)
    ensures
        forall|j: int|
            0 <= j < step_message(s, conn, is_extension, m).deliveries.len() ==> {
                let d = #[trigger] step_message(s, conn, is_extension, m).deliveries[j];
                ||| d.conn == conn
                ||| s.extension == Some(d.conn)
                ||| (m.id matches Some(id) && s.pending.contains_key(id) && d.conn == s.pending[id])
            },
{
}

/// The texts pass through unchanged: an answer carries the extension's
/// text (the empty text where it sent none), an error its error (`"unknown"`
/// where it sent none), and a relayed question the asker's message (the
/// empty text where it sent none).
pub proof fn lemma_texts_pass_through(
    s: ServerView,
    conn: u64,
    is_extension: bool,
    m: IncomingView,
    id: Seq<char>,
)
    requires
        m.id == Some(id),
    ensures
        (m.kind == Some("response"@) && s.pending.contains_key(id)) ==> step_message(
            s,
            conn,
            is_extension,
            m,
        ).deliveries == seq![
            DeliveryView {
                conn: s.pending[id],
                message: OutgoingView::Response {
                    id,
                    text: match m.text {
                        Some(t) => t,
                        None => Seq::empty(),
                    },
                },
            },
        ],
        (m.kind == Some("error"@) && s.pending.contains_key(id)) ==> step_message(
            s,
            conn,
            is_extension,
            m,
        ).deliveries == seq![
            DeliveryView {
                conn: s.pending[id],
                message: OutgoingView::Error {
                    id,
                    error: match m.error {
                        Some(e) => e,
                        None => "unknown"@,
                    },
                },
            },
        ],
        (m.kind == Some("ask"@) && s.extension_connected && s.extension is Some) ==> step_message(
            s,
            conn,
            is_extension,
            m,
        ).deliveries == seq![
            DeliveryView {
                conn: s.extension->0,
                message: OutgoingView::Ask {
                    id,
                    message: match m.message {
                        Some(t) => t,
                        None => Seq::empty(),
                    },
                },
            },
        ],
{
    lemma_kinds_distinct();
    reveal_strlit("");
    assert(""@ =~= Seq::<char>::empty());
}

} // verus!
