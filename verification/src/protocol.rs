//! The JSON messages that the client, the relay server and the browser
//! extension exchange: reading the members the relay looks at out of an
//! incoming text frame, and writing each outgoing message.
//!
//! Every message is a JSON object with a `"type"` member. Outgoing objects are
//! written compactly with their members in key order, as serde_json writes an
//! object built from its default map.

use vstd::prelude::*;
use vstd::string::StrSliceExecFns;
use vstd::string::StringExecFns;

verus! {

/// The string member `key` of the top-level object in the JSON text `text`:
/// `None` where `text` is not JSON, is not an object, lacks `key`, or holds a
/// value other than a string there. This names what serde_json's `from_str`
/// into a `Value`, followed by `Value::get` and `Value::as_str`, gives.
pub uninterp spec fn json_member_text(text: Seq<char>, key: Seq<char>) -> Option<Seq<char>>;

/// The boolean member `key` of the top-level object in the JSON text `text`,
/// as serde_json's `from_str`, `Value::get` and `Value::as_bool` give it.
pub uninterp spec fn json_member_flag(text: Seq<char>, key: Seq<char>) -> Option<bool>;

/// One lowercase hexadecimal digit.
pub open spec fn hex_digit(d: int) -> char {
    if d < 10 {
        crate::decimal::digit_char(d)
    } else if d == 10 {
        'a'
    } else if d == 11 {
        'b'
    } else if d == 12 {
        'c'
    } else if d == 13 {
        'd'
    } else if d == 14 {
        'e'
    } else {
        'f'
    }
}

/// How a JSON string literal writes one character: quote and backslash are
/// escaped, the control characters below U+0020 become `\b`, `\t`, `\n`,
/// `\f`, `\r` or `\u00XX`, and every other character stands for itself.
pub open spec fn json_escaped_char(c: char) -> Seq<char> {
    let u = c as int;
    if c == '"' {
        seq!['\\', '"']
    } else if c == '\\' {
        seq!['\\', '\\']
    } else if u == 8 {
        seq!['\\', 'b']
    } else if u == 9 {
        seq!['\\', 't']
    } else if u == 10 {
        seq!['\\', 'n']
    } else if u == 12 {
        seq!['\\', 'f']
    } else if u == 13 {
        seq!['\\', 'r']
    } else if u < 0x20 {
        seq!['\\', 'u', '0', '0', hex_digit(u / 16), hex_digit(u % 16)]
    } else {
        seq![c]
    }
}

/// The characters of `s`, each escaped as a JSON string literal writes it.
pub open spec fn json_escaped(s: Seq<char>) -> Seq<char>
    decreases s.len(),
{
    if s.len() == 0 {
        Seq::empty()
    } else {
        json_escaped(s.drop_last()) + json_escaped_char(s.last())
    }
}

/// The JSON string literal for `s`.
pub open spec fn json_quoted(s: Seq<char>) -> Seq<char> {
    seq!['"'] + json_escaped(s) + seq!['"']
}

/// serde_json's `to_string` on a `&str`: the JSON string literal for `s`
/// (serde_json's `format_escaped_str`; writing into a `Vec` cannot fail).
#[verifier::external_body]
fn json_string_literal(s: &str) -> (r: String)
    ensures
        r@ == json_quoted(s@),
{
    match serde_json::to_string(s) {
        Ok(t) => t,
        Err(_) => String::new(),
    }
}

/// serde_json's `from_str` into a `Value`, then `Value::get(key)` and
/// `Value::as_str`: the string member `key` of the object that `text` holds.
#[verifier::external_body]
fn json_string_member(text: &str, key: &str) -> (r: Option<String>)
    ensures
        match r {
            Some(v) => json_member_text(text@, key@) == Some(v@),
            None => json_member_text(text@, key@) is None,
        },
{
    match serde_json::from_str::<serde_json::Value>(text) {
        Ok(v) => match v.get(key) {
            Some(serde_json::Value::String(s)) => Some(s.clone()),
            _ => None,
        },
        Err(_) => None,
    }
}

/// serde_json's `from_str` into a `Value`, then `Value::get(key)` and
/// `Value::as_bool`: the boolean member `key` of the object that `text` holds.
#[verifier::external_body]
fn json_bool_member(text: &str, key: &str) -> (r: Option<bool>)
    ensures
        r == json_member_flag(text@, key@),
{
    match serde_json::from_str::<serde_json::Value>(text) {
        Ok(v) => match v.get(key) {
            Some(serde_json::Value::Bool(b)) => Some(*b),
            _ => None,
        },
        Err(_) => None,
    }
}

/// Whether the two strings hold the same characters.
pub fn same_text(a: &str, b: &str) -> (r: bool)
    ensures
        r == (a@ == b@),
{
    let n = a.unicode_len();
    if n != b.unicode_len() {
        return false;
    }
    let mut i: usize = 0;
    while i < n
        invariant
            i <= n,
            n == a@.len(),
            n == b@.len(),
            a@.take(i as int) == b@.take(i as int),
        decreases n - i,
    {
        if a.get_char(i) != b.get_char(i) {
            return false;
        }
        assert(a@.take(i + 1) =~= a@.take(i as int).push(a@[i as int]));
        assert(b@.take(i + 1) =~= b@.take(i as int).push(b@[i as int]));
        i = i + 1;
    }
    assert(a@.take(n as int) =~= a@);
    assert(b@.take(n as int) =~= b@);
    true
}

/// The view of an optional string.
pub open spec fn opt_view(o: Option<String>) -> Option<Seq<char>> {
    match o {
        Some(s) => Some(s@),
        None => None,
    }
}

/// The members of an incoming message that the relay and the client read.
/// A member is `None` where the frame is not a JSON object or the member is
/// missing or of another JSON type.
pub struct Incoming {
    /// The `"type"` member.
    pub kind: Option<String>,
    /// The `"id"` member: which request the message belongs to.
    pub id: Option<String>,
    /// The `"text"` member of a response.
    pub text: Option<String>,
    /// The `"error"` member of an error.
    pub error: Option<String>,
    /// The `"message"` member of a question.
    pub message: Option<String>,
    /// The `"extension_connected"` member of a status response.
    pub extension_connected: Option<bool>,
}

/// The members of an incoming message, as mathematical strings.
pub struct IncomingView {
    pub kind: Option<Seq<char>>,
    pub id: Option<Seq<char>>,
    pub text: Option<Seq<char>>,
    pub error: Option<Seq<char>>,
    pub message: Option<Seq<char>>,
    pub extension_connected: Option<bool>,
}

impl View for Incoming {
    type V = IncomingView;

    open spec fn view(&self) -> IncomingView {
        IncomingView {
            kind: opt_view(self.kind),
            id: opt_view(self.id),
            text: opt_view(self.text),
            error: opt_view(self.error),
            message: opt_view(self.message),
            extension_connected: self.extension_connected,
        }
    }
}

/// What the text frame `text` holds in the members that are read.
pub open spec fn incoming_of(text: Seq<char>) -> IncomingView {
    IncomingView {
        kind: json_member_text(text, "type"@),
        id: json_member_text(text, "id"@),
        text: json_member_text(text, "text"@),
        error: json_member_text(text, "error"@),
        message: json_member_text(text, "message"@),
        extension_connected: json_member_flag(text, "extension_connected"@),
    }
}

/// Reads the members of the text frame `text`.
pub fn decode_incoming(text: &str) -> (r: Incoming)
    ensures
        r@ == incoming_of(text@),
{
    Incoming {
        kind: json_string_member(text, "type"),
        id: json_string_member(text, "id"),
        text: json_string_member(text, "text"),
        error: json_string_member(text, "error"),
        message: json_string_member(text, "message"),
        extension_connected: json_bool_member(text, "extension_connected"),
    }
}

/// A message that the relay or the client sends.
pub enum Outgoing {
    /// The answer to question `id`.
    Response { id: String, text: String },
    /// The failure of question `id`.
    Error { id: String, error: String },
    /// Question `id`, from a client to the relay or from the relay to the extension.
    Ask { id: String, message: String },
    /// A client asks the relay whether the extension is connected.
    StatusQuery,
    /// The relay's answer to a status query.
    StatusResponse { extension_connected: bool },
}

/// The view of a message: its strings as sequences of characters.
pub enum OutgoingView {
    Response { id: Seq<char>, text: Seq<char> },
    Error { id: Seq<char>, error: Seq<char> },
    Ask { id: Seq<char>, message: Seq<char> },
    StatusQuery,
    StatusResponse { extension_connected: bool },
}

impl View for Outgoing {
    type V = OutgoingView;

    open spec fn view(&self) -> OutgoingView {
        match self {
            Outgoing::Response { id, text } => OutgoingView::Response { id: id@, text: text@ },
            Outgoing::Error { id, error } => OutgoingView::Error { id: id@, error: error@ },
            Outgoing::Ask { id, message } => OutgoingView::Ask { id: id@, message: message@ },
            Outgoing::StatusQuery => OutgoingView::StatusQuery,
            Outgoing::StatusResponse { extension_connected } => OutgoingView::StatusResponse {
                extension_connected: *extension_connected,
            },
        }
    }
}

/// The JSON literal of a boolean.
pub open spec fn json_bool(b: bool) -> Seq<char> {
    if b {
        "true"@
    } else {
        "false"@
    }
}

impl OutgoingView {
    /// The JSON text of the message: an object with the members in key order.
    pub open spec fn encoded(self) -> Seq<char> {
        match self {
            OutgoingView::Response { id, text } => "{\"id\":"@ + json_quoted(id) + ",\"text\":"@
                + json_quoted(text) + ",\"type\":\"response\"}"@,
            OutgoingView::Error { id, error } => "{\"error\":"@ + json_quoted(error)
                + ",\"id\":"@ + json_quoted(id) + ",\"type\":\"error\"}"@,
            OutgoingView::Ask { id, message } => "{\"id\":"@ + json_quoted(id) + ",\"message\":"@
                + json_quoted(message) + ",\"type\":\"ask\"}"@,
            OutgoingView::StatusQuery => "{\"type\":\"status_query\"}"@,
            OutgoingView::StatusResponse { extension_connected } => "{\"extension_connected\":"@
                + json_bool(extension_connected) + ",\"type\":\"status_response\"}"@,
        }
    }
}

impl Outgoing {
    /// Writes the message as JSON text.
    pub fn encode(&self) -> (r: String)
        ensures
            r@ == self@.encoded(),
    {
        let mut out = String::new();
        match self {
            Outgoing::Response { id, text } => {
                out.append("{\"id\":");
                out.append(json_string_literal(id.as_str()).as_str());
                out.append(",\"text\":");
                out.append(json_string_literal(text.as_str()).as_str());
                out.append(",\"type\":\"response\"}");
            },
            Outgoing::Error { id, error } => {
                out.append("{\"error\":");
                out.append(json_string_literal(error.as_str()).as_str());
                out.append(",\"id\":");
                out.append(json_string_literal(id.as_str()).as_str());
                out.append(",\"type\":\"error\"}");
            },
            Outgoing::Ask { id, message } => {
                out.append("{\"id\":");
                out.append(json_string_literal(id.as_str()).as_str());
                out.append(",\"message\":");
                out.append(json_string_literal(message.as_str()).as_str());
                out.append(",\"type\":\"ask\"}");
            },
            Outgoing::StatusQuery => {
                out.append("{\"type\":\"status_query\"}");
            },
            Outgoing::StatusResponse { extension_connected } => {
                out.append("{\"extension_connected\":");
                if *extension_connected {
                    out.append("true");
                } else {
                    out.append("false");
                }
                out.append(",\"type\":\"status_response\"}");
            },
        }
        proof {
            assert(Seq::<char>::empty() + "{\"id\":"@ =~= "{\"id\":"@);
            assert(Seq::<char>::empty() + "{\"error\":"@ =~= "{\"error\":"@);
            assert(Seq::<char>::empty() + "{\"type\":\"status_query\"}"@
                =~= "{\"type\":\"status_query\"}"@);
            assert(Seq::<char>::empty() + "{\"extension_connected\":"@
                =~= "{\"extension_connected\":"@);
        }
        out
    }
}

} // verus!
