//! A Model Context Protocol server over the store of shared context: what each JSON-RPC
//! message asks for and the line that answers it.

use vstd::prelude::*;
use crate::mission_id::a_text_denotes_one_identifier;
use crate::mission_id::denotes;
use crate::mission_id::hex_char;
use crate::mission_id::hyphenated_form;
use crate::mission_id::MissionId;
use crate::shared_context::clock_instant;
use crate::shared_context::stamped;
use crate::shared_context::a_recorded_row_is_read_last;
use crate::shared_context::artifact_reads;
use crate::shared_context::bound_follows_time;
use crate::shared_context::decision_reads;
use crate::shared_context::evidence_reads;
use crate::shared_context::first_refusal;
use crate::shared_context::keys;
use crate::shared_context::none_later;
use crate::shared_context::recent;
use crate::shared_context::rows_read;
use crate::shared_context::since_bound;
use crate::shared_context::MissionContext;
use crate::shared_context::SharedContextStore;
use crate::shared_context::StoredRow;
use crate::shared_context::MAX_CONTEXT_ROWS_PER_TABLE;
use crate::shared_context::UNKNOWN_AUTHOR;
use crate::text::decimal;
use crate::text::decimal_text;
use crate::text::has_prefix;
use crate::text::nonempty_trimmed;
use crate::text::opt_view;
use crate::text::signed_decimal;
use crate::text::signed_decimal_text;
use crate::text::text_eq;
use crate::text::trim_nonempty;
use crate::time::from_rfc3339;
use crate::time::rfc3339_instant;
use crate::time::Timestamp;

verus! {

pub const PROTOCOL_VERSION: &'static str = "2025-06-18";

pub const SERVER_NAME: &'static str = "shared-context-mcp";

pub const SERVER_VERSION: &'static str = "0.1.0";

pub const METHOD_NOT_FOUND: i32 = -32601;

pub const INVALID_PARAMS: i32 = -32602;

pub const PARSE_ERROR: i32 = -32700;

pub const MISSION_ID_HINT: &'static str =
    "If you do not know the current mission_id, check the initial task description you were given for a Mission id. If none is present, this conversation is not part of a Mission, and you should not call this tool.";

/// A JSON value, as far as the arguments of a call are read.
pub enum Json {
    Null,
    Bool(bool),
    /// A whole number from 0 on.
    PosInt(u64),
    /// A whole number below 0.
    NegInt(i64),
    /// Any other number, as it is written.
    Float(String),
    Str(String),
    Array(Vec<Json>),
    Object(Vec<(String, Json)>),
}

/// The value of `key` among the members of an object.
pub open spec fn lookup(fields: Seq<(String, Json)>, key: Seq<char>) -> Option<Json>
    decreases fields.len(),
{
    if fields.len() == 0 {
        None
    } else if fields[0].0@ == key {
        Some(fields[0].1)
    } else {
        lookup(fields.subrange(1, fields.len() as int), key)
    }
}

impl Json {
    /// The member `key`, where this is an object that has one.
    pub open spec fn member(self, key: Seq<char>) -> Option<Json> {
        match self {
            Json::Object(fields) => lookup(fields@, key),
            _ => None,
        }
    }

    /// The text, where this is a string.
    pub open spec fn string_value(self) -> Option<Seq<char>> {
        match self {
            Json::Str(s) => Some(s@),
            _ => None,
        }
    }

    /// The number, where this is a whole one that 64 bits with a sign can hold.
    pub open spec fn int_value(self) -> Option<i64> {
        match self {
            Json::PosInt(n) => if n <= i64::MAX {
                Some(n as i64)
            } else {
                None
            },
            Json::NegInt(n) => Some(n),
            _ => None,
        }
    }

    /// The member `key`, where this is an object that has one.
    pub fn get(&self, key: &str) -> (r: Option<&Json>)
        ensures
            match r {
                Some(value) => self.member(key@) == Some(*value),
                None => self.member(key@) is None,
            },
    {
        match self {
            Json::Object(fields) => {
                let mut i: usize = 0;
                assert(fields@.subrange(0, fields@.len() as int) =~= fields@);
                while i < fields.len()
                    invariant
                        i <= fields.len(),
                        self.member(key@) == lookup(fields@, key@),
                        lookup(fields@, key@) == lookup(
                            fields@.subrange(i as int, fields@.len() as int),
                            key@,
                        ),
                    decreases fields.len() - i,
                {
                    let ghost rest = fields@.subrange(i as int, fields@.len() as int);
                    assert(rest[0] == fields[i as int]);
                    assert(rest.subrange(1, rest.len() as int) =~= fields@.subrange(
                        i + 1,
                        fields@.len() as int,
                    ));
                    if text_eq(fields[i].0.as_str(), key) {
                        assert(self.member(key@) == Some(fields[i as int].1));
                        return Some(&fields[i].1);
                    }
                    i += 1;
                }
                None
            },
            _ => None,
        }
    }

    /// The text, where this is a string.
    pub fn as_str(&self) -> (r: Option<&str>)
        ensures
            match r {
                Some(s) => self.string_value() == Some(s@),
                None => self.string_value() is None,
            },
    {
        match self {
            Json::Str(s) => Some(s.as_str()),
            _ => None,
        }
    }

    /// The number, where this is a whole one that 64 bits with a sign can hold.
    pub fn as_i64(&self) -> (r: Option<i64>)
        ensures
            r == self.int_value(),
    {
        match self {
            Json::PosInt(n) => if *n <= i64::MAX as u64 {
                Some(*n as i64)
            } else {
                None
            },
            Json::NegInt(n) => Some(*n),
            _ => None,
        }
    }
}

/// A message of the wire: `id` as JSON text, absent for a notification.
pub struct IncomingMessage {
    pub id: Option<String>,
    pub method: String,
    pub params: Option<Json>,
}

/// A character inside a JSON string: quotes, backslashes and control characters are escaped,
/// the latter with a letter of their own where JSON has one.
pub open spec fn json_escaped(c: char) -> Seq<char> {
    if c == '"' || c == '\\' {
        seq!['\\', c]
    } else if c == '\u{8}' {
        seq!['\\', 'b']
    } else if c == '\t' {
        seq!['\\', 't']
    } else if c == '\n' {
        seq!['\\', 'n']
    } else if c == '\u{c}' {
        seq!['\\', 'f']
    } else if c == '\r' {
        seq!['\\', 'r']
    } else if (c as u128) < 32 {
        seq![
            '\\',
            'u',
            '0',
            '0',
            hex_char((c as u128) / 16),
            hex_char((c as u128) % 16),
        ]
    } else {
        seq![c]
    }
}

/// The characters of a text as they stand inside a JSON string.
pub open spec fn json_body(s: Seq<char>) -> Seq<char>
    decreases s.len(),
{
    if s.len() == 0 {
        Seq::empty()
    } else {
        json_body(s.drop_last()) + json_escaped(s.last())
    }
}

/// A text as a JSON string.
pub open spec fn json_quoted(s: Seq<char>) -> Seq<char> {
    seq!['"'] + json_body(s) + seq!['"']
}

/// `serde_json::to_string` of a text: the JSON string for it, in which only quotes,
/// backslashes and the control characters below the space are escaped.
#[verifier::external_body]
pub(crate) fn quote_json(s: &str) -> (r: String)
    ensures
        r@ == json_quoted(s@),
{
    serde_json::to_string(s).unwrap()
}

/// Whether a text holds no line break.
pub open spec fn one_line(s: Seq<char>) -> bool {
    forall|i: int| 0 <= i < s.len() ==> #[trigger] s[i] != '\n'
}

/// The line of a successful answer.
pub open spec fn ok_line(id: Seq<char>, result: Seq<char>) -> Seq<char> {
    "{\"jsonrpc\":\"2.0\",\"id\":"@ + id + ",\"result\":"@ + result + "}"@
}

/// The line of a refusal.
pub open spec fn err_line(id: Seq<char>, code: i32, message: Seq<char>) -> Seq<char> {
    "{\"jsonrpc\":\"2.0\",\"id\":"@ + id + ",\"error\":{\"code\":"@ + signed_decimal(code as int)
        + ",\"message\":"@ + json_quoted(message) + "}}"@
}

/// The result of a tool that did its work.
pub open spec fn tool_text(text: Seq<char>) -> Seq<char> {
    "{\"content\":[{\"type\":\"text\",\"text\":"@ + json_quoted(text) + "}]}"@
}

/// The result of a tool that failed.
pub open spec fn tool_error(text: Seq<char>) -> Seq<char> {
    "{\"content\":[{\"type\":\"text\",\"text\":"@ + json_quoted(text) + "}],\"isError\":true}"@
}

proof fn json_body_is_one_line(s: Seq<char>)
    ensures
        one_line(json_body(s)),
    decreases s.len(),
{
    if s.len() > 0 {
        json_body_is_one_line(s.drop_last());
        assert(one_line(json_escaped(s.last())));
    }
}

/// However many lines a text has, as a JSON string it has one.
pub proof fn a_json_string_is_one_line(s: Seq<char>)
    ensures
        one_line(json_quoted(s)),
{
    json_body_is_one_line(s);
}

proof fn decimal_is_one_line(n: nat)
    ensures
        one_line(decimal(n)),
    decreases n,
{
    if n >= 10 {
        decimal_is_one_line(n / 10);
    }
}

proof fn digits_are_one_line(n: int)
    ensures
        one_line(signed_decimal(n)),
{
    decimal_is_one_line(if n < 0 { (-n) as nat } else { n as nat });
}

/// The line of a successful answer.
fn ok_response(id: &str, result: &str) -> (r: String)
    ensures
        r@ == ok_line(id@, result@),
        one_line(id@) && one_line(result@) ==> one_line(r@),
{
    proof {
        reveal_strlit("{\"jsonrpc\":\"2.0\",\"id\":");
        reveal_strlit(",\"result\":");
        reveal_strlit("}");
    }
    let mut r = "{\"jsonrpc\":\"2.0\",\"id\":".to_owned();
    r.append(id);
    r.append(",\"result\":");
    r.append(result);
    r.append("}");
    r
}

/// The line of a refusal.
fn err_response(id: &str, code: i32, message: &str) -> (r: String)
    ensures
        r@ == err_line(id@, code, message@),
        one_line(id@) ==> one_line(r@),
{
    proof {
        reveal_strlit("{\"jsonrpc\":\"2.0\",\"id\":");
        reveal_strlit(",\"error\":{\"code\":");
        reveal_strlit(",\"message\":");
        reveal_strlit("}}");
        digits_are_one_line(code as int);
        a_json_string_is_one_line(message@);
    }
    let mut r = "{\"jsonrpc\":\"2.0\",\"id\":".to_owned();
    r.append(id);
    r.append(",\"error\":{\"code\":");
    r.append(signed_decimal_text(code).as_str());
    r.append(",\"message\":");
    r.append(quote_json(message).as_str());
    r.append("}}");
    r
}

/// The result of a tool: its text, or the words of its failure.
fn tool_result(outcome: &Result<String, String>) -> (r: String)
    ensures
        r@ == match *outcome {
            Ok(text) => tool_text(text@),
            Err(e) => tool_error(e@),
        },
        one_line(r@),
{
    proof {
        reveal_strlit("{\"content\":[{\"type\":\"text\",\"text\":");
        reveal_strlit("}]}");
        reveal_strlit("}],\"isError\":true}");
        match outcome {
            Ok(text) => a_json_string_is_one_line(text@),
            Err(e) => a_json_string_is_one_line(e@),
        }
    }
    let mut r = "{\"content\":[{\"type\":\"text\",\"text\":".to_owned();
    match outcome {
        Ok(text) => {
            r.append(quote_json(text.as_str()).as_str());
            r.append("}]}");
        },
        Err(e) => {
            r.append(quote_json(e.as_str()).as_str());
            r.append("}],\"isError\":true}");
        },
    }
    r
}

/// What a tool call asks of the store.
pub enum ToolRequest {
    RecordDecision {
        mission_id: MissionId,
        key: String,
        value: String,
        author: String,
        role: Option<String>,
    },
    RecordArtifact {
        mission_id: MissionId,
        path: String,
        change_summary: String,
        author: String,
        role: Option<String>,
    },
    RecordEvidence {
        mission_id: MissionId,
        command: String,
        result: String,
        exit_code: Option<i32>,
        author: String,
        role: Option<String>,
    },
    ReadContext { mission_id: MissionId, since: Option<Timestamp> },
}

/// The mathematical value of a `ToolRequest`.
pub enum RequestView {
    RecordDecision {
        mission_id: MissionId,
        key: Seq<char>,
        value: Seq<char>,
        author: Seq<char>,
        role: Option<Seq<char>>,
    },
    RecordArtifact {
        mission_id: MissionId,
        path: Seq<char>,
        change_summary: Seq<char>,
        author: Seq<char>,
        role: Option<Seq<char>>,
    },
    RecordEvidence {
        mission_id: MissionId,
        command: Seq<char>,
        result: Seq<char>,
        exit_code: Option<i32>,
        author: Seq<char>,
        role: Option<Seq<char>>,
    },
    ReadContext { mission_id: MissionId, since: Option<Timestamp> },
}

impl View for ToolRequest {
    type V = RequestView;

    open spec fn view(&self) -> RequestView {
        match *self {
            ToolRequest::RecordDecision { mission_id, key, value, author, role } => {
                RequestView::RecordDecision {
                    mission_id,
                    key: key@,
                    value: value@,
                    author: author@,
                    role: opt_view(role),
                }
            },
            ToolRequest::RecordArtifact { mission_id, path, change_summary, author, role } => {
                RequestView::RecordArtifact {
                    mission_id,
                    path: path@,
                    change_summary: change_summary@,
                    author: author@,
                    role: opt_view(role),
                }
            },
            ToolRequest::RecordEvidence { mission_id, command, result, exit_code, author, role } => {
                RequestView::RecordEvidence {
                    mission_id,
                    command: command@,
                    result: result@,
                    exit_code,
                    author: author@,
                    role: opt_view(role),
                }
            },
            ToolRequest::ReadContext { mission_id, since } => {
                RequestView::ReadContext { mission_id, since }
            },
        }
    }
}

/// The text argument `key`.
pub open spec fn text_argument(args: Json, key: Seq<char>) -> Option<Seq<char>> {
    match args.member(key) {
        Some(value) => value.string_value(),
        None => None,
    }
}

/// The words for an argument that is not there.
pub open spec fn missing_argument(key: Seq<char>) -> Seq<char> {
    "missing required argument `"@ + key + "`"@
}

/// The text argument `key`, or the words for its absence.
pub open spec fn required_argument(args: Json, key: Seq<char>) -> Result<Seq<char>, Seq<char>> {
    match text_argument(args, key) {
        Some(text) => Ok(text),
        None => Err(missing_argument(key)),
    }
}

/// The author that a call names, or the author of those who name none.
pub open spec fn author_argument(args: Json) -> Seq<char> {
    match text_argument(args, "author"@) {
        Some(text) => text,
        None => UNKNOWN_AUTHOR@,
    }
}

/// The role that a call names: the trimmed text, where anything is left of it.
pub open spec fn role_argument(args: Json) -> Option<Seq<char>> {
    match text_argument(args, "role"@) {
        Some(text) => nonempty_trimmed(text),
        None => None,
    }
}

/// The mission that a text denotes.
pub open spec fn mission_denoted(s: Seq<char>) -> Option<MissionId> {
    if exists|v: u128| denotes(s, v) {
        Some(MissionId { value: choose|v: u128| denotes(s, v) })
    } else {
        None
    }
}

/// The mission that a call names.
pub open spec fn mission_argument(args: Json) -> Result<MissionId, Seq<char>> {
    match required_argument(args, "mission_id"@) {
        Err(e) => Err(e),
        Ok(text) => match mission_denoted(text) {
            Some(id) => Ok(id),
            None => Err("invalid mission id"@),
        },
    }
}

/// The exit code that a call names; a number that 32 bits cannot hold is none.
pub open spec fn exit_code_argument(args: Json) -> Option<i32> {
    match args.member("exit_code"@) {
        Some(value) => match value.int_value() {
            Some(code) => if i32::MIN <= code <= i32::MAX {
                Some(code as i32)
            } else {
                None
            },
            None => None,
        },
        None => None,
    }
}

/// What a call of `record_decision` asks for; arguments are looked at in this order.
pub open spec fn decision_request(args: Json) -> Result<RequestView, Seq<char>> {
    match mission_argument(args) {
        Err(e) => Err(e),
        Ok(mission_id) => match required_argument(args, "key"@) {
            Err(e) => Err(e),
            Ok(key) => match required_argument(args, "value"@) {
                Err(e) => Err(e),
                Ok(value) => Ok(
                    RequestView::RecordDecision {
                        mission_id,
                        key,
                        value,
                        author: author_argument(args),
                        role: role_argument(args),
                    },
                ),
            },
        },
    }
}

/// What a call of `record_artifact` asks for.
pub open spec fn artifact_request(args: Json) -> Result<RequestView, Seq<char>> {
    match mission_argument(args) {
        Err(e) => Err(e),
        Ok(mission_id) => match required_argument(args, "path"@) {
            Err(e) => Err(e),
            Ok(path) => match required_argument(args, "change_summary"@) {
                Err(e) => Err(e),
                Ok(change_summary) => Ok(
                    RequestView::RecordArtifact {
                        mission_id,
                        path,
                        change_summary,
                        author: author_argument(args),
                        role: role_argument(args),
                    },
                ),
            },
        },
    }
}

/// What a call of `record_evidence` asks for.
pub open spec fn evidence_request(args: Json) -> Result<RequestView, Seq<char>> {
    match mission_argument(args) {
        Err(e) => Err(e),
        Ok(mission_id) => match required_argument(args, "command"@) {
            Err(e) => Err(e),
            Ok(command) => match required_argument(args, "result"@) {
                Err(e) => Err(e),
                Ok(result) => Ok(
                    RequestView::RecordEvidence {
                        mission_id,
                        command,
                        result,
                        exit_code: exit_code_argument(args),
                        author: author_argument(args),
                        role: role_argument(args),
                    },
                ),
            },
        },
    }
}

/// What a call of `get_mission_context` asks for.
pub open spec fn context_request(args: Json) -> Result<RequestView, Seq<char>> {
    match mission_argument(args) {
        Err(e) => Err(e),
        Ok(mission_id) => match text_argument(args, "since"@) {
            None => Ok(RequestView::ReadContext { mission_id, since: None }),
            Some(raw) => match rfc3339_instant(raw) {
                Ok((seconds, nanos)) => Ok(
                    RequestView::ReadContext { mission_id, since: Some(Timestamp { seconds, nanos }) },
                ),
                Err(_) => Err("invalid `since` timestamp `"@ + raw + "`"@),
            },
        },
    }
}

/// Whether `r` is, by its view, the request or the words of refusal `expected`.
pub open spec fn request_is(
    r: Result<ToolRequest, String>,
    expected: Result<RequestView, Seq<char>>,
) -> bool {
    match r {
        Ok(request) => expected == Ok::<RequestView, Seq<char>>(request@),
        Err(e) => expected == Err::<RequestView, Seq<char>>(e@),
    }
}

/// The text argument `key`, or the words for its absence.
fn required_str(args: &Json, key: &str) -> (r: Result<String, String>)
    ensures
        match r {
            Ok(text) => required_argument(*args, key@) == Ok::<Seq<char>, Seq<char>>(text@),
            Err(e) => required_argument(*args, key@) == Err::<Seq<char>, Seq<char>>(e@),
        },
{
    let found = match args.get(key) {
        Some(value) => value.as_str(),
        None => None,
    };
    match found {
        Some(text) => Ok(text.to_owned()),
        None => {
            let mut e = "missing required argument `".to_owned();
            e.append(key);
            e.append("`");
            Err(e)
        },
    }
}

/// The text argument `key`, or `default`.
fn optional_str(args: &Json, key: &str, default: &str) -> (r: String)
    ensures
        r@ == match text_argument(*args, key@) {
            Some(text) => text,
            None => default@,
        },
{
    let found = match args.get(key) {
        Some(value) => value.as_str(),
        None => None,
    };
    match found {
        Some(text) => text.to_owned(),
        None => default.to_owned(),
    }
}

/// The role that a call names, where it names one.
fn optional_role(args: &Json) -> (r: Option<String>)
    ensures
        opt_view(r) == role_argument(*args),
{
    let found = match args.get("role") {
        Some(value) => value.as_str(),
        None => None,
    };
    match found {
        Some(text) => trim_nonempty(text),
        None => None,
    }
}

/// The mission that a call names.
fn parse_mission_id(args: &Json) -> (r: Result<MissionId, String>)
    ensures
        match r {
            Ok(id) => mission_argument(*args) == Ok::<MissionId, Seq<char>>(id),
            Err(e) => mission_argument(*args) == Err::<MissionId, Seq<char>>(e@),
        },
{
    match required_str(args, "mission_id") {
        Err(e) => Err(e),
        Ok(text) => match MissionId::from_key_string(text.as_str()) {
            Ok(id) => {
                proof {
                    assert(denotes(text@, id.value));
                    let w = choose|v: u128| denotes(text@, v);
                    a_text_denotes_one_identifier(text@, id.value, w);
                }
                Ok(id)
            },
            Err(_) => Err("invalid mission id".to_owned()),
        },
    }
}

/// What a call of `record_decision` asks for.
fn call_record_decision(args: &Json) -> (r: Result<ToolRequest, String>)
    ensures
        request_is(r, decision_request(*args)),
{
    let mission_id = match parse_mission_id(args) {
        Ok(id) => id,
        Err(e) => return Err(e),
    };
    let key = match required_str(args, "key") {
        Ok(text) => text,
        Err(e) => return Err(e),
    };
    let value = match required_str(args, "value") {
        Ok(text) => text,
        Err(e) => return Err(e),
    };
    let author = optional_str(args, "author", UNKNOWN_AUTHOR);
    let role = optional_role(args);
    Ok(ToolRequest::RecordDecision { mission_id, key, value, author, role })
}

/// What a call of `record_artifact` asks for.
fn call_record_artifact(args: &Json) -> (r: Result<ToolRequest, String>)
    ensures
        request_is(r, artifact_request(*args)),
{
    let mission_id = match parse_mission_id(args) {
        Ok(id) => id,
        Err(e) => return Err(e),
    };
    let path = match required_str(args, "path") {
        Ok(text) => text,
        Err(e) => return Err(e),
    };
    let change_summary = match required_str(args, "change_summary") {
        Ok(text) => text,
        Err(e) => return Err(e),
    };
    let author = optional_str(args, "author", UNKNOWN_AUTHOR);
    let role = optional_role(args);
    Ok(ToolRequest::RecordArtifact { mission_id, path, change_summary, author, role })
}

/// What a call of `record_evidence` asks for.
fn call_record_evidence(args: &Json) -> (r: Result<ToolRequest, String>)
    ensures
        request_is(r, evidence_request(*args)),
{
    let mission_id = match parse_mission_id(args) {
        Ok(id) => id,
        Err(e) => return Err(e),
    };
    let command = match required_str(args, "command") {
        Ok(text) => text,
        Err(e) => return Err(e),
    };
    let result = match required_str(args, "result") {
        Ok(text) => text,
        Err(e) => return Err(e),
    };
    let exit_code = match args.get("exit_code") {
        Some(value) => match value.as_i64() {
            Some(code) => if i32::MIN as i64 <= code && code <= i32::MAX as i64 {
                Some(code as i32)
            } else {
                None
            },
            None => None,
        },
        None => None,
    };
    let author = optional_str(args, "author", UNKNOWN_AUTHOR);
    let role = optional_role(args);
    Ok(ToolRequest::RecordEvidence { mission_id, command, result, exit_code, author, role })
}

/// Whether the bound of a reading, if any, is an instant of the calendar.
pub open spec fn bound_valid(request: RequestView) -> bool {
    match request {
        RequestView::ReadContext { mission_id, since } => match since {
            Some(t) => t.valid(),
            None => true,
        },
        _ => true,
    }
}

/// What a call of `get_mission_context` asks for.
fn call_get_mission_context(args: &Json) -> (r: Result<ToolRequest, String>)
    ensures
        request_is(r, context_request(*args)),
        r matches Ok(request) ==> bound_valid(request@),
{
    let mission_id = match parse_mission_id(args) {
        Ok(id) => id,
        Err(e) => return Err(e),
    };
    let found = match args.get("since") {
        Some(value) => value.as_str(),
        None => None,
    };
    match found {
        None => Ok(ToolRequest::ReadContext { mission_id, since: None }),
        Some(raw) => match from_rfc3339(raw) {
            Ok(t) => Ok(ToolRequest::ReadContext { mission_id, since: Some(t) }),
            Err(_) => {
                let mut e = "invalid `since` timestamp `".to_owned();
                e.append(raw);
                e.append("`");
                Err(e)
            },
        },
    }
}

impl ToolRequest {
    /// The words that confirm a recording; a reading answers with what it reads.
    pub fn confirmation(&self) -> (r: String)
        ensures
            r@ == confirmation_text(self@),
    {
        match self {
            ToolRequest::RecordDecision { mission_id, key, .. } => {
                let mut r = "Recorded decision `".to_owned();
                r.append(key.as_str());
                r.append("` for mission ");
                r.append(mission_id.to_key_string().as_str());
                r.append(".");
                r
            },
            ToolRequest::RecordArtifact { mission_id, path, .. } => {
                let mut r = "Recorded artifact change to `".to_owned();
                r.append(path.as_str());
                r.append("` for mission ");
                r.append(mission_id.to_key_string().as_str());
                r.append(".");
                r
            },
            ToolRequest::RecordEvidence { mission_id, command, .. } => {
                let mut r = "Recorded evidence for `".to_owned();
                r.append(command.as_str());
                r.append("` for mission ");
                r.append(mission_id.to_key_string().as_str());
                r.append(".");
                r
            },
            ToolRequest::ReadContext { .. } => String::new(),
        }
    }
}

/// The words that confirm a recording.
pub open spec fn confirmation_text(request: RequestView) -> Seq<char> {
    match request {
        RequestView::RecordDecision { mission_id, key, .. } => "Recorded decision `"@ + key
            + "` for mission "@ + hyphenated_form(mission_id.value) + "."@,
        RequestView::RecordArtifact { mission_id, path, .. } => "Recorded artifact change to `"@
            + path + "` for mission "@ + hyphenated_form(mission_id.value) + "."@,
        RequestView::RecordEvidence { mission_id, command, .. } => "Recorded evidence for `"@
            + command + "` for mission "@ + hyphenated_form(mission_id.value) + "."@,
        RequestView::ReadContext { .. } => Seq::empty(),
    }
}

/// What the parameters of `tools/call` come to: a request to the store, a tool's failure,
/// or a refusal of the call.
pub enum CallView {
    Request(RequestView),
    Failed(Seq<char>),
    Refused(i32, Seq<char>),
}

/// The call that a tool's name and arguments make.
pub open spec fn named_call(name: Seq<char>, args: Json) -> CallView {
    if name == "record_decision"@ {
        requested(decision_request(args))
    } else if name == "record_artifact"@ {
        requested(artifact_request(args))
    } else if name == "record_evidence"@ {
        requested(evidence_request(args))
    } else if name == "get_mission_context"@ {
        requested(context_request(args))
    } else {
        CallView::Refused(INVALID_PARAMS, "unknown tool: "@ + name)
    }
}

pub open spec fn requested(r: Result<RequestView, Seq<char>>) -> CallView {
    match r {
        Ok(request) => CallView::Request(request),
        Err(e) => CallView::Failed(e),
    }
}

/// The call that the parameters of `tools/call` make. Without `arguments`, a call has none.
pub open spec fn tool_call(params: Option<Json>) -> CallView {
    match params {
        None => CallView::Refused(INVALID_PARAMS, "missing params"@),
        Some(p) => match text_argument(p, "name"@) {
            None => CallView::Refused(INVALID_PARAMS, "missing tool name"@),
            Some(name) => named_call(
                name,
                match p.member("arguments"@) {
                    Some(args) => args,
                    None => Json::Null,
                },
            ),
        },
    }
}

/// What is to be done about a message.
pub enum Step {
    /// A notification: nothing is written back.
    Silent,
    /// This line is written back.
    Respond(String),
    /// The store does what `request` says, and `finish_call` makes the answer of the outcome.
    Call { id: String, request: ToolRequest },
}

/// The mathematical value of a `Step`.
pub enum StepView {
    Silent,
    Respond(Seq<char>),
    Call { id: Seq<char>, request: RequestView },
}

impl View for Step {
    type V = StepView;

    open spec fn view(&self) -> StepView {
        match *self {
            Step::Silent => StepView::Silent,
            Step::Respond(line) => StepView::Respond(line@),
            Step::Call { id, request } => StepView::Call { id: id@, request: request@ },
        }
    }
}

/// The step that a tool call, with the message's id, comes to.
pub open spec fn call_step(id: Seq<char>, call: CallView) -> StepView {
    match call {
        CallView::Request(request) => StepView::Call { id, request },
        CallView::Failed(e) => StepView::Respond(ok_line(id, tool_error(e))),
        CallView::Refused(code, message) => StepView::Respond(err_line(id, code, message)),
    }
}

/// The result of `initialize`.
pub open spec fn initialize_text() -> Seq<char> {
    "{\"protocolVersion\":\""@ + PROTOCOL_VERSION@
        + "\",\"capabilities\":{\"tools\":{}},\"serverInfo\":{\"name\":\""@ + SERVER_NAME@
        + "\",\"version\":\""@ + SERVER_VERSION@ + "\"}}"@
}

/// The step that a request comes to.
pub open spec fn request_step(id: Seq<char>, method: Seq<char>, params: Option<Json>) -> StepView {
    if method == "initialize"@ {
        StepView::Respond(ok_line(id, initialize_text()))
    } else if method == "ping"@ {
        StepView::Respond(ok_line(id, "{}"@))
    } else if method == "tools/list"@ {
        StepView::Respond(ok_line(id, "{\"tools\":"@ + tool_definitions_text() + "}"@))
    } else if method == "tools/call"@ {
        call_step(id, tool_call(params))
    } else {
        StepView::Respond(err_line(id, METHOD_NOT_FOUND, "unknown method: "@ + method))
    }
}

/// The step that a message comes to; `Err` holds the words with which a line was refused
/// as no message.
pub open spec fn message_step(message: Result<IncomingMessage, String>) -> StepView {
    match message {
        Err(e) => StepView::Respond(err_line("null"@, PARSE_ERROR, e@)),
        Ok(m) => match m.id {
            None => StepView::Silent,
            Some(id) => request_step(id@, m.method@, m.params),
        },
    }
}

/// The answer to a call, from what the store made of it.
pub open spec fn finished_line(id: Seq<char>, outcome: Result<String, String>) -> Seq<char> {
    match outcome {
        Ok(text) => ok_line(id, tool_text(text@)),
        Err(e) => ok_line(id, tool_error(e@)),
    }
}

/// The answer to a call, from what the store made of it: the text of the tool's success, or
/// the words of its failure.
pub fn finish_call(id: &str, outcome: &Result<String, String>) -> (r: String)
    ensures
        r@ == finished_line(id@, *outcome),
        one_line(id@) ==> one_line(r@),
{
    let result = tool_result(outcome);
    ok_response(id, result.as_str())
}

/// Whether the id of a message, where it has one, holds no line break.
pub open spec fn id_is_one_line(message: Result<IncomingMessage, String>) -> bool {
    match message {
        Ok(m) => match m.id {
            Some(id) => one_line(id@),
            None => true,
        },
        Err(_) => true,
    }
}

/// What the parameters of `tools/call` come to, as a step.
fn handle_tool_call(id: String, params: &Option<Json>) -> (r: Step)
    ensures
        r@ == call_step(id@, tool_call(*params)),
        r matches Step::Respond(line) ==> (one_line(id@) ==> one_line(line@)),
        r matches Step::Call { id, request } ==> bound_valid(request@),
{
    let params = match params {
        Some(p) => p,
        None => return Step::Respond(err_response(id.as_str(), INVALID_PARAMS, "missing params")),
    };
    let found = match params.get("name") {
        Some(value) => value.as_str(),
        None => None,
    };
    let name = match found {
        Some(name) => name,
        None => return Step::Respond(err_response(id.as_str(), INVALID_PARAMS, "missing tool name")),
    };
    let nothing = Json::Null;
    let arguments = match params.get("arguments") {
        Some(args) => args,
        None => &nothing,
    };
    let request = if text_eq(name, "record_decision") {
        call_record_decision(arguments)
    } else if text_eq(name, "record_artifact") {
        call_record_artifact(arguments)
    } else if text_eq(name, "record_evidence") {
        call_record_evidence(arguments)
    } else if text_eq(name, "get_mission_context") {
        call_get_mission_context(arguments)
    } else {
        let mut message = "unknown tool: ".to_owned();
        message.append(name);
        return Step::Respond(err_response(id.as_str(), INVALID_PARAMS, message.as_str()));
    };
    match request {
        Ok(request) => Step::Call { id, request },
        Err(e) => Step::Respond(finish_call(id.as_str(), &Err(e))),
    }
}

/// What is to be done about a message, or about a line that was refused as no message.
pub fn begin_message(message: Result<IncomingMessage, String>) -> (r: Step)
    ensures
        r@ == message_step(message),
        r matches Step::Respond(line) ==> (id_is_one_line(message) ==> one_line(line@)),
        r matches Step::Call { id, request } ==> bound_valid(request@),
{
    proof {
        reveal_strlit("null");
        reveal_strlit("{}");
        reveal_strlit("{\"tools\":");
        reveal_strlit("}");
        initialize_is_one_line();
    }
    let m = match message {
        Ok(m) => m,
        Err(e) => return Step::Respond(err_response("null", PARSE_ERROR, e.as_str())),
    };
    let id = match m.id {
        Some(id) => id,
        None => return Step::Silent,
    };
    let method = m.method.as_str();
    if text_eq(method, "initialize") {
        let mut result = "{\"protocolVersion\":\"".to_owned();
        result.append(PROTOCOL_VERSION);
        result.append("\",\"capabilities\":{\"tools\":{}},\"serverInfo\":{\"name\":\"");
        result.append(SERVER_NAME);
        result.append("\",\"version\":\"");
        result.append(SERVER_VERSION);
        result.append("\"}}");
        Step::Respond(ok_response(id.as_str(), result.as_str()))
    } else if text_eq(method, "ping") {
        Step::Respond(ok_response(id.as_str(), "{}"))
    } else if text_eq(method, "tools/list") {
        let mut result = "{\"tools\":".to_owned();
        result.append(tool_definitions().as_str());
        result.append("}");
        Step::Respond(ok_response(id.as_str(), result.as_str()))
    } else if text_eq(method, "tools/call") {
        handle_tool_call(id, &m.params)
    } else {
        let mut message = "unknown method: ".to_owned();
        message.append(method);
        Step::Respond(err_response(id.as_str(), METHOD_NOT_FOUND, message.as_str()))
    }
}

/// What the tools that record a row say of the arguments `author` and `role`.
pub const AUTHOR_PROPERTY: &'static str =
    "\"author\":{\"type\":\"string\",\"description\":\"Readable identifier for the Harness/agent recording this.\"},";

pub const ROLE_PROPERTY: &'static str =
    "\"role\":{\"type\":\"string\",\"description\":\"Copy the `role` value from the <zed-mission-context> block you were given, verbatim. Zed groups rows by role to show each worker its own trail; omit this and what you record will not appear on your worker page.\"}";

pub const DECISION_TOOL: &'static str =
    "{\"name\":\"record_decision\",\"description\":\"Record a durable decision for a Mission so other Harnesses working the same Mission can see it. ";

pub const DECISION_SCHEMA: &'static str =
    "\",\"inputSchema\":{\"type\":\"object\",\"properties\":{\"mission_id\":{\"type\":\"string\",\"description\":\"The Mission id this decision belongs to.\"},\"key\":{\"type\":\"string\",\"description\":\"Short label for the decision, e.g. \\\"auth-strategy\\\".\"},\"value\":{\"type\":\"string\",\"description\":\"The decision text, verbatim.\"},\"author\":{\"type\":\"string\",\"description\":\"Readable identifier for the Harness/agent recording this, e.g. \\\"codex\\\".\"},";

pub const DECISION_REQUIRED: &'static str = "},\"required\":[\"mission_id\",\"key\",\"value\"]}}";

pub const ARTIFACT_TOOL: &'static str =
    "{\"name\":\"record_artifact\",\"description\":\"Record that a file was created or changed as part of a Mission. Zed's own observer already records this automatically for edits it performs on a Harness's behalf; call this directly only for a change Zed cannot see (e.g. made inside your own sandbox, outside of a Zed client capability). ";

pub const ARTIFACT_SCHEMA: &'static str =
    "\",\"inputSchema\":{\"type\":\"object\",\"properties\":{\"mission_id\":{\"type\":\"string\",\"description\":\"The Mission id this artifact belongs to.\"},\"path\":{\"type\":\"string\",\"description\":\"Path of the file that changed.\"},\"change_summary\":{\"type\":\"string\",\"description\":\"One-line summary of what changed.\"},";

pub const ARTIFACT_REQUIRED: &'static str =
    "},\"required\":[\"mission_id\",\"path\",\"change_summary\"]}}";

pub const EVIDENCE_TOOL: &'static str =
    "{\"name\":\"record_evidence\",\"description\":\"Record the outcome of a command run as part of a Mission. Zed's own observer already records this automatically for commands it runs on a Harness's behalf; call this directly only for a command Zed cannot see. ";

pub const EVIDENCE_SCHEMA: &'static str =
    "\",\"inputSchema\":{\"type\":\"object\",\"properties\":{\"mission_id\":{\"type\":\"string\",\"description\":\"The Mission id this evidence belongs to.\"},\"command\":{\"type\":\"string\",\"description\":\"The command that was run.\"},\"result\":{\"type\":\"string\",\"description\":\"Its output, or a summary of it.\"},\"exit_code\":{\"type\":\"integer\",\"description\":\"Its exit code, if known.\"},";

pub const EVIDENCE_REQUIRED: &'static str =
    "},\"required\":[\"mission_id\",\"command\",\"result\"]}}";

pub const CONTEXT_TOOL: &'static str =
    "{\"name\":\"get_mission_context\",\"description\":\"Read what other Harnesses have recorded for a Mission so far: decisions, file/artifact changes, and command evidence, most recent first, capped at ";

pub const CONTEXT_ROWS: &'static str = " rows per category. ";

pub const CONTEXT_SCHEMA: &'static str =
    "\",\"inputSchema\":{\"type\":\"object\",\"properties\":{\"mission_id\":{\"type\":\"string\",\"description\":\"The Mission id to read context for.\"},\"since\":{\"type\":\"string\",\"description\":\"RFC3339 timestamp; only return rows created after this.\"}},\"required\":[\"mission_id\"]}}";

/// The tools that the server offers, as a JSON array.
pub open spec fn tool_definitions_text() -> Seq<char> {
    "["@ + decision_tool_text() + ","@ + artifact_tool_text() + ","@ + evidence_tool_text() + ","@
        + context_tool_text() + "]"@
}

pub open spec fn decision_tool_text() -> Seq<char> {
    DECISION_TOOL@ + MISSION_ID_HINT@ + DECISION_SCHEMA@ + ROLE_PROPERTY@ + DECISION_REQUIRED@
}

pub open spec fn artifact_tool_text() -> Seq<char> {
    ARTIFACT_TOOL@ + MISSION_ID_HINT@ + ARTIFACT_SCHEMA@ + AUTHOR_PROPERTY@ + ROLE_PROPERTY@
        + ARTIFACT_REQUIRED@
}

pub open spec fn evidence_tool_text() -> Seq<char> {
    EVIDENCE_TOOL@ + MISSION_ID_HINT@ + EVIDENCE_SCHEMA@ + AUTHOR_PROPERTY@ + ROLE_PROPERTY@
        + EVIDENCE_REQUIRED@
}

pub open spec fn context_tool_text() -> Seq<char> {
    CONTEXT_TOOL@ + decimal(MAX_CONTEXT_ROWS_PER_TABLE as nat) + CONTEXT_ROWS@ + MISSION_ID_HINT@
        + CONTEXT_SCHEMA@
}

proof fn shared_texts_are_one_line()
    ensures
        one_line(MISSION_ID_HINT@),
        one_line(AUTHOR_PROPERTY@),
        one_line(ROLE_PROPERTY@),
{
    reveal_strlit(
        "If you do not know the current mission_id, check the initial task description you were given for a Mission id. If none is present, this conversation is not part of a Mission, and you should not call this tool.",
    );
    reveal_strlit(
        "\"author\":{\"type\":\"string\",\"description\":\"Readable identifier for the Harness/agent recording this.\"},",
    );
    reveal_strlit(
        "\"role\":{\"type\":\"string\",\"description\":\"Copy the `role` value from the <zed-mission-context> block you were given, verbatim. Zed groups rows by role to show each worker its own trail; omit this and what you record will not appear on your worker page.\"}",
    );
}

proof fn decision_tool_is_one_line()
    ensures
        one_line(decision_tool_text()),
{
    shared_texts_are_one_line();
    reveal_strlit(
        "{\"name\":\"record_decision\",\"description\":\"Record a durable decision for a Mission so other Harnesses working the same Mission can see it. ",
    );
    reveal_strlit(
        "\",\"inputSchema\":{\"type\":\"object\",\"properties\":{\"mission_id\":{\"type\":\"string\",\"description\":\"The Mission id this decision belongs to.\"},\"key\":{\"type\":\"string\",\"description\":\"Short label for the decision, e.g. \\\"auth-strategy\\\".\"},\"value\":{\"type\":\"string\",\"description\":\"The decision text, verbatim.\"},\"author\":{\"type\":\"string\",\"description\":\"Readable identifier for the Harness/agent recording this, e.g. \\\"codex\\\".\"},",
    );
    reveal_strlit(
        "},\"required\":[\"mission_id\",\"key\",\"value\"]}}",
    );
    assert(one_line(DECISION_TOOL@));
    assert(one_line(DECISION_SCHEMA@));
    assert(one_line(DECISION_REQUIRED@));
}

proof fn artifact_tool_is_one_line()
    ensures
        one_line(artifact_tool_text()),
{
    shared_texts_are_one_line();
    reveal_strlit(
        "{\"name\":\"record_artifact\",\"description\":\"Record that a file was created or changed as part of a Mission. Zed's own observer already records this automatically for edits it performs on a Harness's behalf; call this directly only for a change Zed cannot see (e.g. made inside your own sandbox, outside of a Zed client capability). ",
    );
    reveal_strlit(
        "\",\"inputSchema\":{\"type\":\"object\",\"properties\":{\"mission_id\":{\"type\":\"string\",\"description\":\"The Mission id this artifact belongs to.\"},\"path\":{\"type\":\"string\",\"description\":\"Path of the file that changed.\"},\"change_summary\":{\"type\":\"string\",\"description\":\"One-line summary of what changed.\"},",
    );
    reveal_strlit(
        "},\"required\":[\"mission_id\",\"path\",\"change_summary\"]}}",
    );
    assert(one_line(ARTIFACT_TOOL@));
    assert(one_line(ARTIFACT_SCHEMA@));
    assert(one_line(ARTIFACT_REQUIRED@));
}

proof fn evidence_tool_is_one_line()
    ensures
        one_line(evidence_tool_text()),
{
    shared_texts_are_one_line();
    reveal_strlit(
        "{\"name\":\"record_evidence\",\"description\":\"Record the outcome of a command run as part of a Mission. Zed's own observer already records this automatically for commands it runs on a Harness's behalf; call this directly only for a command Zed cannot see. ",
    );
    reveal_strlit(
        "\",\"inputSchema\":{\"type\":\"object\",\"properties\":{\"mission_id\":{\"type\":\"string\",\"description\":\"The Mission id this evidence belongs to.\"},\"command\":{\"type\":\"string\",\"description\":\"The command that was run.\"},\"result\":{\"type\":\"string\",\"description\":\"Its output, or a summary of it.\"},\"exit_code\":{\"type\":\"integer\",\"description\":\"Its exit code, if known.\"},",
    );
    reveal_strlit(
        "},\"required\":[\"mission_id\",\"command\",\"result\"]}}",
    );
    assert(one_line(EVIDENCE_TOOL@));
    assert(one_line(EVIDENCE_SCHEMA@));
    assert(one_line(EVIDENCE_REQUIRED@));
}

proof fn context_tool_is_one_line()
    ensures
        one_line(context_tool_text()),
{
    shared_texts_are_one_line();
    decimal_is_one_line(MAX_CONTEXT_ROWS_PER_TABLE as nat);
    reveal_strlit(
        "{\"name\":\"get_mission_context\",\"description\":\"Read what other Harnesses have recorded for a Mission so far: decisions, file/artifact changes, and command evidence, most recent first, capped at ",
    );
    reveal_strlit(
        " rows per category. ",
    );
    reveal_strlit(
        "\",\"inputSchema\":{\"type\":\"object\",\"properties\":{\"mission_id\":{\"type\":\"string\",\"description\":\"The Mission id to read context for.\"},\"since\":{\"type\":\"string\",\"description\":\"RFC3339 timestamp; only return rows created after this.\"}},\"required\":[\"mission_id\"]}}",
    );
    assert(one_line(CONTEXT_TOOL@));
    assert(one_line(CONTEXT_ROWS@));
    assert(one_line(CONTEXT_SCHEMA@));
}

proof fn tool_definitions_are_one_line()
    ensures
        one_line(tool_definitions_text()),
{
    reveal_strlit("[");
    reveal_strlit(",");
    reveal_strlit("]");
    decision_tool_is_one_line();
    artifact_tool_is_one_line();
    evidence_tool_is_one_line();
    context_tool_is_one_line();
}

proof fn initialize_is_one_line()
    ensures
        one_line(initialize_text()),
{
    reveal_strlit("{\"protocolVersion\":\"");
    reveal_strlit("\",\"capabilities\":{\"tools\":{}},\"serverInfo\":{\"name\":\"");
    reveal_strlit("\",\"version\":\"");
    reveal_strlit("\"}}");
    reveal_strlit("2025-06-18");
    reveal_strlit("shared-context-mcp");
    reveal_strlit("0.1.0");
}

/// The tools that the server offers, as a JSON array.
fn tool_definitions() -> (r: String)
    ensures
        r@ == tool_definitions_text(),
        one_line(r@),
{
    proof {
        tool_definitions_are_one_line();
    }
    let mut decision = DECISION_TOOL.to_owned();
    decision.append(MISSION_ID_HINT);
    decision.append(DECISION_SCHEMA);
    decision.append(ROLE_PROPERTY);
    decision.append(DECISION_REQUIRED);
    let mut artifact = ARTIFACT_TOOL.to_owned();
    artifact.append(MISSION_ID_HINT);
    artifact.append(ARTIFACT_SCHEMA);
    artifact.append(AUTHOR_PROPERTY);
    artifact.append(ROLE_PROPERTY);
    artifact.append(ARTIFACT_REQUIRED);
    let mut evidence = EVIDENCE_TOOL.to_owned();
    evidence.append(MISSION_ID_HINT);
    evidence.append(EVIDENCE_SCHEMA);
    evidence.append(AUTHOR_PROPERTY);
    evidence.append(ROLE_PROPERTY);
    evidence.append(EVIDENCE_REQUIRED);
    let mut context = CONTEXT_TOOL.to_owned();
    context.append(decimal_text(MAX_CONTEXT_ROWS_PER_TABLE as u64).as_str());
    context.append(CONTEXT_ROWS);
    context.append(MISSION_ID_HINT);
    context.append(CONTEXT_SCHEMA);
    let mut r = "[".to_owned();
    r.append(decision.as_str());
    r.append(",");
    r.append(artifact.as_str());
    r.append(",");
    r.append(evidence.as_str());
    r.append(",");
    r.append(context.as_str());
    r.append("]");
    r
}

/// What goes back for a message.
pub enum Reply {
    Silent,
    Line(String),
    /// The answer to `id` is the text of `context`, each list most recent first; `finish_call`
    /// makes the line.
    Context { id: String, context: MissionContext },
}

/// Whether a text is the stored form of some instant of the clock.
pub open spec fn stamped_now(text: Seq<char>) -> bool {
    exists|at: Timestamp| #[trigger] clock_instant(at) && stamped(text, at)
}

/// Whether `after` is `before` with one row more, the one that `request` asks for, recorded
/// at some instant of the clock.
pub open spec fn recorded(
    before: SharedContextStore,
    after: SharedContextStore,
    request: RequestView,
) -> bool {
    match request {
        RequestView::RecordDecision { mission_id, key, value, author, role } => {
            &&& after.decisions@.len() == before.decisions@.len() + 1
            &&& after.decisions@.drop_last() == before.decisions@
            &&& after.artifacts == before.artifacts
            &&& after.evidence == before.evidence
            &&& after.decisions@.last().mission_id == mission_id
            &&& after.decisions@.last().key@ == key
            &&& after.decisions@.last().value@ == value
            &&& after.decisions@.last().author@ == author
            &&& opt_view(after.decisions@.last().role) == role
            &&& stamped_now(after.decisions@.last().created_at@)
        },
        RequestView::RecordArtifact { mission_id, path, change_summary, author, role } => {
            &&& after.artifacts@.len() == before.artifacts@.len() + 1
            &&& after.artifacts@.drop_last() == before.artifacts@
            &&& after.decisions == before.decisions
            &&& after.evidence == before.evidence
            &&& after.artifacts@.last().mission_id == mission_id
            &&& after.artifacts@.last().path@ == path
            &&& after.artifacts@.last().change_summary@ == change_summary
            &&& after.artifacts@.last().author@ == author
            &&& opt_view(after.artifacts@.last().role) == role
            &&& stamped_now(after.artifacts@.last().created_at@)
        },
        RequestView::RecordEvidence { mission_id, command, result, exit_code, author, role } => {
            &&& after.evidence@.len() == before.evidence@.len() + 1
            &&& after.evidence@.drop_last() == before.evidence@
            &&& after.decisions == before.decisions
            &&& after.artifacts == before.artifacts
            &&& after.evidence@.last().mission_id == mission_id
            &&& after.evidence@.last().command@ == command
            &&& after.evidence@.last().result@ == result
            &&& after.evidence@.last().exit_code == exit_code
            &&& after.evidence@.last().author@ == author
            &&& opt_view(after.evidence@.last().role) == role
            &&& stamped_now(after.evidence@.last().created_at@)
        },
        RequestView::ReadContext { .. } => after == before,
    }
}

/// Whether `context` is what the tool reads of a mission after `since`: the rows that the
/// store lists, each list most recent first.
pub open spec fn newest_first(
    store: SharedContextStore,
    mission_id: MissionId,
    since: Option<Timestamp>,
    context: MissionContext,
) -> bool {
    let bound = since_bound(since);
    &&& context.mission_id@ == hyphenated_form(mission_id.value)
    &&& rows_read(
        store.decisions@,
        recent(keys(store.decisions@), mission_id, bound).reverse(),
        context.decisions@,
    )
    &&& rows_read(
        store.artifacts@,
        recent(keys(store.artifacts@), mission_id, bound).reverse(),
        context.artifacts@,
    )
    &&& rows_read(
        store.evidence@,
        recent(keys(store.evidence@), mission_id, bound).reverse(),
        context.evidence@,
    )
}

/// The elements of a list, the last one first.
fn reversed<T>(list: Vec<T>) -> (r: Vec<T>)
    ensures
        r@ == list@.reverse(),
{
    let mut list = list;
    let mut r: Vec<T> = Vec::new();
    let ghost all = list@;
    loop
        invariant
            all == list@ + r@.reverse(),
        ensures
            all == r@.reverse(),
        decreases list.len(),
    {
        let ghost left = list@;
        let ghost moved = r@;
        match list.pop() {
            Some(element) => {
                r.push(element);
                assert(r@.reverse() =~= seq![element] + moved.reverse());
                assert(list@ + r@.reverse() =~= left + moved.reverse());
            },
            None => {
                assert(all =~= r@.reverse());
                break;
            },
        }
    }
    assert(r@ =~= all.reverse());
    r
}

/// What the tool reads of a mission after `since`: the store's reading, with each list most
/// recent first; or the words with which a time is refused.
pub fn read_newest_first(
    store: &SharedContextStore,
    mission_id: MissionId,
    since: Option<Timestamp>,
) -> (r: Result<MissionContext, String>)
    requires
        since matches Some(t) ==> t.valid(),
    ensures
        match first_refusal(store.stamps_read(mission_id, since)) {
            Some(why) => r matches Err(e) && e@ == why,
            None => r matches Ok(context) && newest_first(*store, mission_id, since, context),
        },
        bound_follows_time(since),
{
    match store.get_mission_context(mission_id, since) {
        Ok(context) => Ok(
            MissionContext {
                mission_id: context.mission_id,
                decisions: reversed(context.decisions),
                artifacts: reversed(context.artifacts),
                evidence: reversed(context.evidence),
            },
        ),
        Err(e) => Err(e),
    }
}

/// Whether `reply` answers the call `request` with the id `id`, the store being `store`.
pub open spec fn replied(
    store: SharedContextStore,
    id: Seq<char>,
    request: RequestView,
    reply: Reply,
) -> bool {
    match request {
        RequestView::ReadContext { mission_id, since } => match reply {
            Reply::Context { id: to, context } => to@ == id && first_refusal(
                store.stamps_read(mission_id, since),
            ) is None && newest_first(store, mission_id, since, context),
            Reply::Line(line) => match first_refusal(store.stamps_read(mission_id, since)) {
                Some(why) => line@ == ok_line(id, tool_error(why)),
                None => false,
            },
            Reply::Silent => false,
        },
        _ => reply matches Reply::Line(line) && line@ == ok_line(
            id,
            tool_text(confirmation_text(request)),
        ),
    }
}

/// Whether `reply` and the change of the store are what the message asks for.
pub open spec fn handled(
    before: SharedContextStore,
    after: SharedContextStore,
    message: Result<IncomingMessage, String>,
    reply: Reply,
) -> bool {
    match message_step(message) {
        StepView::Silent => reply is Silent && after == before,
        StepView::Respond(text) => (reply matches Reply::Line(line) && line@ == text) && after == before,
        StepView::Call { id, request } => recorded(before, after, request) && replied(
            before,
            id,
            request,
            reply,
        ),
    }
}

/// Does what a call asks of the store.
fn run_call(store: &mut SharedContextStore, id: String, request: ToolRequest) -> (r: Reply)
    requires
        bound_valid(request@),
    ensures
        recorded(*old(store), *final(store), request@),
        replied(*old(store), id@, request@, r),
        r matches Reply::Line(line) ==> (one_line(id@) ==> one_line(line@)),
{
    let confirmation = request.confirmation();
    match request {
        ToolRequest::RecordDecision { mission_id, key, value, author, role } => {
            store.record_decision(mission_id, key, value, author, role);
            Reply::Line(finish_call(id.as_str(), &Ok(confirmation)))
        },
        ToolRequest::RecordArtifact { mission_id, path, change_summary, author, role } => {
            store.record_artifact(mission_id, path, change_summary, author, role);
            Reply::Line(finish_call(id.as_str(), &Ok(confirmation)))
        },
        ToolRequest::RecordEvidence { mission_id, command, result, exit_code, author, role } => {
            store.record_evidence(mission_id, command, result, exit_code, author, role);
            Reply::Line(finish_call(id.as_str(), &Ok(confirmation)))
        },
        ToolRequest::ReadContext { mission_id, since } => {
            match read_newest_first(store, mission_id, since) {
                Ok(context) => Reply::Context { id, context },
                Err(e) => Reply::Line(finish_call(id.as_str(), &Err(e))),
            }
        },
    }
}

/// Handles one message: what the store is asked for is done, and what goes back is
/// returned. Notifications get no answer.
pub fn handle_message(
    store: &mut SharedContextStore,
    message: Result<IncomingMessage, String>,
) -> (r: Reply)
    ensures
        handled(*old(store), *final(store), message, r),
        r matches Reply::Line(line) ==> (id_is_one_line(message) ==> one_line(line@)),
{
    match begin_message(message) {
        Step::Silent => Reply::Silent,
        Step::Respond(line) => Reply::Line(line),
        Step::Call { id, request } => run_call(store, id, request),
    }
}

/// A notification, and only a notification, gets no answer.
pub proof fn only_notifications_go_unanswered(message: Result<IncomingMessage, String>)
    ensures
        message_step(message) is Silent <==> (message matches Ok(m) && m.id is None),
{
}

/// Whether a line answers the request `id`: it is a JSON-RPC object that starts with the
/// protocol's version and that id.
pub open spec fn answers(line: Seq<char>, id: Seq<char>) -> bool {
    has_prefix(line, "{\"jsonrpc\":\"2.0\",\"id\":"@ + id + ","@)
}

/// Every line that answers a request carries the id of the request; a line that was no
/// message is answered with the id `null`.
pub proof fn answers_carry_the_id(message: Result<IncomingMessage, String>)
    ensures
        match message_step(message) {
            StepView::Silent => true,
            StepView::Respond(line) => match message {
                Ok(m) => m.id matches Some(id) && answers(line, id@),
                Err(_) => answers(line, "null"@),
            },
            StepView::Call { id, request } => (message matches Ok(m) && m.id matches Some(to)
                && to@ == id) && forall|outcome: Result<String, String>|
                answers(#[trigger] finished_line(id, outcome), id),
        },
{
    reveal_strlit(",");
    reveal_strlit(",\"result\":");
    reveal_strlit(",\"error\":{\"code\":");
    assert forall|id: Seq<char>, result: Seq<char>| answers(#[trigger] ok_line(id, result), id) by {
        let prefix = "{\"jsonrpc\":\"2.0\",\"id\":"@ + id + ","@;
        assert(ok_line(id, result).subrange(0, prefix.len() as int) =~= prefix);
    }
    assert forall|id: Seq<char>, code: i32, m: Seq<char>| answers(#[trigger] err_line(id, code, m), id) by {
        let prefix = "{\"jsonrpc\":\"2.0\",\"id\":"@ + id + ","@;
        assert(err_line(id, code, m).subrange(0, prefix.len() as int) =~= prefix);
    }
}

/// Only the tools that record change the store, and each adds one row to one table.
pub proof fn only_recording_tools_change_the_store(
    before: SharedContextStore,
    after: SharedContextStore,
    message: Result<IncomingMessage, String>,
    reply: Reply,
)
    requires
        handled(before, after, message, reply),
    ensures
        after == before || (message matches Ok(m) && m.id is Some && m.method@ == "tools/call"@
            && after.decisions@.len() + after.artifacts@.len() + after.evidence@.len()
            == before.decisions@.len() + before.artifacts@.len() + before.evidence@.len() + 1),
{
}

/// Whether `text` is the stored form of an instant of the clock whose year has four digits.
pub open spec fn stamped_in_calendar(text: Seq<char>) -> bool {
    exists|at: Timestamp| #[trigger] clock_instant(at) && at.four_digit_year() && stamped(text, at)
}

/// A decision that was recorded by a tool call is the first decision of the tool's next
/// reading of the mission, with its key, value, author and role, unless one of the mission
/// carries a later time.
pub proof fn a_decision_recorded_by_a_call_is_read_back(
    before: SharedContextStore,
    after: SharedContextStore,
    request: RequestView,
    context: MissionContext,
)
    requires
        recorded(before, after, request),
        request matches RequestView::RecordDecision { mission_id, .. } && none_later(
            keys(before.decisions@),
            mission_id,
            after.decisions@.last().created_at@,
        ) && newest_first(after, mission_id, None, context),
        stamped_in_calendar(after.decisions@.last().created_at@),
    ensures
        context.decisions@.len() > 0,
        request matches RequestView::RecordDecision { mission_id, key, value, author, role } && {
            let read = context.decisions@[0];
            read.key@ == key && read.value@ == value && read.author@ == author && opt_view(read.role)
                == role
        },
{
    let row = after.decisions@.last();
    assert(keys(after.decisions@) =~= keys(before.decisions@).push(row.key()));
    a_recorded_row_is_read_last(
        keys(before.decisions@),
        row.key(),
        row.mission_id,
        since_bound(None),
    );
    assert(decision_reads(row, context.decisions@[0]));
}

/// An artifact that was recorded by a tool call is the first artifact of the tool's next
/// reading of the mission, with its path, summary, author and role, unless one of the mission
/// carries a later time.
pub proof fn an_artifact_recorded_by_a_call_is_read_back(
    before: SharedContextStore,
    after: SharedContextStore,
    request: RequestView,
    context: MissionContext,
)
    requires
        recorded(before, after, request),
        request matches RequestView::RecordArtifact { mission_id, .. } && none_later(
            keys(before.artifacts@),
            mission_id,
            after.artifacts@.last().created_at@,
        ) && newest_first(after, mission_id, None, context),
        stamped_in_calendar(after.artifacts@.last().created_at@),
    ensures
        context.artifacts@.len() > 0,
        request matches RequestView::RecordArtifact {
            mission_id,
            path,
            change_summary,
            author,
            role,
        } && {
            let read = context.artifacts@[0];
            read.path@ == path && read.change_summary@ == change_summary && read.author@ == author
                && opt_view(read.role) == role
        },
{
    let row = after.artifacts@.last();
    assert(keys(after.artifacts@) =~= keys(before.artifacts@).push(row.key()));
    a_recorded_row_is_read_last(
        keys(before.artifacts@),
        row.key(),
        row.mission_id,
        since_bound(None),
    );
    assert(artifact_reads(row, context.artifacts@[0]));
}

/// Evidence that was recorded by a tool call is the first evidence of the tool's next reading
/// of the mission, with its command, result, exit code, author and role, unless some of the
/// mission carries a later time.
pub proof fn evidence_recorded_by_a_call_is_read_back(
    before: SharedContextStore,
    after: SharedContextStore,
    request: RequestView,
    context: MissionContext,
)
    requires
        recorded(before, after, request),
        request matches RequestView::RecordEvidence { mission_id, .. } && none_later(
            keys(before.evidence@),
            mission_id,
            after.evidence@.last().created_at@,
        ) && newest_first(after, mission_id, None, context),
        stamped_in_calendar(after.evidence@.last().created_at@),
    ensures
        context.evidence@.len() > 0,
        request matches RequestView::RecordEvidence {
            mission_id,
            command,
            result,
            exit_code,
            author,
            role,
        } && {
            let read = context.evidence@[0];
            read.command@ == command && read.result@ == result && read.exit_code == exit_code
                && read.author@ == author && opt_view(read.role) == role
        },
{
    let row = after.evidence@.last();
    assert(keys(after.evidence@) =~= keys(before.evidence@).push(row.key()));
    a_recorded_row_is_read_last(
        keys(before.evidence@),
        row.key(),
        row.mission_id,
        since_bound(None),
    );
    assert(evidence_reads(row, context.evidence@[0]));
}

} // verus!
