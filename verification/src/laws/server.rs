//! Laws about the tool server: what a message makes of the store and what it is answered,
//! from the members of the message.

use vstd::prelude::*;
use crate::laws::texts::blank;
use crate::laws::texts::is_bare;
use crate::laws::texts::trimming_cuts_the_white_space_at_the_ends;
use crate::mcp_server::answers;
use crate::mcp_server::begin_message;
use crate::mcp_server::err_line;
use crate::mcp_server::finish_call;
use crate::mcp_server::handle_message;
use crate::mcp_server::json_body;
use crate::mcp_server::json_escaped;
use crate::mcp_server::json_quoted;
use crate::mcp_server::lookup;
use crate::mcp_server::mission_denoted;
use crate::mcp_server::ok_line;
use crate::mcp_server::tool_error;
use crate::mcp_server::tool_text;
use crate::mcp_server::IncomingMessage;
use crate::mcp_server::Json;
use crate::mcp_server::Reply;
use crate::mcp_server::Step;
use crate::mcp_server::ToolRequest;
use crate::mission_id::a_text_denotes_one_identifier;
use crate::mission_id::denotes;
use crate::mission_id::hyphenated_form;
use crate::mission_id::MissionId;
use crate::shared_context::MissionContext;
use crate::shared_context::SharedContextStore;
use crate::text::has_part;
use crate::text::has_prefix;
use crate::text::signed_decimal;
use crate::time::rfc3339_instant;
use crate::time::rfc3339_text;
use crate::time::Timestamp;

verus! {

/// Whether an object has the member `key` with the value `value`: the first of its members
/// under that key.
pub open spec fn has_member(json: Json, key: Seq<char>, value: Json) -> bool {
    match json {
        Json::Object(fields) => exists|i: int| member_stands_at(fields@, key, value, i),
        _ => false,
    }
}

pub open spec fn member_stands_at(
    fields: Seq<(String, Json)>,
    key: Seq<char>,
    value: Json,
    i: int,
) -> bool {
    &&& 0 <= i < fields.len()
    &&& fields[i].0@ == key
    &&& fields[i].1 == value
    &&& forall|j: int| 0 <= j < i ==> (#[trigger] fields[j]).0@ != key
}

/// Whether an object has the text `text` as its member `key`.
pub open spec fn has_text(json: Json, key: Seq<char>, text: Seq<char>) -> bool {
    exists|s: String| s@ == text && #[trigger] has_member(json, key, Json::Str(s))
}

/// Whether there is no text under `key`: no member, or one that is no text.
pub open spec fn has_no_text(json: Json, key: Seq<char>) -> bool {
    forall|s: String| !#[trigger] has_member(json, key, Json::Str(s))
}

proof fn members_are_looked_up(fields: Seq<(String, Json)>, key: Seq<char>)
    ensures
        match lookup(fields, key) {
            Some(value) => exists|i: int| member_stands_at(fields, key, value, i),
            None => forall|i: int| 0 <= i < fields.len() ==> (#[trigger] fields[i]).0@ != key,
        },
    decreases fields.len(),
{
    if fields.len() > 0 {
        if fields[0].0@ == key {
            assert(member_stands_at(fields, key, fields[0].1, 0));
        } else {
            let rest = fields.subrange(1, fields.len() as int);
            members_are_looked_up(rest, key);
            assert forall|j: int| 0 <= j < rest.len() implies rest[j] == fields[j + 1] by {}
            match lookup(rest, key) {
                Some(value) => {
                    let i = choose|i: int| member_stands_at(rest, key, value, i);
                    assert forall|j: int| 0 <= j < i + 1 implies (#[trigger] fields[j]).0@ != key by {
                        if j > 0 {
                            assert(rest[j - 1] == fields[j]);
                        }
                    }
                    assert(member_stands_at(fields, key, value, i + 1));
                },
                None => {
                    assert forall|i: int| 0 <= i < fields.len() implies (#[trigger] fields[i]).0@
                        != key by {
                        if i > 0 {
                            assert(rest[i - 1] == fields[i]);
                        }
                    }
                },
            }
        }
    }
}

/// A member is found where it stands: a key names the first member under it, and nothing
/// where there is none.
pub proof fn a_key_names_its_member(json: Json, key: &str, value: Json, r: Option<&Json>)
    requires
        call_ensures(Json::get, (&json, key), r),
    ensures
        r == Some(&value) <==> has_member(json, key@, value),
        json.member(key@) == Some(value) <==> has_member(json, key@, value),
        !(json is Object) ==> r is None,
{
    match json {
        Json::Object(fields) => {
            members_are_looked_up(fields@, key@);
            if has_member(json, key@, value) {
                let i = choose|i: int| member_stands_at(fields@, key@, value, i);
                let found = lookup(fields@, key@);
                assert(found is Some);
                let k = choose|k: int| member_stands_at(fields@, key@, found.unwrap(), k);
                if k < i {
                    assert(fields@[k].0@ != key@);
                }
                if i < k {
                    assert(fields@[i].0@ != key@);
                }
            }
        },
        _ => {},
    }
}

proof fn member_found(json: Json, key: Seq<char>, value: Json)
    requires
        has_member(json, key, value),
    ensures
        json.member(key) == Some(value),
{
    match json {
        Json::Object(fields) => {
            members_are_looked_up(fields@, key);
            let i = choose|i: int| member_stands_at(fields@, key, value, i);
            let found = lookup(fields@, key);
            assert(fields@[i].0@ == key);
            let k = choose|k: int| member_stands_at(fields@, key, found.unwrap(), k);
            if k < i {
                assert(fields@[k].0@ != key);
            }
            if i < k {
                assert(fields@[i].0@ != key);
            }
        },
        _ => {},
    }
}

proof fn text_found(json: Json, key: Seq<char>, text: Seq<char>)
    requires
        has_text(json, key, text),
    ensures
        json.member(key) matches Some(value) && value matches Json::Str(s) && s@ == text,
{
    let s = choose|s: String| s@ == text && #[trigger] has_member(json, key, Json::Str(s));
    member_found(json, key, Json::Str(s));
}

proof fn no_text_found(json: Json, key: Seq<char>)
    requires
        has_no_text(json, key),
    ensures
        json.member(key) matches Some(value) ==> !(value is Str),
{
    match json {
        Json::Object(fields) => {
            members_are_looked_up(fields@, key);
            match lookup(fields@, key) {
                Some(Json::Str(s)) => {
                    assert(has_member(json, key, Json::Str(s)));
                },
                _ => {},
            }
        },
        _ => {},
    }
}

/// A text is read as the string it is, and nothing else is; a whole number is read as itself,
/// and one that 64 bits with a sign cannot hold, or anything else, is none.
pub proof fn json_values_are_read_as_they_are(json: Json, s: Option<&str>, n: Option<i64>)
    requires
        call_ensures(Json::as_str, (&json,), s),
        call_ensures(Json::as_i64, (&json,), n),
    ensures
        json matches Json::Str(text) ==> (s matches Some(t) && t@ == text@),
        !(json is Str) ==> s is None,
        json matches Json::PosInt(k) ==> (k <= 0x7fff_ffff_ffff_ffff ==> (n matches Some(m) && m as int
            == k as int)) && (k > 0x7fff_ffff_ffff_ffff ==> n is None),
        json matches Json::NegInt(k) ==> n == Some(k),
        !(json is PosInt) && !(json is NegInt) ==> n is None,
{
}

/// Whether a message is a request with an id that calls a tool with these arguments.
pub open spec fn calls_tool(
    message: Result<IncomingMessage, String>,
    id: Seq<char>,
    tool: Seq<char>,
    args: Json,
) -> bool {
    match message {
        Ok(m) => {
            &&& m.id matches Some(to) && to@ == id
            &&& m.method@ == "tools/call"@
            &&& match m.params {
                Some(params) => has_text(params, "name"@, tool) && has_member(
                    params,
                    "arguments"@,
                    args,
                ),
                None => false,
            }
        },
        Err(_) => false,
    }
}

/// Whether the arguments of a call name the mission `v`.
pub open spec fn names_mission(args: Json, v: u128) -> bool {
    exists|text: Seq<char>| #[trigger] has_text(args, "mission_id"@, text) && denotes(text, v)
}

/// Whether `author` is the author that a call names, or `unknown` where it names none.
pub open spec fn is_author_of(author: Seq<char>, args: Json) -> bool {
    has_text(args, "author"@, author) || (has_no_text(args, "author"@) && author == "unknown"@)
}

/// Whether `role` is the role that a call names, without the white space around it; a call that
/// names none, or a blank one, has none.
pub open spec fn is_role_of(role: Option<String>, args: Json) -> bool {
    match role {
        Some(r) => r@.len() > 0 && exists|text: Seq<char>| #[trigger]
            has_text(args, "role"@, text) && is_bare(text, r@),
        None => has_no_text(args, "role"@) || exists|text: Seq<char>| #[trigger]
            has_text(args, "role"@, text) && blank(text),
    }
}

/// Whether `code` is the exit code that a call names: the whole number under `exit_code` where
/// 32 bits with a sign hold it, and none otherwise.
pub open spec fn is_exit_code_of(code: Option<i32>, args: Json) -> bool {
    match code {
        Some(n) => (n >= 0 && exists|k: u64| #[trigger]
            has_member(args, "exit_code"@, Json::PosInt(k)) && k as int == n as int) || exists|k: i64|
         #[trigger]
            has_member(args, "exit_code"@, Json::NegInt(k)) && k as int == n as int,
        None => forall|value: Json| #[trigger]
            has_member(args, "exit_code"@, value) ==> match value {
                Json::PosInt(k) => k > 0x7fff_ffff,
                Json::NegInt(k) => k < -0x8000_0000 || k > 0x7fff_ffff,
                _ => true,
            },
    }
}

proof fn tool_names_differ()
    ensures
        "record_decision"@ != "record_artifact"@,
        "record_decision"@ != "record_evidence"@,
        "record_artifact"@ != "record_evidence"@,
        "get_mission_context"@ != "record_decision"@,
        "get_mission_context"@ != "record_artifact"@,
        "get_mission_context"@ != "record_evidence"@,
        "tools/call"@ != "tools/list"@,
        "tools/call"@ != "ping"@,
        "tools/call"@ != "initialize"@,
        "tools/list"@ != "ping"@,
        "tools/list"@ != "initialize"@,
        "ping"@ != "initialize"@,
{
    reveal_strlit("record_decision");
    reveal_strlit("record_artifact");
    reveal_strlit("record_evidence");
    reveal_strlit("get_mission_context");
    reveal_strlit("tools/call");
    reveal_strlit("tools/list");
    reveal_strlit("ping");
    reveal_strlit("initialize");
    assert("record_decision"@[7] == 'd');
    assert("record_artifact"@[7] == 'a');
    assert("record_evidence"@[7] == 'e');
    assert("get_mission_context"@[0] == 'g');
    assert("record_decision"@[0] == 'r');
    assert("tools/call"@[6] == 'c');
    assert("tools/list"@[6] == 'l');
    assert("initialize"@[0] == 'i');
    assert("ping"@[0] == 'p');
    assert("tools/list"@[0] == 't');
    assert("tools/call"@[0] == 't');
}

proof fn mission_found(args: Json, v: u128)
    requires
        names_mission(args, v),
    ensures
        args.member("mission_id"@) matches Some(value) && value matches Json::Str(s)
            && mission_denoted(s@) == Some(MissionId { value: v }),
{
    let text = choose|text: Seq<char>| #[trigger]
        has_text(args, "mission_id"@, text) && denotes(text, v);
    text_found(args, "mission_id"@, text);
    let w = choose|w: u128| denotes(text, w);
    a_text_denotes_one_identifier(text, v, w);
}

proof fn author_found(args: Json, author: Seq<char>)
    requires
        args.member("author"@) matches Some(value) ==> (value matches Json::Str(s) ==> author
            == s@),
        !(args.member("author"@) matches Some(value) && value is Str) ==> author == "unknown"@,
    ensures
        is_author_of(author, args),
{
    match args {
        Json::Object(fields) => {
            members_are_looked_up(fields@, "author"@);
        },
        _ => {},
    }
    match args.member("author"@) {
        Some(Json::Str(s)) => {
            assert(has_member(args, "author"@, Json::Str(s)));
        },
        _ => {
            assert forall|s: String| !#[trigger] has_member(args, "author"@, Json::Str(s)) by {
                if has_member(args, "author"@, Json::Str(s)) {
                    member_found(args, "author"@, Json::Str(s));
                }
            }
        },
    }
}

proof fn role_found(args: Json, role: Option<String>)
    requires
        crate::text::opt_view(role) == crate::mcp_server::role_argument(args),
    ensures
        is_role_of(role, args),
{
    match args {
        Json::Object(fields) => {
            members_are_looked_up(fields@, "role"@);
        },
        _ => {},
    }
    match args.member("role"@) {
        Some(Json::Str(s)) => {
            assert(has_member(args, "role"@, Json::Str(s)));
            assert(has_text(args, "role"@, s@));
            trimming_cuts_the_white_space_at_the_ends(s@);
        },
        _ => {
            assert forall|s: String| !#[trigger] has_member(args, "role"@, Json::Str(s)) by {
                if has_member(args, "role"@, Json::Str(s)) {
                    member_found(args, "role"@, Json::Str(s));
                }
            }
        },
    }
}

proof fn exit_code_found(args: Json, code: Option<i32>)
    requires
        code == crate::mcp_server::exit_code_argument(args),
    ensures
        is_exit_code_of(code, args),
{
    match args {
        Json::Object(fields) => {
            members_are_looked_up(fields@, "exit_code"@);
        },
        _ => {},
    }
    assert forall|value: Json| #[trigger] has_member(args, "exit_code"@, value) implies args.member(
        "exit_code"@,
    ) == Some(value) by {
        member_found(args, "exit_code"@, value);
    }
    match args.member("exit_code"@) {
        Some(value) => {
            assert(has_member(args, "exit_code"@, value));
        },
        None => {},
    }
}

/// A row that is recorded now carries the time of a clock.
pub proof fn stamps_are_a_clocks(text: Seq<char>)
    requires
        crate::mcp_server::stamped_now(text),
    ensures
        is_stamped_by_a_clock(text),
{
    let at = choose|at: Timestamp| #[trigger]
        crate::shared_context::clock_instant(at) && crate::shared_context::stamped(text, at);
    assert(text == rfc3339_text(at.seconds, at.nanos));
}

/// Whether a text is that of an instant that a clock can show: from 1970 on, within a second.
pub open spec fn is_stamped_by_a_clock(text: Seq<char>) -> bool {
    exists|at: Timestamp|
        at.seconds >= 0 && at.nanos < 1_000_000_000 && at.valid() && text == #[trigger] rfc3339_text(
            at.seconds,
            at.nanos,
        )
}

/// A call of `record_evidence` that names a mission, a command and a result adds one row to the
/// evidence and to nothing else: of that mission, with the texts under `command` and `result`,
/// the exit code under `exit_code`, and the author and role that the call names. The answer
/// goes to the call's id and names the command and the mission.
pub proof fn recorded_evidence_is_what_the_call_says(
    store: &mut SharedContextStore,
    message: Result<IncomingMessage, String>,
    reply: Reply,
    id: Seq<char>,
    args: Json,
    v: u128,
    command: Seq<char>,
    result: Seq<char>,
)
    requires
        call_ensures(handle_message, (store, message), reply),
        calls_tool(message, id, "record_evidence"@, args),
        names_mission(args, v),
        has_text(args, "command"@, command),
        has_text(args, "result"@, result),
    ensures
        final(store).decisions@ == old(store).decisions@,
        final(store).artifacts@ == old(store).artifacts@,
        final(store).evidence@.len() == old(store).evidence@.len() + 1,
        final(store).evidence@.drop_last() == old(store).evidence@,
        final(store).evidence@.last().mission_id.value == v,
        final(store).evidence@.last().command@ == command,
        final(store).evidence@.last().result@ == result,
        is_exit_code_of(final(store).evidence@.last().exit_code, args),
        is_author_of(final(store).evidence@.last().author@, args),
        is_role_of(final(store).evidence@.last().role, args),
        is_stamped_by_a_clock(final(store).evidence@.last().created_at@),
        reply matches Reply::Line(line) && line@ == ok_line(
            id,
            tool_text(
                "Recorded evidence for `"@ + command + "` for mission "@ + hyphenated_form(v) + "."@,
            ),
        ),
{
    tool_names_differ();
    let params = message.unwrap().params.unwrap();
    text_found(params, "name"@, "record_evidence"@);
    member_found(params, "arguments"@, args);
    mission_found(args, v);
    text_found(args, "command"@, command);
    text_found(args, "result"@, result);
    let row = final(store).evidence@.last();
    author_found(args, row.author@);
    role_found(args, row.role);
    stamps_are_a_clocks(row.created_at@);
    exit_code_found(args, row.exit_code);
}

/// A call of `record_artifact` that names a mission, a path and a summary adds one row to the
/// artifacts and to nothing else: of that mission, with the texts under `path` and
/// `change_summary`, and the author and role that the call names. The answer goes to the call's
/// id and names the path and the mission.
pub proof fn a_recorded_artifact_is_what_the_call_says(
    store: &mut SharedContextStore,
    message: Result<IncomingMessage, String>,
    reply: Reply,
    id: Seq<char>,
    args: Json,
    v: u128,
    path: Seq<char>,
    change_summary: Seq<char>,
)
    requires
        call_ensures(handle_message, (store, message), reply),
        calls_tool(message, id, "record_artifact"@, args),
        names_mission(args, v),
        has_text(args, "path"@, path),
        has_text(args, "change_summary"@, change_summary),
    ensures
        final(store).decisions@ == old(store).decisions@,
        final(store).evidence@ == old(store).evidence@,
        final(store).artifacts@.len() == old(store).artifacts@.len() + 1,
        final(store).artifacts@.drop_last() == old(store).artifacts@,
        final(store).artifacts@.last().mission_id.value == v,
        final(store).artifacts@.last().path@ == path,
        final(store).artifacts@.last().change_summary@ == change_summary,
        is_author_of(final(store).artifacts@.last().author@, args),
        is_role_of(final(store).artifacts@.last().role, args),
        is_stamped_by_a_clock(final(store).artifacts@.last().created_at@),
        reply matches Reply::Line(line) && line@ == ok_line(
            id,
            tool_text(
                "Recorded artifact change to `"@ + path + "` for mission "@ + hyphenated_form(v)
                    + "."@,
            ),
        ),
{
    tool_names_differ();
    let params = message.unwrap().params.unwrap();
    text_found(params, "name"@, "record_artifact"@);
    member_found(params, "arguments"@, args);
    mission_found(args, v);
    text_found(args, "path"@, path);
    text_found(args, "change_summary"@, change_summary);
    let row = final(store).artifacts@.last();
    author_found(args, row.author@);
    role_found(args, row.role);
    stamps_are_a_clocks(row.created_at@);
}

/// A call of `record_decision` that names a mission, a key and a value adds one row to the
/// decisions and to nothing else: of that mission, with the texts under `key` and `value`, and
/// the author and role that the call names. The answer goes to the call's id and names the key
/// and the mission.
pub proof fn a_recorded_decision_is_what_the_call_says(
    store: &mut SharedContextStore,
    message: Result<IncomingMessage, String>,
    reply: Reply,
    id: Seq<char>,
    args: Json,
    v: u128,
    key: Seq<char>,
    value: Seq<char>,
)
    requires
        call_ensures(handle_message, (store, message), reply),
        calls_tool(message, id, "record_decision"@, args),
        names_mission(args, v),
        has_text(args, "key"@, key),
        has_text(args, "value"@, value),
    ensures
        final(store).artifacts@ == old(store).artifacts@,
        final(store).evidence@ == old(store).evidence@,
        final(store).decisions@.len() == old(store).decisions@.len() + 1,
        final(store).decisions@.drop_last() == old(store).decisions@,
        final(store).decisions@.last().mission_id.value == v,
        final(store).decisions@.last().key@ == key,
        final(store).decisions@.last().value@ == value,
        is_author_of(final(store).decisions@.last().author@, args),
        is_role_of(final(store).decisions@.last().role, args),
        is_stamped_by_a_clock(final(store).decisions@.last().created_at@),
        reply matches Reply::Line(line) && line@ == ok_line(
            id,
            tool_text(
                "Recorded decision `"@ + key + "` for mission "@ + hyphenated_form(v) + "."@,
            ),
        ),
{
    tool_names_differ();
    let params = message.unwrap().params.unwrap();
    text_found(params, "name"@, "record_decision"@);
    member_found(params, "arguments"@, args);
    mission_found(args, v);
    text_found(args, "key"@, key);
    text_found(args, "value"@, value);
    let row = final(store).decisions@.last();
    author_found(args, row.author@);
    role_found(args, row.role);
    stamps_are_a_clocks(row.created_at@);
}

/// A reading leaves the store as it is and answers with the reading of the mission that the call
/// names, after the time under `since`, or of all of it where the call has no such text.
pub proof fn a_reading_is_of_the_mission_that_the_call_names(
    store: &mut SharedContextStore,
    message: Result<IncomingMessage, String>,
    reply: Reply,
    id: Seq<char>,
    args: Json,
    v: u128,
    since: Option<Timestamp>,
)
    requires
        call_ensures(handle_message, (store, message), reply),
        calls_tool(message, id, "get_mission_context"@, args),
        names_mission(args, v),
        match since {
            None => has_no_text(args, "since"@),
            Some(t) => exists|raw: Seq<char>| #[trigger]
                has_text(args, "since"@, raw) && rfc3339_instant(raw) == Ok::<(i64, u32), Seq<char>>(
                    (t.seconds, t.nanos),
                ),
        },
    ensures
        *final(store) == *old(store),
        reply matches Reply::Context { id: to, context } ==> to@ == id && context.mission_id@
            == hyphenated_form(v) && crate::mcp_server::newest_first(
            *old(store),
            MissionId { value: v },
            since,
            context,
        ),
        reply matches Reply::Line(line) ==> exists|why: Seq<char>|
            line@ == ok_line(id, #[trigger] tool_error(why)),
        !(reply is Silent),
{
    tool_names_differ();
    let params = message.unwrap().params.unwrap();
    text_found(params, "name"@, "get_mission_context"@);
    member_found(params, "arguments"@, args);
    mission_found(args, v);
    match since {
        None => {
            no_text_found(args, "since"@);
        },
        Some(t) => {
            let raw = choose|raw: Seq<char>| #[trigger]
                has_text(args, "since"@, raw) && rfc3339_instant(raw) == Ok::<(i64, u32), Seq<char>>(
                    (t.seconds, t.nanos),
                );
            text_found(args, "since"@, raw);
        },
    }
}

/// The texts that a tool cannot do without, in the order in which they are looked for.
pub open spec fn needed_by(tool: Seq<char>) -> Seq<Seq<char>> {
    if tool == "record_decision"@ {
        seq!["mission_id"@, "key"@, "value"@]
    } else if tool == "record_artifact"@ {
        seq!["mission_id"@, "path"@, "change_summary"@]
    } else if tool == "record_evidence"@ {
        seq!["mission_id"@, "command"@, "result"@]
    } else {
        seq!["mission_id"@]
    }
}

/// A call that lacks a text which its tool needs leaves the store as it is, and is answered with
/// an error of the tool that names the first such text.
pub proof fn a_missing_argument_is_named(
    store: &mut SharedContextStore,
    message: Result<IncomingMessage, String>,
    reply: Reply,
    id: Seq<char>,
    tool: Seq<char>,
    args: Json,
    v: u128,
    k: int,
)
    requires
        call_ensures(handle_message, (store, message), reply),
        calls_tool(message, id, tool, args),
        tool == "record_decision"@ || tool == "record_artifact"@ || tool == "record_evidence"@
            || tool == "get_mission_context"@,
        0 <= k < needed_by(tool).len(),
        has_no_text(args, needed_by(tool)[k]),
        k > 0 ==> names_mission(args, v),
        forall|j: int|
            0 < j < k ==> exists|text: Seq<char>| #[trigger]
                has_text(args, #[trigger] needed_by(tool)[j], text),
    ensures
        *final(store) == *old(store),
        reply matches Reply::Line(line) && line@ == ok_line(
            id,
            tool_error("missing required argument `"@ + needed_by(tool)[k] + "`"@),
        ),
{
    tool_names_differ();
    let params = message.unwrap().params.unwrap();
    text_found(params, "name"@, tool);
    member_found(params, "arguments"@, args);
    no_text_found(args, needed_by(tool)[k]);
    if k > 0 {
        mission_found(args, v);
    }
    if k == 2 {
        let text = choose|text: Seq<char>| #[trigger] has_text(args, needed_by(tool)[1], text);
        text_found(args, needed_by(tool)[1], text);
    }
}

/// A call whose `mission_id` denotes no mission leaves the store as it is and is answered with
/// an error of the tool.
pub proof fn a_mission_that_is_none_is_refused(
    store: &mut SharedContextStore,
    message: Result<IncomingMessage, String>,
    reply: Reply,
    id: Seq<char>,
    tool: Seq<char>,
    args: Json,
    text: Seq<char>,
)
    requires
        call_ensures(handle_message, (store, message), reply),
        calls_tool(message, id, tool, args),
        tool == "record_decision"@ || tool == "record_artifact"@ || tool == "record_evidence"@
            || tool == "get_mission_context"@,
        has_text(args, "mission_id"@, text),
        forall|v: u128| !denotes(text, v),
    ensures
        *final(store) == *old(store),
        reply matches Reply::Line(line) && line@ == ok_line(id, tool_error("invalid mission id"@)),
{
    tool_names_differ();
    let params = message.unwrap().params.unwrap();
    text_found(params, "name"@, tool);
    member_found(params, "arguments"@, args);
    text_found(args, "mission_id"@, text);
}

/// A `since` that is no time is refused with an error of the tool that names it.
pub proof fn a_since_that_is_no_time_is_refused(
    store: &mut SharedContextStore,
    message: Result<IncomingMessage, String>,
    reply: Reply,
    id: Seq<char>,
    args: Json,
    v: u128,
    raw: Seq<char>,
)
    requires
        call_ensures(handle_message, (store, message), reply),
        calls_tool(message, id, "get_mission_context"@, args),
        names_mission(args, v),
        has_text(args, "since"@, raw),
        rfc3339_instant(raw) is Err,
    ensures
        *final(store) == *old(store),
        reply matches Reply::Line(line) && line@ == ok_line(
            id,
            tool_error("invalid `since` timestamp `"@ + raw + "`"@),
        ),
{
    tool_names_differ();
    let params = message.unwrap().params.unwrap();
    text_found(params, "name"@, "get_mission_context"@);
    member_found(params, "arguments"@, args);
    mission_found(args, v);
    text_found(args, "since"@, raw);
}

/// A call of a tool that is none of the four, one that names no tool, one without parameters and
/// a request of an unknown method are refused by their codes; a line that was no message is
/// refused under no id. None of them changes the store.
pub proof fn refusals_go_by_their_codes(
    store: &mut SharedContextStore,
    message: Result<IncomingMessage, String>,
    reply: Reply,
    tool: Seq<char>,
)
    requires
        call_ensures(handle_message, (store, message), reply),
    ensures
        message matches Err(e) ==> *final(store) == *old(store) && (reply matches Reply::Line(line)
            && line@ == err_line("null"@, -32700i32, e@)),
        message matches Ok(m) ==> (m.id matches Some(id) ==> {
            &&& m.method@ != "tools/call"@ ==> *final(store) == *old(store)
            &&& m.method@ != "tools/call"@ && m.method@ != "tools/list"@ && m.method@ != "ping"@
                && m.method@ != "initialize"@ ==> (reply matches Reply::Line(line) && line@
                == err_line(id@, -32601i32, "unknown method: "@ + m.method@))
            &&& m.method@ == "tools/call"@ && m.params is None ==> *final(store) == *old(store) && (
            reply matches Reply::Line(line) && line@ == err_line(
                id@,
                -32602i32,
                "missing params"@,
            ))
            &&& m.method@ == "tools/call"@ && (m.params matches Some(params) && has_no_text(
                params,
                "name"@,
            )) ==> *final(store) == *old(store) && (reply matches Reply::Line(line) && line@
                == err_line(id@, -32602i32, "missing tool name"@))
            &&& m.method@ == "tools/call"@ && (m.params matches Some(params) && has_text(
                params,
                "name"@,
                tool,
            )) && tool != "record_decision"@ && tool != "record_artifact"@ && tool
                != "record_evidence"@ && tool != "get_mission_context"@ ==> *final(store) == *old(store) && (reply matches Reply::Line(line) && line@ == err_line(
                id@,
                -32602i32,
                "unknown tool: "@ + tool,
            ))
        }),
{
    tool_names_differ();
    match message {
        Ok(m) => match m.params {
            Some(params) => {
                if has_no_text(params, "name"@) {
                    no_text_found(params, "name"@);
                }
                if has_text(params, "name"@, tool) {
                    text_found(params, "name"@, tool);
                }
            },
            None => {},
        },
        Err(_) => {},
    }
}

/// A notification changes nothing and gets no answer, whatever it asks for; every other message
/// gets one.
pub proof fn a_notification_changes_nothing(
    store: &mut SharedContextStore,
    message: Result<IncomingMessage, String>,
    reply: Reply,
)
    requires
        call_ensures(handle_message, (store, message), reply),
    ensures
        reply is Silent <==> (message matches Ok(m) && m.id is None),
        reply is Silent ==> *final(store) == *old(store),
{
}

/// A `ping` is answered with an empty result, `initialize` with one that names the protocol, and
/// `tools/list` with one that names the four tools.
pub proof fn requests_without_a_tool_are_answered(
    store: &mut SharedContextStore,
    message: Result<IncomingMessage, String>,
    reply: Reply,
    id: Seq<char>,
)
    requires
        call_ensures(handle_message, (store, message), reply),
        message matches Ok(m) && m.id matches Some(to) && to@ == id,
    ensures
        message.unwrap().method@ == "ping"@ ==> (reply matches Reply::Line(line) && line@
            == ok_line(id, "{}"@)),
        message.unwrap().method@ == "initialize"@ ==> (reply matches Reply::Line(line)
            && exists|result: Seq<char>|
            line@ == #[trigger] ok_line(id, result) && has_prefix(
                result,
                "{\"protocolVersion\":\"2025-06-18\""@,
            )),
        message.unwrap().method@ == "tools/list"@ ==> (reply matches Reply::Line(line)
            && exists|result: Seq<char>|
            line@ == #[trigger] ok_line(id, result) && has_prefix(result, "{\"tools\":["@)),
{
    tool_names_differ();
    if message.unwrap().method@ == "initialize"@ {
        let result = crate::mcp_server::initialize_text();
        assert(has_prefix(result, "{\"protocolVersion\":\"2025-06-18\""@)) by {
            reveal_strlit("{\"protocolVersion\":\"");
            reveal_strlit("2025-06-18");
            reveal_strlit("\",\"capabilities\":{\"tools\":{}},\"serverInfo\":{\"name\":\"");
            reveal_strlit("{\"protocolVersion\":\"2025-06-18\"");
            let prefix = "{\"protocolVersion\":\"2025-06-18\""@;
            assert(result.subrange(0, prefix.len() as int) =~= prefix);
        }
    }
    if message.unwrap().method@ == "tools/list"@ {
        let result = "{\"tools\":"@ + crate::mcp_server::tool_definitions_text() + "}"@;
        assert(has_prefix(result, "{\"tools\":["@)) by {
            reveal_strlit("{\"tools\":");
            reveal_strlit("[");
            reveal_strlit("{\"tools\":[");
            let prefix = "{\"tools\":["@;
            assert(result.subrange(0, prefix.len() as int) =~= prefix);
        }
    }
}

/// An answer holds, behind its id, its result as it is; a refusal holds its code in decimal and
/// its words in quotes; the two are told apart by their keys.
pub proof fn answers_hold_their_results(
    id: Seq<char>,
    result: Seq<char>,
    code: i32,
    message: Seq<char>,
)
    ensures
        answers(ok_line(id, result), id),
        answers(err_line(id, code, message), id),
        has_part(ok_line(id, result), "\"result\":"@ + result),
        has_part(err_line(id, code, message), "\"code\":"@ + signed_decimal(code as int) + ","@),
        has_part(err_line(id, code, message), "\"message\":"@ + json_quoted(message)),
        has_part(err_line(id, code, message), "\"error\":"@),
        has_part(tool_text(message), "\"text\":"@ + json_quoted(message)),
        has_part(tool_error(message), "\"text\":"@ + json_quoted(message)),
        has_part(tool_error(message), "\"isError\":true"@),
{
    reveal_strlit(",");
    reveal_strlit(",\"result\":");
    reveal_strlit("\"result\":");
    reveal_strlit(",\"error\":{\"code\":");
    reveal_strlit("\"code\":");
    reveal_strlit("\"error\":");
    reveal_strlit("\"message\":");
    reveal_strlit(",\"message\":");
    reveal_strlit("\"text\":");
    reveal_strlit("\"isError\":true");
    reveal_strlit("{\"content\":[{\"type\":\"text\",\"text\":");
    reveal_strlit("}],\"isError\":true}");
    let head = "{\"jsonrpc\":\"2.0\",\"id\":"@ + id;
    let prefix = head + ","@;
    let ok = ok_line(id, result);
    let err = err_line(id, code, message);
    assert(ok.subrange(0, prefix.len() as int) =~= prefix);
    assert(err.subrange(0, prefix.len() as int) =~= prefix);
    let a = "\"result\":"@ + result;
    let n = head.len() as int + 1;
    assert(ok.subrange(n, n + a.len()) =~= a);
    let b = "\"error\":"@;
    assert(err.subrange(n, n + b.len()) =~= b);
    let c = "\"code\":"@ + signed_decimal(code as int) + ","@;
    let at = head.len() as int + 10;
    assert(err.subrange(at, at + c.len()) =~= c);
    let d = "\"message\":"@ + json_quoted(message);
    let k = at + c.len();
    assert(err.subrange(k, k + d.len()) =~= d);
    let e = "\"text\":"@ + json_quoted(message);
    let text = tool_text(message);
    let error = tool_error(message);
    assert(text.subrange(27, 27int + e.len()) =~= e);
    assert(error.subrange(27, 27int + e.len()) =~= e);
    let f = "\"isError\":true"@;
    let m: int = 27int + e.len() + 3;
    assert(error.subrange(m, m + f.len()) =~= f);
}

/// What the answer to a call holds: the text of the tool's success, or the words of its failure,
/// marked as such, behind the id of the call.
pub proof fn a_call_is_answered_with_its_outcome(id: &str, outcome: Result<String, String>, r: String)
    requires
        call_ensures(finish_call, (id, &outcome), r),
    ensures
        answers(r@, id@),
        outcome matches Ok(text) ==> r@ == ok_line(id@, tool_text(text@)),
        outcome matches Err(e) ==> r@ == ok_line(id@, tool_error(e@)),
{
    answers_hold_their_results(id@, tool_text(seq![]), 0, seq![]);
    match outcome {
        Ok(text) => {
            answers_hold_their_results(id@, tool_text(text@), 0, seq![]);
        },
        Err(e) => {
            answers_hold_their_results(id@, tool_error(e@), 0, seq![]);
        },
    }
}

/// Whether a request is to record evidence of these texts for a mission, with the exit code, the
/// author and the role that the arguments name.
pub open spec fn asks_to_record_evidence(
    request: ToolRequest,
    v: u128,
    asked_command: Seq<char>,
    asked_result: Seq<char>,
    args: Json,
) -> bool {
    match request {
        ToolRequest::RecordEvidence { mission_id, command, result, exit_code, author, role } => {
            &&& mission_id.value == v
            &&& command@ == asked_command
            &&& result@ == asked_result
            &&& is_exit_code_of(exit_code, args)
            &&& is_author_of(author@, args)
            &&& is_role_of(role, args)
        },
        _ => false,
    }
}

/// Whether a request is to record an artifact of these texts for a mission, with the author and the
/// role that the arguments name.
pub open spec fn asks_to_record_artifact(
    request: ToolRequest,
    v: u128,
    asked_path: Seq<char>,
    asked_summary: Seq<char>,
    args: Json,
) -> bool {
    match request {
        ToolRequest::RecordArtifact { mission_id, path, change_summary, author, role } => {
            &&& mission_id.value == v
            &&& path@ == asked_path
            &&& change_summary@ == asked_summary
            &&& is_author_of(author@, args)
            &&& is_role_of(role, args)
        },
        _ => false,
    }
}

/// Whether a request is to record a decision of these texts for a mission, with the author and the
/// role that the arguments name.
pub open spec fn asks_to_record_decision(
    request: ToolRequest,
    v: u128,
    asked_key: Seq<char>,
    asked_value: Seq<char>,
    args: Json,
) -> bool {
    match request {
        ToolRequest::RecordDecision { mission_id, key, value, author, role } => {
            &&& mission_id.value == v
            &&& key@ == asked_key
            &&& value@ == asked_value
            &&& is_author_of(author@, args)
            &&& is_role_of(role, args)
        },
        _ => false,
    }
}

/// A call that names its mission and what its tool needs asks the store, under the call's id, to
/// record just that.
pub proof fn a_call_asks_for_what_it_says(
    message: Result<IncomingMessage, String>,
    step: Step,
    id: Seq<char>,
    args: Json,
    v: u128,
    first: Seq<char>,
    second: Seq<char>,
)
    requires
        call_ensures(begin_message, (message,), step),
        names_mission(args, v),
    ensures
        calls_tool(message, id, "record_evidence"@, args) && has_text(args, "command"@, first)
            && has_text(args, "result"@, second) ==> (step matches Step::Call { id: to, request }
            && to@ == id && asks_to_record_evidence(request, v, first, second, args)),
        calls_tool(message, id, "record_artifact"@, args) && has_text(args, "path"@, first)
            && has_text(args, "change_summary"@, second) ==> (step matches Step::Call {
            id: to,
            request,
        } && to@ == id && asks_to_record_artifact(request, v, first, second, args)),
        calls_tool(message, id, "record_decision"@, args) && has_text(args, "key"@, first)
            && has_text(args, "value"@, second) ==> (step matches Step::Call { id: to, request }
            && to@ == id && asks_to_record_decision(request, v, first, second, args)),
{
    tool_names_differ();
    mission_found(args, v);
    if calls_tool(message, id, "record_evidence"@, args) && has_text(args, "command"@, first)
        && has_text(args, "result"@, second) {
        let params = message.unwrap().params.unwrap();
        text_found(params, "name"@, "record_evidence"@);
        member_found(params, "arguments"@, args);
        text_found(args, "command"@, first);
        text_found(args, "result"@, second);
        match step {
            Step::Call { id: to, request } => match request {
                ToolRequest::RecordEvidence { exit_code, author, role, .. } => {
                    author_found(args, author@);
                    role_found(args, role);
                    exit_code_found(args, exit_code);
                },
                _ => {},
            },
            _ => {},
        }
    }
    if calls_tool(message, id, "record_artifact"@, args) && has_text(args, "path"@, first)
        && has_text(args, "change_summary"@, second) {
        let params = message.unwrap().params.unwrap();
        text_found(params, "name"@, "record_artifact"@);
        member_found(params, "arguments"@, args);
        text_found(args, "path"@, first);
        text_found(args, "change_summary"@, second);
        match step {
            Step::Call { id: to, request } => match request {
                ToolRequest::RecordArtifact { author, role, .. } => {
                    author_found(args, author@);
                    role_found(args, role);
                },
                _ => {},
            },
            _ => {},
        }
    }
    if calls_tool(message, id, "record_decision"@, args) && has_text(args, "key"@, first)
        && has_text(args, "value"@, second) {
        let params = message.unwrap().params.unwrap();
        text_found(params, "name"@, "record_decision"@);
        member_found(params, "arguments"@, args);
        text_found(args, "key"@, first);
        text_found(args, "value"@, second);
        match step {
            Step::Call { id: to, request } => match request {
                ToolRequest::RecordDecision { author, role, .. } => {
                    author_found(args, author@);
                    role_found(args, role);
                },
                _ => {},
            },
            _ => {},
        }
    }
}

/// The two ways to handle a message agree: where the first step is an answer, that is the answer and
/// the store stays as it is; where it is silence, there is no answer; and where it is a recording,
/// the answer is the request's own confirmation, to the same id.
pub proof fn the_two_ways_to_handle_a_message_agree(
    store: &mut SharedContextStore,
    message: Result<IncomingMessage, String>,
    reply: Reply,
    step: Step,
    request: ToolRequest,
    confirmation: String,
)
    requires
        call_ensures(handle_message, (store, message), reply),
        call_ensures(begin_message, (message,), step),
        call_ensures(ToolRequest::confirmation, (&request,), confirmation),
    ensures
        step is Silent <==> reply is Silent,
        step matches Step::Respond(line) ==> *final(store) == *old(store) && (reply matches Reply::Line(
            said,
        ) && said@ == line@),
        (step matches Step::Call { id, request: asked } && asked == request && !(request
            is ReadContext)) ==> (step matches Step::Call { id, request: asked } && (reply matches
            Reply::Line(said) && said@ == ok_line(id@, tool_text(confirmation@)))),
{
}

/// A recording is confirmed by what was recorded and for which mission.
pub proof fn a_recording_is_confirmed(request: ToolRequest, r: String)
    requires
        call_ensures(ToolRequest::confirmation, (&request,), r),
    ensures
        request matches ToolRequest::RecordDecision { mission_id, key, .. } ==> r@
            == "Recorded decision `"@ + key@ + "` for mission "@ + hyphenated_form(mission_id.value)
            + "."@,
        request matches ToolRequest::RecordArtifact { mission_id, path, .. } ==> r@
            == "Recorded artifact change to `"@ + path@ + "` for mission "@ + hyphenated_form(
            mission_id.value,
        ) + "."@,
        request matches ToolRequest::RecordEvidence { mission_id, command, .. } ==> r@
            == "Recorded evidence for `"@ + command@ + "` for mission "@ + hyphenated_form(
            mission_id.value,
        ) + "."@,
{
}

/// A call without arguments lacks the mission.
pub proof fn a_call_without_arguments_lacks_the_mission(
    store: &mut SharedContextStore,
    message: Result<IncomingMessage, String>,
    reply: Reply,
    m: IncomingMessage,
    params: Json,
    id: String,
    tool: Seq<char>,
)
    requires
        call_ensures(handle_message, (store, message), reply),
        message == Ok::<IncomingMessage, String>(m),
        m.id == Some(id),
        m.method@ == "tools/call"@,
        m.params == Some(params),
        has_text(params, "name"@, tool),
        tool == "record_decision"@ || tool == "record_artifact"@ || tool == "record_evidence"@
            || tool == "get_mission_context"@,
        forall|value: Json| !#[trigger] has_member(params, "arguments"@, value),
    ensures
        *final(store) == *old(store),
        reply matches Reply::Line(line) && line@ == ok_line(
            id@,
            tool_error("missing required argument `"@ + "mission_id"@ + "`"@),
        ),
{
    tool_names_differ();
    text_found(params, "name"@, tool);
    match params {
        Json::Object(fields) => {
            members_are_looked_up(fields@, "arguments"@);
            match lookup(fields@, "arguments"@) {
                Some(value) => {
                    assert(has_member(params, "arguments"@, value));
                },
                None => {},
            }
        },
        _ => {},
    }
}

/// Inside a JSON string a quote, a backslash and a control character stand behind a backslash, and
/// every other character stands for itself.
pub proof fn characters_are_escaped(c: char)
    ensures
        c != '"' && c != '\\' && (c as u32) >= 32 ==> json_escaped(c) == seq![c],
        c == '"' ==> json_escaped(c) == seq!['\\', '"'],
        c == '\\' ==> json_escaped(c) == seq!['\\', '\\'],
        (c as u32) == 8 ==> json_escaped(c) == seq!['\\', 'b'],
        (c as u32) == 9 ==> json_escaped(c) == seq!['\\', 't'],
        (c as u32) == 10 ==> json_escaped(c) == seq!['\\', 'n'],
        (c as u32) == 12 ==> json_escaped(c) == seq!['\\', 'f'],
        (c as u32) == 13 ==> json_escaped(c) == seq!['\\', 'r'],
        (c as u32) < 32 ==> json_escaped(c)[0] == '\\' && json_escaped(c)[1] != '"',
        (c as u32) < 8 || (c as u32) == 11 || 14 <= (c as u32) < 32 ==> json_escaped(c).len() == 6
            && json_escaped(c)[1] == 'u' && json_escaped(c)[2] == '0' && json_escaped(c)[3] == '0',
{
}

/// A JSON string is the characters of a text, each escaped, in their order, between quotes.
pub proof fn a_json_string_is_its_characters(a: Seq<char>, b: Seq<char>, c: char)
    ensures
        json_quoted(seq![]) == seq!['"', '"'],
        json_quoted(seq![c]) == seq!['"'] + json_escaped(c) + seq!['"'],
        json_body(a + b) == json_body(a) + json_body(b),
        json_quoted(a) == seq!['"'] + json_body(a) + seq!['"'],
    decreases b.len(),
{
    reveal_with_fuel(json_body, 2);
    assert(json_quoted(seq![]) =~= seq!['"', '"']);
    assert(seq![c].drop_last() =~= Seq::<char>::empty());
    assert(json_body(seq![c]) =~= json_escaped(c));
    if b.len() == 0 {
        assert(a + b =~= a);
        assert(json_body(a) + json_body(b) =~= json_body(a));
    } else {
        a_json_string_is_its_characters(a, b.drop_last(), c);
        assert((a + b).drop_last() =~= a + b.drop_last());
        assert((a + b).last() == b.last());
        assert(json_body(a + b) =~= json_body(a) + json_body(b));
    }
}

/// A reading by the tool succeeds exactly where the store's own does; where the store refuses a
/// stored time, the answer is an error of the tool with the store's words.
pub proof fn the_tool_reads_where_the_store_does(
    store: &mut SharedContextStore,
    message: Result<IncomingMessage, String>,
    reply: Reply,
    id: Seq<char>,
    args: Json,
    v: u128,
    own: Result<MissionContext, String>,
)
    requires
        call_ensures(handle_message, (store, message), reply),
        calls_tool(message, id, "get_mission_context"@, args),
        names_mission(args, v),
        has_no_text(args, "since"@),
        call_ensures(
            SharedContextStore::get_mission_context,
            (&*old(store), MissionId { value: v }, None),
            own,
        ),
    ensures
        reply is Context <==> own is Ok,
        own matches Err(why) ==> (reply matches Reply::Line(line) && line@ == ok_line(
            id,
            tool_error(why@),
        )),
{
    tool_names_differ();
    let params = message.unwrap().params.unwrap();
    text_found(params, "name"@, "get_mission_context"@);
    member_found(params, "arguments"@, args);
    mission_found(args, v);
    no_text_found(args, "since"@);
}

/// An answer is one line wherever the id it goes to is, whatever the call and its outcome hold.
pub proof fn an_answer_is_one_line(
    store: &mut SharedContextStore,
    message: Result<IncomingMessage, String>,
    reply: Reply,
    step: Step,
    id: &str,
    outcome: Result<String, String>,
    r: String,
    i: int,
)
    requires
        call_ensures(handle_message, (store, message), reply),
        call_ensures(begin_message, (message,), step),
        call_ensures(finish_call, (id, &outcome), r),
        message matches Ok(m) ==> (m.id matches Some(to) ==> forall|j: int|
            0 <= j < to@.len() ==> #[trigger] to@[j] != '\n'),
    ensures
        reply matches Reply::Line(line) ==> (0 <= i < line@.len() ==> line@[i] != '\n'),
        step matches Step::Respond(line) ==> (0 <= i < line@.len() ==> line@[i] != '\n'),
        (forall|j: int| 0 <= j < id@.len() ==> #[trigger] id@[j] != '\n') ==> (0 <= i < r@.len()
            ==> r@[i] != '\n'),
{
}

} // verus!
