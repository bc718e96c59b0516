use missions::mcp_server::begin_message;
use missions::mcp_server::finish_call;
use missions::mcp_server::handle_message;
use missions::mcp_server::IncomingMessage;
use missions::mcp_server::Json;
use missions::mcp_server::Reply;
use missions::mcp_server::Step;
use missions::mcp_server::ToolRequest;
use missions::shared_context::MissionContext;
use missions::shared_context::SharedContextStore;
use serde_json::Value;

const MISSION: &str = "2f3d9b0e-6c3e-4b8a-9c3f-1a2b3c4d5e6f";

fn json(text: &str) -> Value {
    serde_json::from_str(text).expect("not valid JSON")
}

fn model(value: &Value) -> Json {
    match value {
        Value::Null => Json::Null,
        Value::Bool(b) => Json::Bool(*b),
        Value::Number(n) => {
            if let Some(n) = n.as_u64() {
                Json::PosInt(n)
            } else if let Some(n) = n.as_i64() {
                Json::NegInt(n)
            } else {
                Json::Float(n.to_string())
            }
        }
        Value::String(s) => Json::Str(s.clone()),
        Value::Array(items) => Json::Array(items.iter().map(model).collect()),
        Value::Object(fields) => {
            Json::Object(fields.iter().map(|(key, value)| (key.clone(), model(value))).collect())
        }
    }
}

fn message(id: Option<&str>, method: &str, params: Option<&str>) -> IncomingMessage {
    IncomingMessage {
        id: id.map(str::to_string),
        method: method.to_string(),
        params: params.map(|text| model(&json(text))),
    }
}

/// One conversation with the server.
struct Server {
    store: SharedContextStore,
    next_id: i64,
}

impl Server {
    fn spawn() -> Self {
        Server { store: SharedContextStore::new(), next_id: 1 }
    }

    fn send(&mut self, method: &str, params: &str) -> (String, Reply) {
        let id = self.next_id.to_string();
        self.next_id += 1;
        let reply = handle_message(&mut self.store, Ok(message(Some(&id), method, Some(params))));
        (id, reply)
    }

    fn request(&mut self, method: &str, params: &str) -> Value {
        match self.send(method, params) {
            (id, Reply::Line(line)) => {
                assert!(!line.contains('\n'));
                let response = json(&line);
                assert_eq!(response["jsonrpc"], "2.0");
                assert_eq!(response["id"], json(&id));
                response
            }
            _ => panic!("no line came back"),
        }
    }

    fn call_tool(&mut self, name: &str, arguments: &str) -> Value {
        self.request("tools/call", &format!("{{\"name\":\"{name}\",\"arguments\":{arguments}}}"))
    }

    fn read(&mut self, arguments: &str) -> MissionContext {
        let params = format!("{{\"name\":\"get_mission_context\",\"arguments\":{arguments}}}");
        match self.send("tools/call", &params) {
            (sent, Reply::Context { id, context }) => {
                assert_eq!(sent, id);
                context
            }
            _ => panic!("no context came back"),
        }
    }
}

fn error_text(response: &Value) -> &str {
    assert_eq!(response["result"]["isError"], Value::Bool(true));
    response["result"]["content"][0]["text"].as_str().unwrap()
}

#[test]
fn initialize_then_list_tools() {
    let mut server = Server::spawn();

    let initialize = server.request(
        "initialize",
        r#"{
            "protocolVersion": "2025-06-18",
            "capabilities": {},
            "clientInfo": { "name": "stdio-integration-test", "version": "0.0.0" }
        }"#,
    );
    assert_eq!(initialize["result"]["serverInfo"]["name"], "shared-context-mcp");
    assert_eq!(initialize["result"]["protocolVersion"], "2025-06-18");
    assert_eq!(initialize["result"]["capabilities"], json("{\"tools\":{}}"));

    let list = server.request("tools/list", "{}");
    let tool_names: Vec<&str> = list["result"]["tools"]
        .as_array()
        .expect("tools/list result should have a tools array")
        .iter()
        .map(|tool| tool["name"].as_str().unwrap())
        .collect();
    assert_eq!(
        tool_names,
        vec!["record_decision", "record_artifact", "record_evidence", "get_mission_context"]
    );
}

#[test]
fn the_tools_say_what_they_take() {
    let mut server = Server::spawn();
    let list = server.request("tools/list", "{}");
    let tools = list["result"]["tools"].as_array().unwrap();
    let names = |tool: &Value| -> Vec<String> {
        tool["inputSchema"]["properties"].as_object().unwrap().keys().cloned().collect()
    };
    assert_eq!(names(&tools[0]), vec!["mission_id", "key", "value", "author", "role"]);
    assert_eq!(names(&tools[1]), vec!["mission_id", "path", "change_summary", "author", "role"]);
    assert_eq!(
        names(&tools[2]),
        vec!["mission_id", "command", "result", "exit_code", "author", "role"]
    );
    assert_eq!(names(&tools[3]), vec!["mission_id", "since"]);
    let required = |tool: &Value| tool["inputSchema"]["required"].clone();
    assert_eq!(required(&tools[0]), json("[\"mission_id\",\"key\",\"value\"]"));
    assert_eq!(required(&tools[1]), json("[\"mission_id\",\"path\",\"change_summary\"]"));
    assert_eq!(required(&tools[2]), json("[\"mission_id\",\"command\",\"result\"]"));
    assert_eq!(required(&tools[3]), json("[\"mission_id\"]"));
    for tool in tools {
        let description = tool["description"].as_str().unwrap();
        assert!(description.ends_with("and you should not call this tool."));
        assert_eq!(tool["inputSchema"]["type"], "object");
    }
    assert_eq!(
        tools[0]["inputSchema"]["properties"]["key"]["description"],
        "Short label for the decision, e.g. \"auth-strategy\"."
    );
    assert_eq!(
        tools[0]["inputSchema"]["properties"]["author"]["description"],
        "Readable identifier for the Harness/agent recording this, e.g. \"codex\"."
    );
    assert!(tools[3]["description"].as_str().unwrap().contains("capped at 50 rows per category. If you"));
}

#[test]
fn record_decision_then_read_it_back_via_get_mission_context() {
    let mut server = Server::spawn();

    let record = server.call_tool(
        "record_decision",
        &format!(
            r#"{{
                "mission_id": "{MISSION}",
                "key": "auth-strategy",
                "value": "use OAuth device flow",
                "author": "codex",
                "role": "coding"
            }}"#
        ),
    );
    assert_ne!(record["result"]["isError"], Value::Bool(true));
    assert_eq!(
        record["result"]["content"][0]["text"],
        "Recorded decision `auth-strategy` for mission 2f3d9b0e-6c3e-4b8a-9c3f-1a2b3c4d5e6f."
    );

    let context = server.read(&format!("{{\"mission_id\":\"{MISSION}\"}}"));
    assert_eq!(context.decisions.len(), 1);
    assert_eq!(context.decisions[0].key, "auth-strategy");
    assert_eq!(context.decisions[0].value, "use OAuth device flow");
    assert_eq!(context.decisions[0].author, "codex");
    assert_eq!(context.decisions[0].role.as_deref(), Some("coding"));
}

#[test]
fn record_artifact_and_evidence_round_trip() {
    let mut server = Server::spawn();

    server.call_tool(
        "record_artifact",
        &format!(
            r#"{{
                "mission_id": "{MISSION}",
                "path": "src/auth.rs",
                "change_summary": "added device flow handler"
            }}"#
        ),
    );
    server.call_tool(
        "record_evidence",
        &format!(
            r#"{{
                "mission_id": "{MISSION}",
                "command": "cargo test -p auth",
                "result": "3 passed; 0 failed",
                "exit_code": 0
            }}"#
        ),
    );

    let context = server.read(&format!("{{\"mission_id\":\"{MISSION}\"}}"));
    assert_eq!(context.artifacts[0].path, "src/auth.rs");
    assert_eq!(context.artifacts[0].author, "unknown");
    assert_eq!(context.artifacts[0].role, None);
    assert_eq!(context.evidence[0].command, "cargo test -p auth");
    assert_eq!(context.evidence[0].exit_code, Some(0));
}

#[test]
fn record_decision_with_unknown_mission_id_reports_a_tool_error() {
    let mut server = Server::spawn();

    let response = server.call_tool(
        "record_decision",
        r#"{ "mission_id": "not-a-uuid", "key": "k", "value": "v" }"#,
    );
    assert_eq!(response["result"]["isError"], Value::Bool(true));
    assert_eq!(error_text(&response), "invalid mission id");
    assert!(server.store.decisions.is_empty());
}

#[test]
fn a_missing_argument_is_named() {
    let mut server = Server::spawn();
    let id = format!("\"mission_id\":\"{MISSION}\"");
    for (tool, arguments, missing) in [
        ("record_decision", "{}".to_string(), "mission_id"),
        ("record_decision", format!("{{{id}}}"), "key"),
        ("record_decision", format!("{{{id},\"key\":\"k\"}}"), "value"),
        ("record_decision", format!("{{{id},\"key\":1,\"value\":\"v\"}}"), "key"),
        ("record_artifact", format!("{{{id}}}"), "path"),
        ("record_artifact", format!("{{{id},\"path\":\"p\"}}"), "change_summary"),
        ("record_evidence", format!("{{{id}}}"), "command"),
        ("record_evidence", format!("{{{id},\"command\":\"c\"}}"), "result"),
        ("get_mission_context", "{}".to_string(), "mission_id"),
        ("get_mission_context", "[]".to_string(), "mission_id"),
    ] {
        let response = server.call_tool(tool, &arguments);
        assert_eq!(error_text(&response), format!("missing required argument `{missing}`"));
    }
    assert!(server.store.decisions.is_empty());
}

#[test]
fn a_bound_that_is_no_time_is_refused() {
    let mut server = Server::spawn();
    let response = server.call_tool(
        "get_mission_context",
        &format!("{{\"mission_id\":\"{MISSION}\",\"since\":\"yesterday\"}}"),
    );
    assert_eq!(error_text(&response), "invalid `since` timestamp `yesterday`");
    // A bound that is no text is none.
    let context = server.read(&format!("{{\"mission_id\":\"{MISSION}\",\"since\":5}}"));
    assert_eq!(context.mission_id, MISSION);
}

#[test]
fn a_bound_limits_what_is_read() {
    let mut server = Server::spawn();
    server.call_tool(
        "record_decision",
        &format!("{{\"mission_id\":\"{MISSION}\",\"key\":\"k\",\"value\":\"v\"}}"),
    );
    let after = |since: &str| format!("{{\"mission_id\":\"{MISSION}\",\"since\":\"{since}\"}}");
    assert_eq!(server.read(&after("2020-01-01T00:00:00Z")).decisions.len(), 1);
    assert_eq!(server.read(&after("9999-12-31T23:59:59Z")).decisions.len(), 0);
}

#[test]
fn an_exit_code_is_never_recorded_as_another() {
    let mut server = Server::spawn();
    for (given, kept) in [
        ("0", Some(0)),
        ("-1", Some(-1)),
        ("2147483647", Some(i32::MAX)),
        ("-2147483648", Some(i32::MIN)),
        ("2147483648", None),
        ("-2147483649", None),
        ("4294967296", None),
        ("9223372036854775808", None),
        ("1.5", None),
        ("\"1\"", None),
        ("null", None),
    ] {
        server.call_tool(
            "record_evidence",
            &format!(
                "{{\"mission_id\":\"{MISSION}\",\"command\":\"c\",\"result\":\"r\",\"exit_code\":{given}}}"
            ),
        );
        assert_eq!(server.store.evidence.last().unwrap().exit_code, kept, "{}", given);
    }
}

#[test]
fn a_role_is_trimmed_and_a_blank_one_dropped() {
    let mut server = Server::spawn();
    for (given, kept) in [("\"  coding\\t\"", Some("coding")), ("\"  \"", None), ("3", None)] {
        server.call_tool(
            "record_decision",
            &format!(
                "{{\"mission_id\":\"{MISSION}\",\"key\":\"k\",\"value\":\"v\",\"role\":{given}}}"
            ),
        );
        assert_eq!(server.store.decisions.last().unwrap().role.as_deref(), kept);
    }
}

#[test]
fn the_tool_reads_most_recent_first() {
    let mut server = Server::spawn();
    for key in ["first", "second", "third"] {
        server.call_tool(
            "record_decision",
            &format!("{{\"mission_id\":\"{MISSION}\",\"key\":\"{key}\",\"value\":\"v\"}}"),
        );
        server.call_tool(
            "record_artifact",
            &format!("{{\"mission_id\":\"{MISSION}\",\"path\":\"{key}\",\"change_summary\":\"s\"}}"),
        );
        server.call_tool(
            "record_evidence",
            &format!("{{\"mission_id\":\"{MISSION}\",\"command\":\"{key}\",\"result\":\"r\"}}"),
        );
    }
    let context = server.read(&format!("{{\"mission_id\":\"{MISSION}\"}}"));
    let newest = vec!["third", "second", "first"];
    assert_eq!(context.decisions.iter().map(|d| d.key.as_str()).collect::<Vec<_>>(), newest);
    assert_eq!(context.artifacts.iter().map(|a| a.path.as_str()).collect::<Vec<_>>(), newest);
    assert_eq!(context.evidence.iter().map(|e| e.command.as_str()).collect::<Vec<_>>(), newest);
    // The store itself lists the oldest first.
    let mission = missions::mission_id::MissionId::from_key_string(MISSION).unwrap();
    let listed = server.store.get_mission_context(mission, None).ok().unwrap();
    assert_eq!(listed.decisions[0].key, "first");
}

#[test]
fn notifications_get_no_answer() {
    let mut store = SharedContextStore::new();
    let reply = handle_message(&mut store, Ok(message(None, "notifications/initialized", None)));
    assert!(matches!(reply, Reply::Silent));
    // Not even one that would ask for something.
    let reply = handle_message(&mut store, Ok(message(None, "no such method", None)));
    assert!(matches!(reply, Reply::Silent));
}

#[test]
fn refusals_carry_their_codes() {
    let mut server = Server::spawn();
    let refused = server.request("resources/list", "{}");
    assert_eq!(refused["error"]["code"], -32601);
    assert_eq!(refused["error"]["message"], "unknown method: resources/list");
    let refused = server.request("tools/call", "{}");
    assert_eq!(refused["error"]["code"], -32602);
    assert_eq!(refused["error"]["message"], "missing tool name");
    let refused = server.request("tools/call", "{\"name\":\"forget\"}");
    assert_eq!(refused["error"]["code"], -32602);
    assert_eq!(refused["error"]["message"], "unknown tool: forget");

    let mut store = SharedContextStore::new();
    let reply = handle_message(&mut store, Ok(message(Some("\"a\""), "tools/call", None)));
    match reply {
        Reply::Line(line) => assert_eq!(
            line,
            "{\"jsonrpc\":\"2.0\",\"id\":\"a\",\"error\":{\"code\":-32602,\"message\":\"missing params\"}}"
        ),
        _ => panic!("no line came back"),
    }
    let reply = handle_message(&mut store, Err("expected \"value\"".to_string()));
    match reply {
        Reply::Line(line) => assert_eq!(
            line,
            "{\"jsonrpc\":\"2.0\",\"id\":null,\"error\":{\"code\":-32700,\"message\":\"expected \\\"value\\\"\"}}"
        ),
        _ => panic!("no line came back"),
    }
}

#[test]
fn a_ping_is_answered_with_nothing() {
    let mut store = SharedContextStore::new();
    match handle_message(&mut store, Ok(message(Some("7"), "ping", None))) {
        Reply::Line(line) => assert_eq!(line, "{\"jsonrpc\":\"2.0\",\"id\":7,\"result\":{}}"),
        _ => panic!("no line came back"),
    }
}

#[test]
fn a_call_can_be_carried_out_elsewhere() {
    let params = format!(
        "{{\"name\":\"record_decision\",\"arguments\":{{\"mission_id\":\"{MISSION}\",\"key\":\"k\",\"value\":\"v\"}}}}"
    );
    match begin_message(Ok(message(Some("1"), "tools/call", Some(&params)))) {
        Step::Call { id, request } => {
            assert_eq!(id, "1");
            assert!(matches!(request, ToolRequest::RecordDecision { .. }));
            let failed = finish_call(&id, &Err("disk\nfull".to_string()));
            assert_eq!(
                failed,
                "{\"jsonrpc\":\"2.0\",\"id\":1,\"result\":{\"content\":[{\"type\":\"text\",\"text\":\"disk\\nfull\"}],\"isError\":true}}"
            );
            let done = finish_call(&id, &Ok(request.confirmation()));
            assert_eq!(
                json(&done)["result"]["content"][0]["text"],
                format!("Recorded decision `k` for mission {MISSION}.")
            );
        }
        _ => panic!("not a call"),
    }
}

#[test]
fn answers_quote_their_text_as_json() {
    let mut text = String::from("a/\u{7f}é\u{10ffff}");
    for code in 0..0x60u32 {
        text.push(char::from_u32(code).unwrap());
    }
    let line = finish_call("1", &Ok(text.clone()));
    assert_eq!(json(&line)["result"]["content"][0]["text"].as_str(), Some(text.as_str()));
    assert!(line.contains("\\u0000\\u0001"));
    assert!(line.contains("\\b\\t\\n\\u000b\\f\\r\\u000e\\u000f\\u0010"));
    assert!(line.contains("\\u001f !\\\"#"));
    assert!(line.contains("[\\\\]"));
    assert!(line.chars().all(|c| c >= ' '));
}

#[test]
fn confirmations_name_what_was_recorded() {
    let mut server = Server::spawn();
    let response = server.call_tool(
        "record_artifact",
        &format!("{{\"mission_id\":\"{MISSION}\",\"path\":\"a.rs\",\"change_summary\":\"s\"}}"),
    );
    assert_eq!(
        response["result"]["content"][0]["text"],
        format!("Recorded artifact change to `a.rs` for mission {MISSION}.")
    );
    let response = server.call_tool(
        "record_evidence",
        &format!("{{\"mission_id\":\"{MISSION}\",\"command\":\"make\",\"result\":\"ok\"}}"),
    );
    assert_eq!(
        response["result"]["content"][0]["text"],
        format!("Recorded evidence for `make` for mission {MISSION}.")
    );
}
