use ai::errors::{AppError, OpenRouterClientError, StatusCode};
use ai::generation::{data_generation_failed, file_text, Attempts, MAX_ATTEMPTS};
use ai::graph::{GraphSchema, Role, TypeSchema};
use ai::json::{Json, JsonNumber};
use ai::order::{sort_by_key, str_less};
use ai::retry::{decide_retry, is_retryable_status, parse_u64_exec, Delay, RetryDecision, TryOutcome};
use ai::stream::{line_data_exec, SseBuffer, StreamAnswer, StreamDelta, ToolCallDelta};
use ai::tool_executor::{
    check_embedding_count, edge_created_item, edge_item_exec, finish_tool, item_failed, mark_created,
    node_similar_item, similar_nodes_answer,
    node_created_item, plan_outcome, plan_tool, tool_kind_of, ToolCommand, ToolKind, ToolPlan,
};
use ai::tools::{build_tool_list, role_from_name};
use ai::messages::{session_role_from_name, SessionMessageRole};

fn to_json(v: &serde_json::Value) -> Json {
    match v {
        serde_json::Value::Null => Json::Null,
        serde_json::Value::Bool(b) => Json::Bool(*b),
        serde_json::Value::Number(n) => {
            if let Some(u) = n.as_u64() {
                Json::Number(JsonNumber::PosInt(u))
            } else if let Some(i) = n.as_i64() {
                Json::Number(JsonNumber::NegInt(i))
            } else {
                Json::Number(JsonNumber::Float(n.as_f64().unwrap().to_bits()))
            }
        }
        serde_json::Value::String(s) => Json::String(s.clone()),
        serde_json::Value::Array(a) => Json::Array(a.iter().map(to_json).collect()),
        serde_json::Value::Object(m) => {
            Json::Object(m.iter().map(|(k, v)| (k.clone(), to_json(v))).collect())
        }
    }
}

fn to_value(j: &Json) -> serde_json::Value {
    match j {
        Json::Null => serde_json::Value::Null,
        Json::Bool(b) => serde_json::Value::Bool(*b),
        Json::Number(JsonNumber::PosInt(u)) => serde_json::Value::from(*u),
        Json::Number(JsonNumber::NegInt(i)) => serde_json::Value::from(*i),
        Json::Number(JsonNumber::Float(bits)) => serde_json::Value::from(f64::from_bits(*bits)),
        Json::String(s) => serde_json::Value::String(s.clone()),
        Json::Array(a) => serde_json::Value::Array(a.iter().map(to_value).collect()),
        Json::Object(m) => {
            let mut map = serde_json::Map::new();
            for (k, v) in m {
                map.insert(k.clone(), to_value(v));
            }
            serde_json::Value::Object(map)
        }
    }
}

fn args(text: &str) -> Result<Json, String> {
    serde_json::from_str::<serde_json::Value>(text).map(|v| to_json(&v)).map_err(|e| e.to_string())
}

fn value(text: &str) -> serde_json::Value {
    serde_json::from_str(text).unwrap()
}

fn schema() -> GraphSchema {
    let t = |key: &str, label: &str| TypeSchema {
        key: key.to_string(),
        label: label.to_string(),
        description: String::new(),
        properties: vec![],
    };
    GraphSchema { nodes: vec![t("pers0001", "Person"), t("comp0001", "Company")], edges: vec![t("work0001", "Works At")] }
}

fn invalid(p: ToolPlan) -> String {
    match p {
        ToolPlan::Invalid(e) => e,
        other => panic!("expected an invalid call, got {other:?}"),
    }
}

fn command(p: ToolPlan) -> ToolCommand {
    match p {
        ToolPlan::Run(c) => c,
        other => panic!("expected a command, got {other:?}"),
    }
}

const ID_A: &str = "0190a5f2-7c3e-7a1b-8c2d-1234567890ab";
const ID_B: &str = "0190a5f2-7c3e-7a1b-8c2d-abcdefabcdef";

#[test]
fn write_tools_are_refused_to_readers() {
    let p = plan_tool("create_node", &args("{}"), &schema(), Role::Viewer);
    match p {
        ToolPlan::Denied(m) => assert_eq!(
            m,
            "Permission denied: role 'Viewer' cannot use tool 'create_node'. Write access requires Owner, Admin, or Editor role."
        ),
        other => panic!("expected a refusal, got {other:?}"),
    }
    let outcome = plan_outcome("create_node", plan_tool("delete_edge", &args("{}"), &schema(), Role::NoAccess)).unwrap();
    assert!(outcome.content.starts_with("Permission denied: role 'None'"));
    assert!(!outcome.schema_changed && !outcome.is_done);
    // reading tools are open to readers
    let c = command(plan_tool("get_node", &args(&format!(r#"{{"node_data_id": "{ID_A}"}}"#)), &schema(), Role::Viewer));
    assert!(matches!(c, ToolCommand::GetNode { node_data_id } if node_data_id == 0x0190a5f27c3e7a1b8c2d1234567890ab));
}

#[test]
fn unknown_tools_and_unreadable_arguments_fail() {
    assert_eq!(invalid(plan_tool("fly", &args("{}"), &schema(), Role::Owner)), "Unknown tool: fly");
    assert_eq!(
        invalid(plan_tool("get_node", &Err("expected value".to_string()), &schema(), Role::Owner)),
        "Invalid tool arguments: expected value"
    );
    assert_eq!(
        invalid(plan_tool("get_node", &args("{}"), &schema(), Role::Owner)),
        "Missing required field: node_data_id"
    );
    let o = plan_outcome("get_node", plan_tool("get_node", &args("{}"), &schema(), Role::Owner)).unwrap();
    assert_eq!(o.content, "Error: Missing required field: node_data_id");
}

#[test]
fn done_always_runs() {
    let c = command(plan_tool("done", &Err("bad".to_string()), &schema(), Role::NoAccess));
    assert!(matches!(c, ToolCommand::Done { summary } if summary == "Task completed."));
    let c = command(plan_tool("done", &args(r#"{"summary": "Stored 3 people."}"#), &schema(), Role::Viewer));
    assert!(matches!(c, ToolCommand::Done { summary } if summary == "Stored 3 people."));
    let o = finish_tool("done", Ok("Stored 3 people.".to_string()));
    assert!(o.is_done && !o.schema_changed);
    assert_eq!(o.content, "Stored 3 people.");
}

#[test]
fn finishing_a_tool() {
    let o = finish_tool("create_schema", Ok("Created".to_string()));
    assert!(o.schema_changed && !o.is_done);
    let o = finish_tool("create_schema", Err("boom".to_string()));
    assert!(!o.schema_changed);
    assert_eq!(o.content, "Error: boom");
    let o = finish_tool("create_node", Ok("x".to_string()));
    assert!(!o.schema_changed && !o.is_done);
}

#[test]
fn search_arguments_and_defaults() {
    let c = command(plan_tool("search_nodes", &args(r#"{"query": "ada", "limit": 3}"#), &schema(), Role::Viewer));
    assert!(matches!(c, ToolCommand::SearchNodes { ref query, node_key: None, limit: 3 } if query == "ada"));
    let c = command(plan_tool("search_nodes", &args(r#"{"query": "ada", "limit": 99999999999, "node_key": "pers0001"}"#), &schema(), Role::Viewer));
    assert!(matches!(c, ToolCommand::SearchNodes { limit: 10, node_key: Some(ref k), .. } if k == "pers0001"));
    let c = command(plan_tool("get_neighbors", &args(&format!(r#"{{"node_data_id": "{ID_A}", "depth": "2"}}"#)), &schema(), Role::Viewer));
    assert!(matches!(c, ToolCommand::GetNeighbors { depth: 1, edge_key: None, .. }));
    let c = command(plan_tool("find_paths", &args(&format!(r#"{{"from_node_data_id": "{ID_A}", "to_node_data_id": "{ID_B}"}}"#)), &schema(), Role::Viewer));
    assert!(matches!(c, ToolCommand::FindPaths { max_depth: 5, .. }));
}

#[test]
fn create_node_arguments() {
    let c = command(plan_tool(
        "create_node",
        &args(r#"{"node_key": "pers0001", "properties": {"Name": "Ada", "force": true}, "force": true}"#),
        &schema(),
        Role::Editor,
    ));
    match c {
        ToolCommand::CreateNode { node } => {
            assert_eq!(node.node_key, "pers0001");
            assert!(node.force);
            assert_eq!(node.properties.len(), 1);
            assert_eq!(node.properties[0].0, "Name");
        }
        other => panic!("unexpected {other:?}"),
    }
    // properties at the top level are taken when there is no "properties" object
    let c = command(plan_tool("create_node", &args(r#"{"node_key": "pers0001", "Name": "Ada"}"#), &schema(), Role::Admin));
    assert!(matches!(c, ToolCommand::CreateNode { node } if node.properties.len() == 1 && !node.force));
    assert_eq!(
        invalid(plan_tool("create_node", &args(r#"{"node_key": "pers0001"}"#), &schema(), Role::Owner)),
        "Missing required field: properties"
    );
    assert_eq!(
        invalid(plan_tool("create_node", &args(r#"{"node_key": "nope", "properties": {}}"#), &schema(), Role::Owner)),
        "Unknown node schema key 'nope'. Valid schemas: pers0001 (Person), comp0001 (Company)"
    );
}

#[test]
fn create_edge_arguments() {
    let c = command(plan_tool(
        "create_edge",
        &args(&format!(r#"{{"edge_key": "work0001", "from_node_data_id": "{ID_A}", "to_node_data_id": "{ID_B}", "properties": {{"Since": 2020}}}}"#)),
        &schema(),
        Role::Owner,
    ));
    assert!(matches!(c, ToolCommand::CreateEdge { edge } if edge.edge_key == "work0001" && edge.properties.len() == 1));
    assert_eq!(
        invalid(plan_tool(
            "create_edge",
            &args(&format!(r#"{{"edge_key": "x", "from_node_data_id": "{ID_A}", "to_node_data_id": "{ID_B}", "properties": {{}}}}"#)),
            &schema(),
            Role::Owner,
        )),
        "Unknown edge schema key 'x'. Valid schemas: work0001 (Works At)"
    );
    let e = invalid(plan_tool(
        "create_edge",
        &args(r#"{"edge_key": "work0001", "from_node_data_id": "not-an-id", "to_node_data_id": "x"}"#),
        &schema(),
        Role::Owner,
    ));
    assert_eq!(e, uuid::Uuid::parse_str("not-an-id").unwrap_err().to_string());
}

#[test]
fn batches_are_checked() {
    assert_eq!(invalid(plan_tool("create_nodes", &args("{}"), &schema(), Role::Owner)), "Missing required field: nodes");
    assert_eq!(invalid(plan_tool("create_nodes", &args(r#"{"nodes": []}"#), &schema(), Role::Owner)), "nodes array is empty");
    let many = format!(r#"{{"edges": [{}]}}"#, vec!["{}"; 51].join(","));
    assert_eq!(invalid(plan_tool("create_edges", &args(&many), &schema(), Role::Owner)), "Maximum 50 edges per batch");
    assert_eq!(
        invalid(plan_tool(
            "create_nodes",
            &args(r#"{"nodes": [{"node_key": "pers0001", "properties": {"Name": "A"}}, {"properties": {}}]}"#),
            &schema(),
            Role::Owner,
        )),
        "nodes[1]: missing node_key"
    );
    let c = command(plan_tool(
        "create_nodes",
        &args(r#"{"nodes": [{"node_key": "pers0001", "properties": {"Name": "A"}}, {"node_key": "comp0001", "properties": {"Name": "B"}, "force": true}]}"#),
        &schema(),
        Role::Owner,
    ));
    match c {
        ToolCommand::CreateNodes { entries } => {
            assert_eq!(entries.len(), 2);
            assert!(!entries[0].force && entries[1].force);
        }
        other => panic!("unexpected {other:?}"),
    }
    let c = command(plan_tool("create_edges", &args(r#"{"edges": [{"edge_key": "work0001"}]}"#), &schema(), Role::Owner));
    let items = match c {
        ToolCommand::CreateEdges { items } => items,
        other => panic!("unexpected {other:?}"),
    };
    assert_eq!(edge_item_exec(0, &items[0], &schema()).unwrap_err(), "edges[0]: missing from_node_data_id");
    let item = args(&format!(r#"{{"edge_key": "work0001", "from_node_data_id": "{ID_A}", "to_node_data_id": "zz"}}"#)).unwrap();
    let err = edge_item_exec(3, &item, &schema()).unwrap_err();
    assert!(err.starts_with("edges[3]: invalid to_node_data_id: "));
    assert_eq!(check_embedding_count(2, 3).unwrap_err(), "Embedding count mismatch: got 2 for 3 nodes");
    assert!(check_embedding_count(3, 3).is_ok());
}

#[test]
fn batch_answers() {
    let j = node_created_item(4, Json::String("id".into()), Json::String("k".into()), Json::Object(vec![]));
    assert_eq!(
        to_value(&j),
        value(r#"{"index": 4, "created": true, "node_data_id": "id", "key": "k", "properties": {}}"#)
    );
    assert_eq!(to_value(&item_failed(1, "down")), value(r#"{"index": 1, "created": false, "error": "down"}"#));
    let marked = mark_created(to_json(&value(r#"{"a": 1, "created": false}"#)));
    assert_eq!(to_value(&marked), value(r#"{"a": 1, "created": true}"#));
    assert_eq!(to_value(&mark_created(Json::Null)), value("null"));
}

#[test]
fn tool_names() {
    assert_eq!(tool_kind_of("create_edges"), Some(ToolKind::CreateEdges));
    assert_eq!(tool_kind_of("Create_edges"), None);
}

#[test]
fn tool_list_depends_on_role() {
    let names = |role: Role| -> Vec<String> { build_tool_list(role).into_iter().map(|t| t.function.name).collect() };
    assert_eq!(names(Role::Viewer), vec!["search_nodes", "get_node", "get_neighbors", "find_paths", "done"]);
    assert_eq!(
        names(Role::Editor),
        vec![
            "search_nodes", "get_node", "get_neighbors", "find_paths", "create_schema", "create_edge_schema",
            "create_node", "create_edge", "update_node", "done"
        ]
    );
    let tools = build_tool_list(Role::Owner);
    assert!(tools.iter().all(|t| t.type_ == "function"));
    assert_eq!(
        to_value(&tools[1].function.parameters),
        value(r#"{"type": "object", "properties": {"node_data_id": {"type": "string", "description": "The unique ID of the node to retrieve"}}, "required": ["node_data_id"], "additionalProperties": false}"#)
    );
    assert_eq!(role_from_name("Editor"), Role::Editor);
    assert_eq!(role_from_name("editor"), Role::NoAccess);
}

#[test]
fn event_lines_across_chunks() {
    let mut b = SseBuffer::new();
    assert!(b.push_chunk(b"data: {\"a\"").is_empty());
    assert_eq!(b.push_chunk(b": 1}\n\n: comment\ndata: x\r\n"), vec!["{\"a\": 1}".to_string(), "x".to_string()]);
    assert!(b.push_chunk(b"data: [DONE]\n").is_empty());
    assert!(b.push_chunk(b"data: tail without newline").is_empty());
    assert_eq!(line_data_exec("  data: y  "), Some("y".to_string()));
    assert_eq!(line_data_exec("data:y"), None);
    assert_eq!(line_data_exec("data: "), None);
}

#[test]
fn deltas_build_the_answer() {
    let mut a = StreamAnswer::new();
    let call = |index: usize, id: Option<&str>, name: Option<&str>, args: Option<&str>| ToolCallDelta {
        index,
        id: id.map(String::from),
        name: name.map(String::from),
        arguments: args.map(String::from),
    };
    a.apply(&StreamDelta { content: Some("Hel".into()), tool_calls: None });
    a.apply(&StreamDelta { content: Some("lo".into()), tool_calls: Some(vec![call(1, Some("c2"), Some("get_node"), Some("{\"a\""))]) });
    a.apply(&StreamDelta { content: None, tool_calls: Some(vec![call(1, None, None, Some(": 1}")), call(0, None, Some("orphan"), None)]) });
    let r = a.finish();
    assert_eq!(r.content.as_deref(), Some("Hello"));
    assert_eq!(r.tool_calls.len(), 1);
    assert_eq!(r.tool_calls[0].id, "c2");
    assert_eq!(r.tool_calls[0].type_, "function");
    assert_eq!(r.tool_calls[0].function.arguments, "{\"a\": 1}");
    let empty = StreamAnswer::new().finish();
    assert!(empty.content.is_none() && empty.tool_calls.is_empty());
}

#[test]
fn retry_decisions() {
    assert!(is_retryable_status(429) && is_retryable_status(503));
    assert!(!is_retryable_status(200) && !is_retryable_status(404) && !is_retryable_status(501));
    assert_eq!(
        decide_retry(0, TryOutcome::Response { status: 503, retry_after: None }),
        RetryDecision::Retry(Delay::Millis(200))
    );
    assert_eq!(
        decide_retry(1, TryOutcome::Response { status: 429, retry_after: Some(7) }),
        RetryDecision::Retry(Delay::Seconds(7))
    );
    assert_eq!(decide_retry(1, TryOutcome::Failed { transient: true }), RetryDecision::Retry(Delay::Millis(400)));
    assert_eq!(decide_retry(2, TryOutcome::Response { status: 503, retry_after: None }), RetryDecision::Deliver);
    assert_eq!(decide_retry(2, TryOutcome::Failed { transient: true }), RetryDecision::Fail);
    assert_eq!(decide_retry(0, TryOutcome::Failed { transient: false }), RetryDecision::Fail);
    assert_eq!(decide_retry(0, TryOutcome::Response { status: 200, retry_after: None }), RetryDecision::Deliver);
    assert_eq!(parse_u64_exec("120"), Some(120));
    assert_eq!(parse_u64_exec("+5"), Some(5));
    assert_eq!(parse_u64_exec("18446744073709551615"), Some(u64::MAX));
    assert_eq!(parse_u64_exec("18446744073709551616"), None);
    assert_eq!(parse_u64_exec(""), None);
    assert_eq!(parse_u64_exec("+"), None);
    assert_eq!(parse_u64_exec(" 1"), None);
    assert_eq!(parse_u64_exec("-1"), None);
}

#[test]
fn error_wording_and_status() {
    let e = AppError::FileParsing { message: "Failed to parse file".into(), source: "x".into() };
    assert_eq!(e.message(), "File parsing failed: Failed to parse file");
    assert_eq!(e.status_code(), StatusCode::InvalidArgument);
    let e = AppError::OpenRouterClient(OpenRouterClientError::NoSuccessResponse { status: "503 Service Unavailable".into(), body: "busy".into() });
    assert_eq!(e.message(), "OpenRouter API returned non-success status 503 Service Unavailable: busy");
    assert_eq!(e.status_code(), StatusCode::Unavailable);
    let e = AppError::OpenRouterClient(OpenRouterClientError::DataGeneration { message: "bad".into() });
    assert_eq!(e.message(), "AI failed to generate valid data after multiple attempts: bad");
    assert_eq!(e.status_code(), StatusCode::Internal);
    assert_eq!(data_generation_failed("bad"), e.message());
}

#[test]
fn three_attempts_at_most() {
    let mut a = Attempts::new("SYS", "USER");
    let first = a.begin();
    assert_eq!(first.len(), 2);
    assert!(a.retry("{bad}", "fix it"));
    let second = a.begin();
    assert_eq!(second.len(), 4);
    assert_eq!(second[2].role, "assistant");
    assert_eq!(second[2].content.as_deref(), Some("{bad}"));
    assert_eq!(second[3].content.as_deref(), Some("fix it"));
    assert!(a.retry("{bad}", "fix it"));
    let _third = a.begin();
    assert_eq!(a.attempt(), MAX_ATTEMPTS);
    assert!(!a.retry("{bad}", "fix it"));
}

#[test]
fn uploaded_files_must_be_text() {
    assert_eq!(file_text("h\u{e9}".as_bytes()), Some("h\u{e9}".to_string()));
    assert_eq!(file_text(&[0xff, 0x00]), None);
}

#[test]
fn stable_sort_by_key() {
    let keys: Vec<String> = ["b", "a", "b", "A", ""].iter().map(|s| s.to_string()).collect();
    assert_eq!(sort_by_key(&keys), vec![4, 3, 1, 0, 2]);
    assert!(str_less("ab", "b") && str_less("a", "ab") && !str_less("b", "b") && str_less("Z", "a"));
}

#[test]
fn more_batch_answers() {
    let j = edge_created_item(0, Json::String("work0001".into()), Json::String("a".into()), Json::String("b".into()));
    assert_eq!(
        to_value(&j),
        value(r#"{"index": 0, "created": true, "edge_key": "work0001", "from_node_data_id": "a", "to_node_data_id": "b"}"#)
    );
    let j = node_similar_item(2, Json::Array(vec![]));
    assert_eq!(
        to_value(&j),
        value(r#"{"index": 2, "created": false, "reason": "Similar node already exists", "similar_nodes": []}"#)
    );
    let j = similar_nodes_answer(Json::Array(vec![]));
    assert_eq!(
        to_value(&j),
        value(r#"{"created": false, "reason": "Similar nodes already exist. Use update_node to merge information into an existing node, or call create_node again with force=true to create anyway.", "similar_nodes": []}"#)
    );
}

#[test]
fn stored_roles_by_name() {
    assert_eq!(session_role_from_name("user"), SessionMessageRole::User);
    assert_eq!(session_role_from_name("assistant"), SessionMessageRole::Assistant);
    assert_eq!(session_role_from_name("tool"), SessionMessageRole::Tool);
    assert_eq!(session_role_from_name("system"), SessionMessageRole::System);
    assert_eq!(session_role_from_name("other"), SessionMessageRole::System);
}
