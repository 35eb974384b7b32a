use ai::agent::build_effective_message;
use ai::chunking::parse_document_message;
use ai::creation::{
    create_edge_answer, resolve_node, CreationEvent, CreationRequest, EdgeBatch, NodeBatch, NodeCreation,
    Resolution, SimilarHit,
};
use ai::graph::{GraphSchema, Role, TypeSchema};
use ai::json::{Json, JsonNumber};
use ai::tool_executor::{plan_outcome, plan_tool, NodeEntry, ToolCommand, ToolPlan};

fn to_json(v: &serde_json::Value) -> Json {
    match v {
        serde_json::Value::Null => Json::Null,
        serde_json::Value::Bool(b) => Json::Bool(*b),
        serde_json::Value::Number(n) => {
            if let Some(u) = n.as_u64() {
                Json::Number(JsonNumber::PosInt(u))
            } else if let Some(i) = n.as_i64() {
                Json::Number(JsonNumber::NegInt(i))
            } else {
                Json::Number(JsonNumber::Float(n.as_f64().unwrap().to_bits()))
            }
        }
        serde_json::Value::String(s) => Json::String(s.clone()),
        serde_json::Value::Array(a) => Json::Array(a.iter().map(to_json).collect()),
        serde_json::Value::Object(m) => Json::Object(m.iter().map(|(k, v)| (k.clone(), to_json(v))).collect()),
    }
}

fn to_value(j: &Json) -> serde_json::Value {
    match j {
        Json::Null => serde_json::Value::Null,
        Json::Bool(b) => serde_json::Value::Bool(*b),
        Json::Number(JsonNumber::PosInt(u)) => serde_json::Value::from(*u),
        Json::Number(JsonNumber::NegInt(i)) => serde_json::Value::from(*i),
        Json::Number(JsonNumber::Float(bits)) => serde_json::Value::from(f64::from_bits(*bits)),
        Json::String(s) => serde_json::Value::String(s.clone()),
        Json::Array(a) => serde_json::Value::Array(a.iter().map(to_value).collect()),
        Json::Object(m) => {
            let mut map = serde_json::Map::new();
            for (k, v) in m {
                map.insert(k.clone(), to_value(v));
            }
            serde_json::Value::Object(map)
        }
    }
}

fn json(text: &str) -> Json {
    to_json(&serde_json::from_str::<serde_json::Value>(text).unwrap())
}

fn value(text: &str) -> serde_json::Value {
    serde_json::from_str(text).unwrap()
}

fn schema() -> GraphSchema {
    let t = |key: &str, label: &str| TypeSchema {
        key: key.to_string(),
        label: label.to_string(),
        description: String::new(),
        properties: vec![],
    };
    GraphSchema { nodes: vec![t("pers0001", "Person")], edges: vec![t("work0001", "Works At")] }
}

fn entry(key: &str, name: &str, force: bool) -> NodeEntry {
    NodeEntry { node_key: key.to_string(), properties: vec![("Name".to_string(), Json::String(name.to_string()))], force }
}

fn hit(close: bool, name: &str) -> SimilarHit {
    SimilarHit { close, hit: json(&format!(r#"{{"node_data_id": "n-{name}", "key": "pers0001", "properties": {{"Name": "{name}"}}}}"#)) }
}

fn finished(r: CreationRequest) -> Result<serde_json::Value, String> {
    match r {
        CreationRequest::Finish(answer) => answer.map(|j| to_value(&j)),
        other => panic!("expected the end, got {other:?}"),
    }
}

const ID_A: &str = "0190a5f2-7c3e-7a1b-8c2d-1234567890ab";
const ID_B: &str = "0190a5f2-7c3e-7a1b-8c2d-abcdefabcdef";

#[test]
fn edge_without_properties_has_none() {
    let a = json(&format!(r#"{{"edge_key": "work0001", "from_node_data_id": "{ID_A}", "to_node_data_id": "{ID_B}"}}"#));
    match plan_tool("create_edge", &Ok(a), &schema(), Role::Owner) {
        ToolPlan::Run(ToolCommand::CreateEdge { edge }) => {
            assert!(edge.properties.is_empty());
            assert_eq!(edge.from_node_data_id, uuid::Uuid::parse_str(ID_A).unwrap().as_u128());
        }
        other => panic!("expected a create_edge command, got {other:?}"),
    }
    let a = json(&format!(r#"{{"edge_key": "work0001", "from_node_data_id": "{ID_A}", "to_node_data_id": "{ID_B}", "Since": 2020}}"#));
    match plan_tool("create_edge", &Ok(a), &schema(), Role::Owner) {
        ToolPlan::Run(ToolCommand::CreateEdge { edge }) => {
            assert_eq!(edge.properties.len(), 1);
            assert_eq!(edge.properties[0].0, "Since");
        }
        other => panic!("expected a create_edge command, got {other:?}"),
    }
}

#[test]
fn done_ends_the_turn_by_itself() {
    let o = plan_outcome("done", plan_tool("done", &Ok(json(r#"{"summary": "All stored"}"#)), &schema(), Role::Viewer)).unwrap();
    assert_eq!(o.content, "All stored");
    assert!(o.is_done && !o.schema_changed);
    let o = plan_outcome("done", plan_tool("done", &Err("not json".to_string()), &schema(), Role::Viewer)).unwrap();
    assert_eq!(o.content, "Task completed.");
    assert!(o.is_done);
    assert!(plan_outcome("get_node", plan_tool("get_node", &Ok(json(&format!(r#"{{"node_data_id": "{ID_A}"}}"#))), &schema(), Role::Viewer)).is_none());
}

#[test]
fn resolution_needs_a_close_hit() {
    assert!(matches!(resolve_node(false, &vec![hit(false, "A")]), Resolution::Create));
    assert!(matches!(resolve_node(true, &vec![hit(true, "A")]), Resolution::Create));
    match resolve_node(false, &vec![hit(false, "A"), hit(true, "B")]) {
        Resolution::Similar(v) => {
            assert_eq!(v.len(), 1);
            assert_eq!(to_value(&v[0])["node_data_id"], "n-B");
        }
        other => panic!("expected similar nodes, got {other:?}"),
    }
}

#[test]
fn create_node_finds_similar_nodes() {
    let (m, r) = NodeCreation::start(entry("pers0001", "Alice", false));
    assert!(matches!(r, CreationRequest::Embed { ref sets } if sets.len() == 1));
    let (m, r) = m.step(CreationEvent::Embedded(Ok(1)));
    assert!(matches!(r, CreationRequest::Search { index: 0, ref node_key } if node_key == "pers0001"));
    let (m, r) = m.step(CreationEvent::Searched(Ok(vec![hit(true, "Alicia"), hit(false, "Bob"), hit(true, "Ali")])));
    assert!(matches!(r, CreationRequest::Neighbors { ref candidate } if to_value(candidate)["node_data_id"] == "n-Alicia"));
    let (m, r) = m.step(CreationEvent::NeighborsFound(Some((3, 2))));
    assert!(matches!(r, CreationRequest::Neighbors { ref candidate } if to_value(candidate)["node_data_id"] == "n-Ali"));
    let (_, r) = m.step(CreationEvent::NeighborsFound(None));
    let answer = finished(r).unwrap();
    assert_eq!(answer["created"], false);
    assert_eq!(answer["similar_nodes"][0]["neighbors"], value(r#"{"node_count": 3, "edge_count": 2}"#));
    assert_eq!(answer["similar_nodes"][1]["neighbors"], serde_json::Value::Null);
    assert_eq!(answer["similar_nodes"].as_array().unwrap().len(), 2);
}

#[test]
fn create_node_creates_when_nothing_is_close() {
    let (m, _) = NodeCreation::start(entry("pers0001", "Alice", false));
    let (m, _) = m.step(CreationEvent::Embedded(Ok(1)));
    let (m, r) = m.step(CreationEvent::Searched(Ok(vec![hit(false, "Bob")])));
    assert!(matches!(r, CreationRequest::CreateNode { index: 0, .. }));
    let (_, r) = m.step(CreationEvent::Created(Ok(json(r#"{"node_data_id": "n1", "key": "pers0001"}"#))));
    assert_eq!(finished(r).unwrap(), value(r#"{"node_data_id": "n1", "key": "pers0001", "created": true}"#));
}

#[test]
fn create_node_errors() {
    let (m, _) = NodeCreation::start(entry("pers0001", "Alice", true));
    let (_, r) = m.step(CreationEvent::Embedded(Err("down".to_string())));
    assert_eq!(finished(r).unwrap_err(), "Embedding failed: down");
    let (m, _) = NodeCreation::start(entry("pers0001", "Alice", true));
    let (m, r) = m.step(CreationEvent::Embedded(Ok(1)));
    assert!(matches!(r, CreationRequest::CreateNode { .. }));
    let (_, r) = m.step(CreationEvent::Created(Err("taken".to_string())));
    assert_eq!(finished(r).unwrap_err(), "Failed to create node: taken");
    let (m, _) = NodeCreation::start(entry("pers0001", "Alice", false));
    let (m, _) = m.step(CreationEvent::Embedded(Ok(1)));
    let (_, r) = m.step(CreationEvent::Searched(Err("timeout".to_string())));
    assert_eq!(finished(r).unwrap_err(), "Entity resolution search failed: timeout");
    let (m, _) = NodeCreation::start(entry("pers0001", "Alice", false));
    let (_, r) = m.step(CreationEvent::Embedded(Ok(0)));
    assert_eq!(
        finished(r).unwrap_err(),
        "Embedding failed: OpenRouter API returned an invalid response format: No embedding data in response"
    );
}

#[test]
fn node_batch_resolves_each_node() {
    let (m, r) = NodeBatch::start(vec![entry("pers0001", "Alice", false), entry("pers0001", "Bob", true), entry("pers0001", "Carol", false)]);
    assert!(matches!(r, CreationRequest::Embed { ref sets } if sets.len() == 3));
    let (m, r) = m.step(CreationEvent::Embedded(Ok(3)));
    assert!(matches!(r, CreationRequest::Search { index: 0, .. }));
    let (m, r) = m.step(CreationEvent::Searched(Ok(vec![hit(true, "Alicia")])));
    assert!(matches!(r, CreationRequest::CreateNode { index: 1, .. }));
    let (m, r) = m.step(CreationEvent::Created(Err("conflict".to_string())));
    assert!(matches!(r, CreationRequest::Search { index: 2, .. }));
    let (m, r) = m.step(CreationEvent::Searched(Ok(vec![])));
    assert!(matches!(r, CreationRequest::CreateNode { index: 2, .. }));
    let (_, r) = m.step(CreationEvent::Created(Ok(json(r#"{"node_data_id": "n3", "key": "pers0001", "properties": {"Name": "Carol"}}"#))));
    let answer = finished(r).unwrap();
    assert_eq!(answer[0]["created"], false);
    assert_eq!(answer[0]["reason"], "Similar node already exists");
    assert_eq!(answer[0]["similar_nodes"][0]["node_data_id"], "n-Alicia");
    assert_eq!(answer[1], value(r#"{"index": 1, "created": false, "error": "conflict"}"#));
    assert_eq!(
        answer[2],
        value(r#"{"index": 2, "created": true, "node_data_id": "n3", "key": "pers0001", "properties": {"Name": "Carol"}}"#)
    );
}

#[test]
fn node_batch_errors() {
    let (m, _) = NodeBatch::start(vec![entry("pers0001", "Alice", false), entry("pers0001", "Bob", false)]);
    let (_, r) = m.step(CreationEvent::Embedded(Ok(1)));
    assert_eq!(finished(r).unwrap_err(), "Embedding count mismatch: got 1 for 2 nodes");
    let (m, _) = NodeBatch::start(vec![entry("pers0001", "Alice", false), entry("pers0001", "Bob", false)]);
    let (m, _) = m.step(CreationEvent::Embedded(Ok(2)));
    let (m, _) = m.step(CreationEvent::Searched(Ok(vec![])));
    let (m, _) = m.step(CreationEvent::Created(Ok(json(r#"{"node_data_id": "n1"}"#))));
    let (_, r) = m.step(CreationEvent::Searched(Err("timeout".to_string())));
    assert_eq!(finished(r).unwrap_err(), "nodes[1]: entity resolution failed: timeout");
    let (m, _) = NodeBatch::start(vec![entry("pers0001", "Alice", false)]);
    let (_, r) = m.step(CreationEvent::Embedded(Err("down".to_string())));
    assert_eq!(finished(r).unwrap_err(), "Batch embedding failed: down");
}

#[test]
fn an_unexpected_event_changes_nothing() {
    let (m, _) = NodeBatch::start(vec![entry("pers0001", "Alice", false)]);
    let (m, r) = m.step(CreationEvent::Created(Ok(Json::Null)));
    assert!(matches!(r, CreationRequest::Embed { .. }));
    let (_, r) = m.step(CreationEvent::Embedded(Ok(1)));
    assert!(matches!(r, CreationRequest::Search { index: 0, .. }));
}

#[test]
fn edge_batch_goes_on_after_a_failure_and_stops_at_a_bad_item() {
    let items = vec![
        json(&format!(r#"{{"edge_key": "work0001", "from_node_data_id": "{ID_A}", "to_node_data_id": "{ID_B}"}}"#)),
        json(&format!(r#"{{"edge_key": "work0001", "from_node_data_id": "{ID_B}", "to_node_data_id": "{ID_A}"}}"#)),
        json(r#"{"edge_key": "work0001"}"#),
    ];
    let (m, r) = EdgeBatch::start(items, &schema());
    assert!(matches!(r, CreationRequest::CreateEdge { index: 0, ref edge } if edge.properties.is_empty()));
    let created = json(&format!(r#"{{"key": "work0001", "from_node_data_id": "{ID_A}", "to_node_data_id": "{ID_B}", "edge_data_id": "e1"}}"#));
    let (m, r) = m.step(Ok(created), &schema());
    assert!(matches!(r, CreationRequest::CreateEdge { index: 1, .. }));
    let (_, r) = m.step(Err("no such node".to_string()), &schema());
    assert_eq!(finished(r).unwrap_err(), "edges[2]: missing from_node_data_id");

    let items = vec![json(&format!(r#"{{"edge_key": "work0001", "from_node_data_id": "{ID_A}", "to_node_data_id": "{ID_B}"}}"#))];
    let (m, _) = EdgeBatch::start(items, &schema());
    let (_, r) = m.step(Err("no such node".to_string()), &schema());
    assert_eq!(finished(r).unwrap(), value(r#"[{"index": 0, "created": false, "error": "no such node"}]"#));
}

#[test]
fn edge_batch_answers_with_the_created_edges() {
    let items = vec![json(&format!(r#"{{"edge_key": "work0001", "from_node_data_id": "{ID_A}", "to_node_data_id": "{ID_B}"}}"#))];
    let (m, _) = EdgeBatch::start(items, &schema());
    let created = json(&format!(r#"{{"key": "work0001", "from_node_data_id": "{ID_A}", "to_node_data_id": "{ID_B}"}}"#));
    let (_, r) = m.step(Ok(created), &schema());
    assert_eq!(
        finished(r).unwrap(),
        value(&format!(r#"[{{"index": 0, "created": true, "edge_key": "work0001", "from_node_data_id": "{ID_A}", "to_node_data_id": "{ID_B}"}}]"#))
    );
}

#[test]
fn single_edge_answer() {
    let r = create_edge_answer(Ok(json(r#"{"key": "work0001"}"#))).unwrap();
    assert_eq!(to_value(&r), value(r#"{"key": "work0001", "created": true}"#));
    assert_eq!(create_edge_answer(Err("gone".to_string())).unwrap_err(), "Failed to create edge: gone");
}

#[test]
fn parsing_undoes_the_combined_message() {
    let m = build_effective_message("Extract people", Some("Alice works at Acme."));
    let (d, u) = parse_document_message(&m);
    assert_eq!(d.as_deref(), Some("Alice works at Acme."));
    assert_eq!(u.as_deref(), Some("Extract people"));
    let m = build_effective_message("", Some("Alice works at Acme."));
    let (d, u) = parse_document_message(&m);
    assert_eq!(d.as_deref(), Some("Alice works at Acme."));
    assert_eq!(u, None);
}

#[test]
fn renaming_twice_is_renaming_once() {
    let v = json(r#"{"attributes": {"a": 1}, "nodes": [{"attributes": [], "properties": 2}]}"#);
    let once = ai::schema_service::rename_attributes_to_properties(v);
    let once_value = to_value(&once);
    let twice = ai::schema_service::rename_attributes_to_properties(once);
    assert_eq!(to_value(&twice), once_value);
    assert_eq!(once_value, value(r#"{"properties": {"a": 1}, "nodes": [{"properties": 2}]}"#));
}

#[test]
fn node_ids_in_properties_are_kept_where_they_are_not_parameters() {
    let a = json(&format!(
        r#"{{"edge_key": "work0001", "from_node_data_id": "{ID_A}", "to_node_data_id": "{ID_B}", "properties": {{"from_node_data_id": "x", "force": true}}}}"#
    ));
    match plan_tool("create_edge", &Ok(a), &schema(), Role::Owner) {
        ToolPlan::Run(ToolCommand::CreateEdge { edge }) => {
            assert_eq!(edge.properties.len(), 1);
            assert_eq!(edge.properties[0].0, "from_node_data_id");
        }
        other => panic!("expected a create_edge command, got {other:?}"),
    }
    let a = json(r#"{"node_key": "pers0001", "properties": {"Name": "Alice", "to_node_data_id": "y"}}"#);
    match plan_tool("create_node", &Ok(a), &schema(), Role::Owner) {
        ToolPlan::Run(ToolCommand::CreateNode { node }) => assert_eq!(node.properties.len(), 2),
        other => panic!("expected a create_node command, got {other:?}"),
    }
}
