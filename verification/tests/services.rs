use ai::data_service::{
    build_correction_prompt, build_nonconformity_report, build_system_prompt, build_user_prompt,
    json_to_graph_data, parse_graph_data, prop_type_display, schema_to_data_json_schema,
};
use ai::graph::{GraphSchema, PropertySchema, PropertyType, TypeSchema};
use ai::json::{Json, JsonNumber};
use ai::schema_service::{openai_to_structured_output_schema, rename_attributes_to_properties};
use std::collections::{HashMap, HashSet};

fn to_json(v: &serde_json::Value) -> Json {
    match v {
        serde_json::Value::Null => Json::Null,
        serde_json::Value::Bool(b) => Json::Bool(*b),
        serde_json::Value::Number(n) => {
            if let Some(u) = n.as_u64() {
                Json::Number(JsonNumber::PosInt(u))
            } else if let Some(i) = n.as_i64() {
                Json::Number(JsonNumber::NegInt(i))
            } else {
                Json::Number(JsonNumber::Float(n.as_f64().unwrap().to_bits()))
            }
        }
        serde_json::Value::String(s) => Json::String(s.clone()),
        serde_json::Value::Array(a) => Json::Array(a.iter().map(to_json).collect()),
        serde_json::Value::Object(m) => {
            Json::Object(m.iter().map(|(k, v)| (k.clone(), to_json(v))).collect())
        }
    }
}

fn to_value(j: &Json) -> serde_json::Value {
    match j {
        Json::Null => serde_json::Value::Null,
        Json::Bool(b) => serde_json::Value::Bool(*b),
        Json::Number(JsonNumber::PosInt(u)) => serde_json::Value::from(*u),
        Json::Number(JsonNumber::NegInt(i)) => serde_json::Value::from(*i),
        Json::Number(JsonNumber::Float(bits)) => serde_json::Value::from(f64::from_bits(*bits)),
        Json::String(s) => serde_json::Value::String(s.clone()),
        Json::Array(a) => serde_json::Value::Array(a.iter().map(to_value).collect()),
        Json::Object(m) => {
            let mut map = serde_json::Map::new();
            for (k, v) in m {
                map.insert(k.clone(), to_value(v));
            }
            serde_json::Value::Object(map)
        }
    }
}

fn value(text: &str) -> serde_json::Value {
    serde_json::from_str(text).unwrap()
}

fn json(text: &str) -> Json {
    to_json(&value(text))
}

fn members_value(m: &[(String, Json)]) -> serde_json::Value {
    let mut map = serde_json::Map::new();
    for (k, v) in m {
        map.insert(k.clone(), to_value(v));
    }
    serde_json::Value::Object(map)
}

fn prop(key: &str, label: &str, t: PropertyType, options: Option<Vec<&str>>) -> PropertySchema {
    PropertySchema {
        key: key.to_string(),
        label: label.to_string(),
        property_type: t,
        options: options.map(|o| o.into_iter().map(String::from).collect()),
    }
}

fn type_schema(key: &str, label: &str, properties: Vec<PropertySchema>) -> TypeSchema {
    TypeSchema { key: key.to_string(), label: label.to_string(), description: String::new(), properties }
}

// Nodes (in schema order): ESVhRs9k (Object), dudFcexv (Person)
// Edges (in schema order): Oq9afK3f (Records)
fn make_schema() -> GraphSchema {
    GraphSchema {
        nodes: vec![
            type_schema(
                "ESVhRs9k",
                "Object",
                vec![
                    prop("po86zGND", "Name", PropertyType::String, None),
                    prop("JboctBKk", "Type", PropertyType::Select, Some(vec!["Lighthouse", "Logbook"])),
                ],
            ),
            type_schema(
                "dudFcexv",
                "Person",
                vec![
                    prop("B1ixXXAx", "Name", PropertyType::String, None),
                    prop("h2GIMoa9", "Years of Experience", PropertyType::Number, None),
                ],
            ),
        ],
        edges: vec![type_schema(
            "Oq9afK3f",
            "Records",
            vec![prop("QVL3enQS", "Frequency", PropertyType::Select, Some(vec!["Daily", "Weekly", "Monthly"]))],
        )],
    }
}

const TYPE_SCHEMA: &str = r#"{
    "type": "object",
    "additionalProperties": false,
    "required": ["columns", "rows"],
    "properties": {
        "columns": {"type": "array", "items": {"type": "string"}},
        "rows": {
            "type": "array",
            "items": {
                "type": "array",
                "items": {"anyOf": [{"type": "string"}, {"type": "number"}, {"type": "boolean"}]}
            }
        }
    }
}"#;

#[test]
fn test_schema_to_data_json_schema() {
    let schema = make_schema();
    let result = schema_to_data_json_schema(&schema);
    let expected = value(&format!(
        r#"{{
            "type": "object",
            "additionalProperties": false,
            "required": ["nodes", "edges"],
            "properties": {{
                "nodes": {{
                    "type": "object",
                    "additionalProperties": false,
                    "required": ["ESVhRs9k", "dudFcexv"],
                    "properties": {{"ESVhRs9k": {t}, "dudFcexv": {t}}}
                }},
                "edges": {{
                    "type": "object",
                    "additionalProperties": false,
                    "required": ["Oq9afK3f"],
                    "properties": {{"Oq9afK3f": {t}}}
                }}
            }}
        }}"#,
        t = TYPE_SCHEMA
    ));
    assert_eq!(to_value(&result), expected);
}

#[test]
fn test_json_to_graph_data() {
    let schema = make_schema();
    let input = json(
        r#"{
            "nodes": {
                "ESVhRs9k": {"columns": ["id", "JboctBKk", "po86zGND"], "rows": [["n1", "Lighthouse", "Bell Rock"]]},
                "dudFcexv": {"columns": ["id", "B1ixXXAx", "h2GIMoa9"], "rows": [["n2", "Alice", 10], ["n3", "Bob", 5]]}
            },
            "edges": {
                "Oq9afK3f": {"columns": ["from", "to", "QVL3enQS"], "rows": [["n2", "n1", "Daily"], ["n3", "n1", "Weekly"]]}
            }
        }"#,
    );

    let graph_data = json_to_graph_data(&input, &schema).unwrap();

    // Three nodes, two edges
    assert_eq!(graph_data.nodes.len(), 3);
    assert_eq!(graph_data.edges.len(), 2);

    // All node IDs must be unique
    let id_set: HashSet<u128> = graph_data.nodes.iter().map(|n| n.node_data_id).collect();
    assert_eq!(id_set.len(), 3);

    // Node types and properties, in schema order
    let actual_nodes: Vec<(String, serde_json::Value)> = graph_data
        .nodes
        .iter()
        .map(|n| (n.key.clone(), members_value(&n.properties)))
        .collect();
    assert_eq!(actual_nodes[0], ("ESVhRs9k".to_string(), value(r#"{"JboctBKk": "Lighthouse", "po86zGND": "Bell Rock"}"#)));
    assert_eq!(actual_nodes[1], ("dudFcexv".to_string(), value(r#"{"B1ixXXAx": "Alice", "h2GIMoa9": 10}"#)));
    assert_eq!(actual_nodes[2], ("dudFcexv".to_string(), value(r#"{"B1ixXXAx": "Bob", "h2GIMoa9": 5}"#)));

    // Edges must reference the correct node ids
    let id_to_idx: HashMap<u128, usize> =
        graph_data.nodes.iter().enumerate().map(|(i, n)| (n.node_data_id, i)).collect();
    let actual_edges: Vec<(String, usize, usize, serde_json::Value)> = graph_data
        .edges
        .iter()
        .map(|e| {
            (
                e.key.clone(),
                id_to_idx[&e.from_node_data_id],
                id_to_idx[&e.to_node_data_id],
                members_value(&e.properties),
            )
        })
        .collect();
    assert_eq!(
        actual_edges,
        vec![
            ("Oq9afK3f".to_string(), 1, 0, value(r#"{"QVL3enQS": "Daily"}"#)),
            ("Oq9afK3f".to_string(), 2, 0, value(r#"{"QVL3enQS": "Weekly"}"#)),
        ]
    );
}

#[test]
fn test_json_to_graph_data_unknown_node_id_error() {
    let schema = make_schema();
    let input = json(
        r#"{
            "nodes": {
                "ESVhRs9k": {"columns": ["id", "JboctBKk", "po86zGND"], "rows": [["n1", "Lighthouse", "Bell Rock"]]},
                "dudFcexv": {"columns": ["id", "B1ixXXAx", "h2GIMoa9"], "rows": []}
            },
            "edges": {
                "Oq9afK3f": {"columns": ["from", "to", "QVL3enQS"], "rows": [["n99", "n1", "Daily"]]}
            }
        }"#,
    );
    let err = json_to_graph_data(&input, &schema).unwrap_err();
    assert!(err.contains("n99"), "error should mention the bad ID: {}", err);
    assert!(err.contains("Oq9afK3f"), "error should mention the edge type: {}", err);
}

#[test]
fn graph_data_unknown_node_error_is_exact() {
    let schema = make_schema();
    let input = json(
        r#"{
            "nodes": {
                "ESVhRs9k": {"columns": ["id"], "rows": [["n1"], ["n2"]]}
            },
            "edges": {
                "Oq9afK3f": {"columns": ["from", "to"], "rows": [["n1", "n7"]]}
            }
        }"#,
    );
    let err = json_to_graph_data(&input, &schema).unwrap_err();
    assert_eq!(
        err,
        "Edge type 'Oq9afK3f': 'to' references unknown node ID 'n7'. Valid IDs: [n1, n2]"
    );
}

#[test]
fn graph_data_errors_in_reading_order() {
    let schema = make_schema();
    let cases = [
        (r#"{"edges": {}}"#, "Missing 'nodes' object in response"),
        (r#"{"nodes": {}}"#, "Missing 'edges' object in response"),
        (r#"{"nodes": {"ESVhRs9k": {}}, "edges": {}}"#, "Type 'ESVhRs9k' missing 'columns' array"),
        (r#"{"nodes": {"ESVhRs9k": {"columns": ["id", 3]}}, "edges": {}}"#, "Column name in 'ESVhRs9k' is not a string"),
        (r#"{"nodes": {"ESVhRs9k": {"columns": ["x"]}}, "edges": {}}"#, "Node type 'ESVhRs9k' columns missing 'id'"),
        (r#"{"nodes": {"ESVhRs9k": {"columns": ["id"]}}, "edges": {}}"#, "Node type 'ESVhRs9k' missing 'rows' array"),
        (r#"{"nodes": {"ESVhRs9k": {"columns": ["id"], "rows": [5]}}, "edges": {}}"#, "Row in node type 'ESVhRs9k' is not an array"),
        (r#"{"nodes": {"ESVhRs9k": {"columns": ["a", "id"], "rows": [["x"]]}}, "edges": {}}"#, "Node of type 'ESVhRs9k' missing 'id' at column index 1"),
        (r#"{"nodes": {}, "edges": {"Oq9afK3f": {"columns": ["to"]}}}"#, "Edge type 'Oq9afK3f' columns missing 'from'"),
        (r#"{"nodes": {}, "edges": {"Oq9afK3f": {"columns": ["from"]}}}"#, "Edge type 'Oq9afK3f' columns missing 'to'"),
        (r#"{"nodes": {}, "edges": {"Oq9afK3f": {"columns": ["from", "to"], "rows": 1}}}"#, "Edge type 'Oq9afK3f' missing 'rows' array"),
        (r#"{"nodes": {}, "edges": {"Oq9afK3f": {"columns": ["from", "to"], "rows": ["r"]}}}"#, "Row in edge type 'Oq9afK3f' is not an array"),
        (r#"{"nodes": {}, "edges": {"Oq9afK3f": {"columns": ["from", "to"], "rows": [[1, "a"]]}}}"#, "Edge of type 'Oq9afK3f' missing 'from' at column index 0"),
        (r#"{"nodes": {}, "edges": {"Oq9afK3f": {"columns": ["from", "to"], "rows": [["a"]]}}}"#, "Edge of type 'Oq9afK3f' missing 'to' at column index 1"),
        (r#"{"nodes": {}, "edges": {"Oq9afK3f": {"columns": ["from", "to"], "rows": [["a", "b"]]}}}"#, "Edge type 'Oq9afK3f': 'from' references unknown node ID 'a'. Valid IDs: []"),
    ];
    for (input, expected) in cases {
        assert_eq!(parse_graph_data(&json(input), &schema).unwrap_err(), expected, "input {input}");
    }
}

#[test]
fn graph_data_later_id_and_column_win() {
    let schema = make_schema();
    let input = json(
        r#"{
            "nodes": {
                "dudFcexv": {"columns": ["id", "B1ixXXAx", "B1ixXXAx"], "rows": [["n1", "first", "second"], ["n1", "x", "y"]]},
                "unknown": {"columns": ["id"], "rows": [["n9"]]}
            },
            "edges": {
                "Oq9afK3f": {"columns": ["from", "to", "from"], "rows": [["n1", "n1"]]}
            }
        }"#,
    );
    let g = parse_graph_data(&input, &schema).unwrap();
    assert_eq!(g.nodes.len(), 2);
    assert_eq!(members_value(&g.nodes[0].properties), value(r#"{"B1ixXXAx": "second"}"#));
    assert_eq!(g.edges.len(), 1);
    // the edge points at the last node that had the id
    assert_eq!((g.edges[0].from, g.edges[0].to), (1, 1));
    assert_eq!(members_value(&g.edges[0].properties), value("{}"));
}

#[test]
fn data_prompts() {
    let schema = make_schema();
    let prompt = build_user_prompt("DOC", &schema);
    assert_eq!(
        prompt,
        "Schema column definitions (use these EXACT column names and order):\n\n\
         Node \"ESVhRs9k\" (Object): \"id\" (unique string node ID) | \"JboctBKk\" (Select: Lighthouse, Logbook, label: Type) | \"po86zGND\" (String, label: Name)\n\
         Node \"dudFcexv\" (Person): \"id\" (unique string node ID) | \"B1ixXXAx\" (String, label: Name) | \"h2GIMoa9\" (Number, label: Years of Experience)\n\n\
         Edge \"Oq9afK3f\" (Records): \"from\" (node ID) | \"to\" (node ID) | \"QVL3enQS\" (Select: Daily, Weekly, Monthly, label: Frequency)\n\n\
         Document:\n\nDOC"
    );
    assert!(build_system_prompt().starts_with("You are a graph data extractor assistant."));
    assert_eq!(
        build_correction_prompt("E1"),
        "Your previous response contained errors that must be fixed:\n\nE1\n\nReturn the corrected JSON. Make sure every \"from\" and \"to\" in edges references a valid node ID from the \"id\" column in the nodes section."
    );
    assert_eq!(prop_type_display(&prop("k", "l", PropertyType::Select, None)), "Select");
    assert_eq!(prop_type_display(&prop("k", "l", PropertyType::Boolean, None)), "Boolean");
    assert_eq!(
        build_nonconformity_report(&vec!["a".to_string(), "b".to_string()]),
        "The generated data does not conform to the schema (2 error(s)):\n  1. a\n  2. b"
    );
}

#[test]
fn test_openai_to_structured_output_schema() {
    let openapi_spec = json(
        r##"{
            "openapi": "3.1.0",
            "components": {"schemas": {
                "CreateEdgeSchemaDto": {
                    "type": "object",
                    "required": ["label", "color", "properties"],
                    "properties": {
                        "label": {"type": "string", "minLength": 1, "maxLength": 25, "example": "Knows"},
                        "color": {"type": "string", "pattern": "^#[0-9A-Fa-f]{6}$"},
                        "properties": {"type": "array", "items": {"$ref": "#/components/schemas/CreatePropertySchemaDto"}}
                    }
                },
                "CreateGraphSchemaDto": {
                    "type": "object",
                    "required": ["nodes", "edges"],
                    "properties": {
                        "nodes": {"type": "array", "items": {"$ref": "#/components/schemas/CreateNodeSchemaDto"}},
                        "edges": {"type": "array", "items": {"$ref": "#/components/schemas/CreateEdgeSchemaDto"}}
                    }
                },
                "CreateNodeSchemaDto": {
                    "type": "object",
                    "required": ["label", "color", "properties"],
                    "properties": {
                        "label": {"type": "string", "minLength": 1, "maxLength": 25},
                        "color": {"type": "string", "pattern": "^#[0-9A-Fa-f]{6}$", "example": "#FF5733"},
                        "properties": {"type": "array", "items": {"$ref": "#/components/schemas/CreatePropertySchemaDto"}}
                    }
                },
                "CreatePropertySchemaDto": {
                    "type": "object",
                    "required": ["label", "property_type", "metadata"],
                    "properties": {
                        "label": {"type": "string", "minLength": 1, "maxLength": 25},
                        "property_type": {"$ref": "#/components/schemas/PropertyTypeDto"},
                        "metadata": {"$ref": "#/components/schemas/PropertyMetadataDto"}
                    }
                },
                "PropertyMetadataDto": {
                    "type": "object",
                    "required": ["options"],
                    "properties": {
                        "options": {"type": ["array", "null"], "items": {"type": "string", "minLength": 1, "maxLength": 50}}
                    }
                },
                "PropertyTypeDto": {"type": "string", "enum": ["Number", "String", "Boolean", "Select"]}
            }}
        }"##,
    );
    let result = openai_to_structured_output_schema(&openapi_spec);

    let property_schema = r#"{
        "type": "object",
        "additionalProperties": false,
        "required": ["label", "property_type", "metadata"],
        "properties": {
            "label": { "type": "string", "minLength": 1, "maxLength": 25 },
            "property_type": { "type": "string", "enum": ["Number", "String", "Boolean", "Select"] },
            "metadata": {
                "type": "object",
                "additionalProperties": false,
                "required": ["options"],
                "properties": {
                    "options": { "type": ["array", "null"], "items": { "minLength": 1, "maxLength": 50, "type": "string" } }
                }
            }
        }
    }"#;
    let type_schema = format!(
        r##"{{
            "type": "object",
            "additionalProperties": false,
            "required": ["label", "color", "attributes"],
            "properties": {{
                "label": {{ "type": "string", "minLength": 1, "maxLength": 25 }},
                "color": {{ "type": "string", "pattern": "^#[0-9A-Fa-f]{{6}}$" }},
                "attributes": {{ "type": "array", "items": {property_schema} }}
            }}
        }}"##
    );
    let expected = value(&format!(
        r#"{{
            "type": "object",
            "additionalProperties": false,
            "required": ["nodes", "edges"],
            "properties": {{
                "nodes": {{ "type": "array", "items": {type_schema} }},
                "edges": {{ "type": "array", "items": {type_schema} }}
            }}
        }}"#
    ));

    assert_eq!(to_value(&result), expected);
}

#[test]
fn structured_output_of_a_document_without_schemas_is_empty() {
    let result = openai_to_structured_output_schema(&json(r#"{"components": {"schemas": {}}}"#));
    assert_eq!(to_value(&result), value("{}"));
    let result = openai_to_structured_output_schema(&json(r#"{"openapi": "3.1.0"}"#));
    assert_eq!(to_value(&result), value("{}"));
}

#[test]
fn test_rename_attributes_to_properties() {
    let input = json(
        r##"{
            "edges": [
                {"attributes": [{"label": "Friend Of", "metadata": {"options": null}, "property_type": "Boolean"}], "color": "#FF5733", "label": "Friend Of"},
                {"attributes": [{"label": "Born In", "metadata": {"options": null}, "property_type": "String"}], "color": "#33FF57", "label": "Born In"}
            ],
            "nodes": [
                {"attributes": [
                    {"label": "Name", "metadata": {"options": null}, "property_type": "String"},
                    {"label": "Eye Color", "metadata": {"options": null}, "property_type": "String"},
                    {"label": "Birth Year", "metadata": {"options": null}, "property_type": "Number"}
                ], "color": "#3498DB", "label": "Person"},
                {"attributes": [
                    {"label": "Name", "metadata": {"options": null}, "property_type": "String"},
                    {"label": "Location Name", "metadata": {"options": null}, "property_type": "String"},
                    {"label": "Country", "metadata": {"options": null}, "property_type": "String"}
                ], "color": "#9B59B6", "label": "Location"}
            ]
        }"##,
    );
    let expected = value(
        r##"{
            "edges": [
                {"properties": [{"label": "Friend Of", "metadata": {"options": null}, "property_type": "Boolean"}], "color": "#FF5733", "label": "Friend Of"},
                {"properties": [{"label": "Born In", "metadata": {"options": null}, "property_type": "String"}], "color": "#33FF57", "label": "Born In"}
            ],
            "nodes": [
                {"properties": [
                    {"label": "Name", "metadata": {"options": null}, "property_type": "String"},
                    {"label": "Eye Color", "metadata": {"options": null}, "property_type": "String"},
                    {"label": "Birth Year", "metadata": {"options": null}, "property_type": "Number"}
                ], "color": "#3498DB", "label": "Person"},
                {"properties": [
                    {"label": "Name", "metadata": {"options": null}, "property_type": "String"},
                    {"label": "Location Name", "metadata": {"options": null}, "property_type": "String"},
                    {"label": "Country", "metadata": {"options": null}, "property_type": "String"}
                ], "color": "#9B59B6", "label": "Location"}
            ]
        }"##,
    );
    assert_eq!(to_value(&rename_attributes_to_properties(input)), expected);
}

#[test]
fn test_rename_attributes_to_properties_preserves_attributes() {
    let input = json(r##"{"nodes": [{ "label": "X", "attributes": [], "color": "#000" }]}"##);
    let result = to_value(&rename_attributes_to_properties(input));
    assert!(result.pointer("/nodes/0/properties").is_some());
    assert!(result.pointer("/nodes/0/attributes").is_none());
    assert!(result.pointer("/nodes/0/label").is_some());
    assert!(result.pointer("/nodes/0/color").is_some());
}

#[test]
fn schema_prompts() {
    assert_eq!(
        ai::schema_service::build_user_prompt("DATA"),
        "Analyze the following data and generate a graph schema:\n\nDATA\n\nGenerate a complete graph schema with nodes, edges, and their attributes."
    );
    assert_eq!(
        ai::schema_service::build_correction_prompt("bad"),
        "Your previous response contained validation errors that must be fixed:\n\nbad\n\nPlease return a corrected response that resolves all of these issues."
    );
    assert!(ai::schema_service::build_system_prompt().ends_with("not inserting rows into it."));
}

#[test]
fn root_is_the_unreferenced_schema_with_the_least_name() {
    // members deliberately out of key order: the root is chosen by name
    let doc = Json::Object(vec![(
        "components".to_string(),
        Json::Object(vec![(
            "schemas".to_string(),
            Json::Object(vec![
                ("Zeta".to_string(), json(r#"{"type": "string"}"#)),
                ("Alpha".to_string(), json(r#"{"type": "object", "properties": {"b": {"type": "integer"}, "a": {"type": "string", "example": "x"}}}"#)),
            ]),
        )]),
    )]);
    let result = openai_to_structured_output_schema(&doc);
    assert_eq!(
        to_value(&result),
        value(r#"{"type": "object", "additionalProperties": false, "required": ["a", "b"], "properties": {"a": {"type": "string"}, "b": {"type": "integer"}}}"#)
    );
    // the required list, in key order, is an array whose order counts
    match &result {
        Json::Object(m) => {
            let req = m.iter().find(|(k, _)| k == "required").unwrap();
            assert_eq!(to_value(&req.1), value(r#"["a", "b"]"#));
        }
        _ => panic!("expected an object"),
    }
}

#[test]
fn chat_request_and_answer() {
    assert_eq!(ai::chat::chat_plugins(true), vec!["response-healing".to_string()]);
    assert!(ai::chat::chat_plugins(false).is_empty());
    assert_eq!(ai::chat::first_choice_content(&vec![Some("hi".to_string()), None]).unwrap(), "hi");
    assert_eq!(ai::chat::first_choice_content(&vec![None]).unwrap(), "");
    match ai::chat::first_choice_content(&vec![]) {
        Err(e) => assert_eq!(e.message(), "OpenRouter API returned an invalid response format: No choices in OpenRouter response"),
        Ok(_) => panic!("expected an error"),
    }
}
