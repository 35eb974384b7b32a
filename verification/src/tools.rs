//! The tools offered to the model: each tool's name, description and JSON
//! schema of arguments; which tools a role is offered.
use vstd::prelude::*;
use crate::data_service::{str_items, strings_view};
use crate::graph::{can_write, is_write_role, Role};
use crate::json::{array_of, members_view, object_of, push_item, push_member, Json, JsonView};
use crate::text::owned;
use crate::tool_executor::{is_write_tool, lemma_tool_kinds};

verus! {

/// A function that the model may call.
#[derive(Debug)]
pub struct FunctionDefinition {
    pub name: String,
    pub description: String,
    pub parameters: Json,
}

/// A tool offered to the model.
#[derive(Debug)]
pub struct ToolDefinition {
    pub type_: String,
    pub function: FunctionDefinition,
}

pub struct ToolDefinitionView {
    pub type_: Seq<char>,
    pub name: Seq<char>,
    pub description: Seq<char>,
    pub parameters: JsonView,
}

impl View for ToolDefinition {
    type V = ToolDefinitionView;

    open spec fn view(&self) -> ToolDefinitionView {
        ToolDefinitionView {
            type_: self.type_@,
            name: self.function.name@,
            description: self.function.description@,
            parameters: self.function.parameters@,
        }
    }
}

pub open spec fn definitions_view(v: Seq<ToolDefinition>) -> Seq<ToolDefinitionView> {
    Seq::new(v.len(), |i: int| v[i]@)
}

/// An argument of a plain JSON type.
pub open spec fn param(ty: Seq<char>, description: Seq<char>) -> JsonView {
    JsonView::Object(seq![("type"@, JsonView::String(ty)), ("description"@, JsonView::String(description))])
}

/// A free-form object argument whose values are strings, numbers or booleans.
pub open spec fn free_form(description: Seq<char>) -> JsonView {
    JsonView::Object(
        seq![
            ("type"@, JsonView::String("object"@)),
            ("description"@, JsonView::String(description)),
            (
                "additionalProperties"@,
                JsonView::Object(
                    seq![
                        (
                            "oneOf"@,
                            JsonView::Array(
                                seq![
                                    JsonView::Object(seq![("type"@, JsonView::String("string"@))]),
                                    JsonView::Object(seq![("type"@, JsonView::String("number"@))]),
                                    JsonView::Object(seq![("type"@, JsonView::String("boolean"@))]),
                                ],
                            ),
                        ),
                    ],
                ),
            ),
        ],
    )
}

/// A tool: its arguments form a closed object with the `required` ones.
pub open spec fn tool_view(
    name: Seq<char>,
    description: Seq<char>,
    props: Seq<(Seq<char>, JsonView)>,
    required: Seq<Seq<char>>,
) -> ToolDefinitionView {
    ToolDefinitionView {
        type_: "function"@,
        name,
        description,
        parameters: JsonView::Object(
            seq![
                ("type"@, JsonView::String("object"@)),
                ("properties"@, JsonView::Object(props)),
                ("required"@, JsonView::Array(str_items(required))),
                ("additionalProperties"@, JsonView::Bool(false)),
            ],
        ),
    }
}

fn add_param(props: &mut Vec<(String, Json)>, name: &str, ty: &str, description: &str)
    ensures
        members_view(final(props)@) == members_view(old(props)@).push((name@, param(ty@, description@))),
{
    let mut m: Vec<(String, Json)> = Vec::new();
    push_member(&mut m, "type", Json::str(ty));
    push_member(&mut m, "description", Json::str(description));
    let j = object_of(m);
    assert(j@->Object_0 =~= param(ty@, description@)->Object_0);
    push_member(props, name, j);
}

fn type_only(ty: &str) -> (j: Json)
    ensures
        j@ == JsonView::Object(seq![("type"@, JsonView::String(ty@))]),
{
    let mut m: Vec<(String, Json)> = Vec::new();
    push_member(&mut m, "type", Json::str(ty));
    let j = object_of(m);
    assert(j@->Object_0 =~= seq![("type"@, JsonView::String(ty@))]);
    j
}

fn add_free_form(props: &mut Vec<(String, Json)>, name: &str, description: &str)
    ensures
        members_view(final(props)@) == members_view(old(props)@).push((name@, free_form(description@))),
{
    let mut kinds: Vec<Json> = Vec::new();
    push_item(&mut kinds, type_only("string"));
    push_item(&mut kinds, type_only("number"));
    push_item(&mut kinds, type_only("boolean"));
    let kinds = array_of(kinds);
    let mut one_of: Vec<(String, Json)> = Vec::new();
    push_member(&mut one_of, "oneOf", kinds);
    let one_of = object_of(one_of);
    let mut m: Vec<(String, Json)> = Vec::new();
    push_member(&mut m, "type", Json::str("object"));
    push_member(&mut m, "description", Json::str(description));
    push_member(&mut m, "additionalProperties", one_of);
    let j = object_of(m);
    assert(j@->Object_0[2].1->Object_0[0].1->Array_0 =~= free_form(description@)->Object_0[2].1->Object_0[0].1->Array_0);
    assert(j@->Object_0[2].1->Object_0 =~= free_form(description@)->Object_0[2].1->Object_0);
    assert(j@->Object_0 =~= free_form(description@)->Object_0);
    push_member(props, name, j);
}

fn push_name(names: &mut Vec<String>, name: &str)
    ensures
        strings_view(final(names)@) == strings_view(old(names)@).push(name@),
{
    let ghost before = strings_view(names@);
    names.push(owned(name));
    assert(strings_view(names@) =~= before.push(name@));
}

fn tool_exec(name: &str, description: &str, props: Vec<(String, Json)>, required: Vec<String>) -> (t: ToolDefinition)
    ensures
        t@ == tool_view(name@, description@, members_view(props@), strings_view(required@)),
{
    let ghost pv = members_view(props@);
    let ghost rv = strings_view(required@);
    let mut req: Vec<Json> = Vec::new();
    let mut i: usize = 0;
    while i < required.len()
        invariant
            i <= required@.len(),
            rv == strings_view(required@),
            crate::json::items_view(req@) == str_items(rv.take(i as int)),
        decreases required.len() - i,
    {
        push_item(&mut req, Json::String(required[i].clone()));
        assert(crate::json::items_view(req@) =~= str_items(rv.take(i + 1)));
        i = i + 1;
    }
    assert(rv.take(required.len() as int) =~= rv);
    let mut m: Vec<(String, Json)> = Vec::new();
    push_member(&mut m, "type", Json::str("object"));
    push_member(&mut m, "properties", object_of(props));
    push_member(&mut m, "required", array_of(req));
    push_member(&mut m, "additionalProperties", Json::Bool(false));
    let parameters = object_of(m);
    assert(parameters@->Object_0 =~= tool_view(name@, description@, pv, rv).parameters->Object_0);
    ToolDefinition {
        type_: owned("function"),
        function: FunctionDefinition { name: owned(name), description: owned(description), parameters },
    }
}

/// The definition of `search_nodes`.
pub open spec fn search_nodes_definition() -> ToolDefinitionView {
    tool_view(
        "search_nodes"@,
        "Search for nodes by semantic similarity. Returns the most relevant nodes matching the query text."@,
        seq![
            ("query"@, param("string"@, "The search query text to find semantically similar nodes"@)),
            ("node_key"@, param("string"@, "Optional node schema key to filter search to a specific node type"@)),
            ("limit"@, param("integer"@, "Maximum number of results to return (default: 10)"@)),
        ],
        seq!["query"@],
    )
}

fn search_nodes_tool() -> (t: ToolDefinition)
    ensures
        t@ == search_nodes_definition(),
{
    let mut props: Vec<(String, Json)> = Vec::new();
    add_param(&mut props, "query", "string", "The search query text to find semantically similar nodes");
    add_param(&mut props, "node_key", "string", "Optional node schema key to filter search to a specific node type");
    add_param(&mut props, "limit", "integer", "Maximum number of results to return (default: 10)");
    let mut required: Vec<String> = Vec::new();
    push_name(&mut required, "query");
    assert(members_view(props@) =~= seq![
            ("query"@, param("string"@, "The search query text to find semantically similar nodes"@)),
            ("node_key"@, param("string"@, "Optional node schema key to filter search to a specific node type"@)),
            ("limit"@, param("integer"@, "Maximum number of results to return (default: 10)"@)),
        ]);
    assert(strings_view(required@) =~= seq!["query"@]);
    let t = tool_exec("search_nodes", "Search for nodes by semantic similarity. Returns the most relevant nodes matching the query text.", props, required);
    t
}

/// The definition of `get_node`.
pub open spec fn get_node_definition() -> ToolDefinitionView {
    tool_view(
        "get_node"@,
        "Retrieve a specific node by its ID. Returns all properties of the node."@,
        seq![
            ("node_data_id"@, param("string"@, "The unique ID of the node to retrieve"@)),
        ],
        seq!["node_data_id"@],
    )
}

fn get_node_tool() -> (t: ToolDefinition)
    ensures
        t@ == get_node_definition(),
{
    let mut props: Vec<(String, Json)> = Vec::new();
    add_param(&mut props, "node_data_id", "string", "The unique ID of the node to retrieve");
    let mut required: Vec<String> = Vec::new();
    push_name(&mut required, "node_data_id");
    assert(members_view(props@) =~= seq![
            ("node_data_id"@, param("string"@, "The unique ID of the node to retrieve"@)),
        ]);
    assert(strings_view(required@) =~= seq!["node_data_id"@]);
    let t = tool_exec("get_node", "Retrieve a specific node by its ID. Returns all properties of the node.", props, required);
    t
}

/// The definition of `get_neighbors`.
pub open spec fn get_neighbors_definition() -> ToolDefinitionView {
    tool_view(
        "get_neighbors"@,
        "Get the neighboring nodes and edges connected to a specific node. Useful for exploring the graph structure around a node."@,
        seq![
            ("node_data_id"@, param("string"@, "The ID of the node to get neighbors for"@)),
            ("edge_key"@, param("string"@, "Optional edge schema key to filter by relationship type"@)),
            ("depth"@, param("integer"@, "How many hops to traverse (default: 1)"@)),
        ],
        seq!["node_data_id"@],
    )
}

fn get_neighbors_tool() -> (t: ToolDefinition)
    ensures
        t@ == get_neighbors_definition(),
{
    let mut props: Vec<(String, Json)> = Vec::new();
    add_param(&mut props, "node_data_id", "string", "The ID of the node to get neighbors for");
    add_param(&mut props, "edge_key", "string", "Optional edge schema key to filter by relationship type");
    add_param(&mut props, "depth", "integer", "How many hops to traverse (default: 1)");
    let mut required: Vec<String> = Vec::new();
    push_name(&mut required, "node_data_id");
    assert(members_view(props@) =~= seq![
            ("node_data_id"@, param("string"@, "The ID of the node to get neighbors for"@)),
            ("edge_key"@, param("string"@, "Optional edge schema key to filter by relationship type"@)),
            ("depth"@, param("integer"@, "How many hops to traverse (default: 1)"@)),
        ]);
    assert(strings_view(required@) =~= seq!["node_data_id"@]);
    let t = tool_exec("get_neighbors", "Get the neighboring nodes and edges connected to a specific node. Useful for exploring the graph structure around a node.", props, required);
    t
}

/// The definition of `find_paths`.
pub open spec fn find_paths_definition() -> ToolDefinitionView {
    tool_view(
        "find_paths"@,
        "Find all paths between two nodes in the graph. Useful for discovering how two entities are connected."@,
        seq![
            ("from_node_data_id"@, param("string"@, "The ID of the starting node"@)),
            ("to_node_data_id"@, param("string"@, "The ID of the target node"@)),
            ("max_depth"@, param("integer"@, "Maximum path length in hops (default: 5)"@)),
        ],
        seq!["from_node_data_id"@, "to_node_data_id"@],
    )
}

fn find_paths_tool() -> (t: ToolDefinition)
    ensures
        t@ == find_paths_definition(),
{
    let mut props: Vec<(String, Json)> = Vec::new();
    add_param(&mut props, "from_node_data_id", "string", "The ID of the starting node");
    add_param(&mut props, "to_node_data_id", "string", "The ID of the target node");
    add_param(&mut props, "max_depth", "integer", "Maximum path length in hops (default: 5)");
    let mut required: Vec<String> = Vec::new();
    push_name(&mut required, "from_node_data_id");
    push_name(&mut required, "to_node_data_id");
    assert(members_view(props@) =~= seq![
            ("from_node_data_id"@, param("string"@, "The ID of the starting node"@)),
            ("to_node_data_id"@, param("string"@, "The ID of the target node"@)),
            ("max_depth"@, param("integer"@, "Maximum path length in hops (default: 5)"@)),
        ]);
    assert(strings_view(required@) =~= seq!["from_node_data_id"@, "to_node_data_id"@]);
    let t = tool_exec("find_paths", "Find all paths between two nodes in the graph. Useful for discovering how two entities are connected.", props, required);
    t
}

/// The definition of `create_schema`.
pub open spec fn create_schema_definition() -> ToolDefinitionView {
    tool_view(
        "create_schema"@,
        "Create a new node schema (type) in the graph. Use this when you need to store a new kind of entity that doesn't match any existing schema."@,
        seq![
            ("label"@, param("string"@, "Human-readable name for the node schema (e.g. 'Person', 'Company', 'Event')"@)),
            ("description"@, param("string"@, "A brief description of what this node schema represents"@)),
        ],
        seq!["label"@, "description"@],
    )
}

fn create_schema_tool() -> (t: ToolDefinition)
    ensures
        t@ == create_schema_definition(),
{
    let mut props: Vec<(String, Json)> = Vec::new();
    add_param(&mut props, "label", "string", "Human-readable name for the node schema (e.g. 'Person', 'Company', 'Event')");
    add_param(&mut props, "description", "string", "A brief description of what this node schema represents");
    let mut required: Vec<String> = Vec::new();
    push_name(&mut required, "label");
    push_name(&mut required, "description");
    assert(members_view(props@) =~= seq![
            ("label"@, param("string"@, "Human-readable name for the node schema (e.g. 'Person', 'Company', 'Event')"@)),
            ("description"@, param("string"@, "A brief description of what this node schema represents"@)),
        ]);
    assert(strings_view(required@) =~= seq!["label"@, "description"@]);
    let t = tool_exec("create_schema", "Create a new node schema (type) in the graph. Use this when you need to store a new kind of entity that doesn't match any existing schema.", props, required);
    t
}

/// The definition of `create_edge_schema`.
pub open spec fn create_edge_schema_definition() -> ToolDefinitionView {
    tool_view(
        "create_edge_schema"@,
        "Create a new edge schema (relationship type) in the graph. Use this when you need a new kind of relationship between nodes."@,
        seq![
            ("label"@, param("string"@, "Human-readable name for the edge schema (e.g. 'WorksAt', 'Knows', 'LocatedIn')"@)),
            ("description"@, param("string"@, "A brief description of what this relationship represents"@)),
        ],
        seq!["label"@, "description"@],
    )
}

fn create_edge_schema_tool() -> (t: ToolDefinition)
    ensures
        t@ == create_edge_schema_definition(),
{
    let mut props: Vec<(String, Json)> = Vec::new();
    add_param(&mut props, "label", "string", "Human-readable name for the edge schema (e.g. 'WorksAt', 'Knows', 'LocatedIn')");
    add_param(&mut props, "description", "string", "A brief description of what this relationship represents");
    let mut required: Vec<String> = Vec::new();
    push_name(&mut required, "label");
    push_name(&mut required, "description");
    assert(members_view(props@) =~= seq![
            ("label"@, param("string"@, "Human-readable name for the edge schema (e.g. 'WorksAt', 'Knows', 'LocatedIn')"@)),
            ("description"@, param("string"@, "A brief description of what this relationship represents"@)),
        ]);
    assert(strings_view(required@) =~= seq!["label"@, "description"@]);
    let t = tool_exec("create_edge_schema", "Create a new edge schema (relationship type) in the graph. Use this when you need a new kind of relationship between nodes.", props, required);
    t
}

/// The definition of `create_node`.
pub open spec fn create_node_definition() -> ToolDefinitionView {
    tool_view(
        "create_node"@,
        "Create a new node in the graph. The system will automatically check for similar existing nodes and warn you about potential duplicates. You can then decide to update an existing node instead."@,
        seq![
            ("node_key"@, param("string"@, "The schema key identifying the node type (from the schema list)"@)),
            ("properties"@, free_form("Free-form properties for the node. Keys are property names, values are strings, numbers, or booleans."@)),
        ],
        seq!["node_key"@, "properties"@],
    )
}

fn create_node_tool() -> (t: ToolDefinition)
    ensures
        t@ == create_node_definition(),
{
    let mut props: Vec<(String, Json)> = Vec::new();
    add_param(&mut props, "node_key", "string", "The schema key identifying the node type (from the schema list)");
    add_free_form(&mut props, "properties", "Free-form properties for the node. Keys are property names, values are strings, numbers, or booleans.");
    let mut required: Vec<String> = Vec::new();
    push_name(&mut required, "node_key");
    push_name(&mut required, "properties");
    assert(members_view(props@) =~= seq![
            ("node_key"@, param("string"@, "The schema key identifying the node type (from the schema list)"@)),
            ("properties"@, free_form("Free-form properties for the node. Keys are property names, values are strings, numbers, or booleans."@)),
        ]);
    assert(strings_view(required@) =~= seq!["node_key"@, "properties"@]);
    let t = tool_exec("create_node", "Create a new node in the graph. The system will automatically check for similar existing nodes and warn you about potential duplicates. You can then decide to update an existing node instead.", props, required);
    t
}

/// The definition of `create_edge`.
pub open spec fn create_edge_definition() -> ToolDefinitionView {
    tool_view(
        "create_edge"@,
        "Create a new edge (relationship) between two nodes in the graph."@,
        seq![
            ("edge_key"@, param("string"@, "The schema key identifying the edge type (from the schema list)"@)),
            ("from_node_data_id"@, param("string"@, "The ID of the source node"@)),
            ("to_node_data_id"@, param("string"@, "The ID of the target node"@)),
            ("properties"@, free_form("Optional free-form properties for the edge."@)),
        ],
        seq!["edge_key"@, "from_node_data_id"@, "to_node_data_id"@],
    )
}

fn create_edge_tool() -> (t: ToolDefinition)
    ensures
        t@ == create_edge_definition(),
{
    let mut props: Vec<(String, Json)> = Vec::new();
    add_param(&mut props, "edge_key", "string", "The schema key identifying the edge type (from the schema list)");
    add_param(&mut props, "from_node_data_id", "string", "The ID of the source node");
    add_param(&mut props, "to_node_data_id", "string", "The ID of the target node");
    add_free_form(&mut props, "properties", "Optional free-form properties for the edge.");
    let mut required: Vec<String> = Vec::new();
    push_name(&mut required, "edge_key");
    push_name(&mut required, "from_node_data_id");
    push_name(&mut required, "to_node_data_id");
    assert(members_view(props@) =~= seq![
            ("edge_key"@, param("string"@, "The schema key identifying the edge type (from the schema list)"@)),
            ("from_node_data_id"@, param("string"@, "The ID of the source node"@)),
            ("to_node_data_id"@, param("string"@, "The ID of the target node"@)),
            ("properties"@, free_form("Optional free-form properties for the edge."@)),
        ]);
    assert(strings_view(required@) =~= seq!["edge_key"@, "from_node_data_id"@, "to_node_data_id"@]);
    let t = tool_exec("create_edge", "Create a new edge (relationship) between two nodes in the graph.", props, required);
    t
}

/// The definition of `update_node`.
pub open spec fn update_node_definition() -> ToolDefinitionView {
    tool_view(
        "update_node"@,
        "Update the properties of an existing node. Replaces all properties with the new set. The embedding will be automatically updated."@,
        seq![
            ("node_data_id"@, param("string"@, "The ID of the node to update"@)),
            ("properties"@, free_form("The complete set of properties for the node. Keys are property names, values are strings, numbers, or booleans."@)),
        ],
        seq!["node_data_id"@, "properties"@],
    )
}

fn update_node_tool() -> (t: ToolDefinition)
    ensures
        t@ == update_node_definition(),
{
    let mut props: Vec<(String, Json)> = Vec::new();
    add_param(&mut props, "node_data_id", "string", "The ID of the node to update");
    add_free_form(&mut props, "properties", "The complete set of properties for the node. Keys are property names, values are strings, numbers, or booleans.");
    let mut required: Vec<String> = Vec::new();
    push_name(&mut required, "node_data_id");
    push_name(&mut required, "properties");
    assert(members_view(props@) =~= seq![
            ("node_data_id"@, param("string"@, "The ID of the node to update"@)),
            ("properties"@, free_form("The complete set of properties for the node. Keys are property names, values are strings, numbers, or booleans."@)),
        ]);
    assert(strings_view(required@) =~= seq!["node_data_id"@, "properties"@]);
    let t = tool_exec("update_node", "Update the properties of an existing node. Replaces all properties with the new set. The embedding will be automatically updated.", props, required);
    t
}

/// The definition of `done`.
pub open spec fn done_definition() -> ToolDefinitionView {
    tool_view(
        "done"@,
        "Signal that you have completed the current task. Call this when you have finished processing the user's request and have no more actions to take."@,
        seq![
            ("summary"@, param("string"@, "A brief summary of what was accomplished"@)),
        ],
        seq!["summary"@],
    )
}

fn done_tool() -> (t: ToolDefinition)
    ensures
        t@ == done_definition(),
{
    let mut props: Vec<(String, Json)> = Vec::new();
    add_param(&mut props, "summary", "string", "A brief summary of what was accomplished");
    let mut required: Vec<String> = Vec::new();
    push_name(&mut required, "summary");
    assert(members_view(props@) =~= seq![
            ("summary"@, param("string"@, "A brief summary of what was accomplished"@)),
        ]);
    assert(strings_view(required@) =~= seq!["summary"@]);
    let t = tool_exec("done", "Signal that you have completed the current task. Call this when you have finished processing the user's request and have no more actions to take.", props, required);
    t
}

// ---------------------------------------------------------------------------
// The lists
// ---------------------------------------------------------------------------

/// The tools that read the graph.
pub open spec fn read_definitions() -> Seq<ToolDefinitionView> {
    seq![search_nodes_definition(), get_node_definition(), get_neighbors_definition(), find_paths_definition()]
}

/// The tools that change the graph or its schema.
pub open spec fn write_definitions() -> Seq<ToolDefinitionView> {
    seq![
        create_schema_definition(),
        create_edge_schema_definition(),
        create_node_definition(),
        create_edge_definition(),
        update_node_definition(),
    ]
}

/// The tools of the session itself.
pub open spec fn session_definitions() -> Seq<ToolDefinitionView> {
    seq![done_definition()]
}

/// The tools offered to a user of `role`: the read tools, the write tools
/// when the role may write, and the session tools.
pub open spec fn tool_list(role: Role) -> Seq<ToolDefinitionView> {
    read_definitions() + (if can_write(role) {
        write_definitions()
    } else {
        Seq::empty()
    }) + session_definitions()
}

fn push_definition(v: &mut Vec<ToolDefinition>, t: ToolDefinition)
    ensures
        definitions_view(final(v)@) == definitions_view(old(v)@).push(t@),
{
    let ghost before = definitions_view(v@);
    let ghost tv = t@;
    v.push(t);
    assert(definitions_view(v@) =~= before.push(tv));
}

/// The tools that read the graph.
pub fn read_tools() -> (v: Vec<ToolDefinition>)
    ensures
        definitions_view(v@) == read_definitions(),
{
    let mut v: Vec<ToolDefinition> = Vec::new();
    push_definition(&mut v, search_nodes_tool());
    push_definition(&mut v, get_node_tool());
    push_definition(&mut v, get_neighbors_tool());
    push_definition(&mut v, find_paths_tool());
    assert(definitions_view(v@) =~= read_definitions());
    v
}

/// The tools that change the graph or its schema.
pub fn write_tools() -> (v: Vec<ToolDefinition>)
    ensures
        definitions_view(v@) == write_definitions(),
{
    let mut v: Vec<ToolDefinition> = Vec::new();
    push_definition(&mut v, create_schema_tool());
    push_definition(&mut v, create_edge_schema_tool());
    push_definition(&mut v, create_node_tool());
    push_definition(&mut v, create_edge_tool());
    push_definition(&mut v, update_node_tool());
    assert(definitions_view(v@) =~= write_definitions());
    v
}

/// The tools of the session itself.
pub fn session_tools() -> (v: Vec<ToolDefinition>)
    ensures
        definitions_view(v@) == session_definitions(),
{
    let mut v: Vec<ToolDefinition> = Vec::new();
    push_definition(&mut v, done_tool());
    assert(definitions_view(v@) =~= session_definitions());
    v
}

fn extend(v: &mut Vec<ToolDefinition>, w: Vec<ToolDefinition>)
    ensures
        definitions_view(final(v)@) == definitions_view(old(v)@) + definitions_view(w@),
{
    let ghost start = definitions_view(v@);
    let ghost wv = definitions_view(w@);
    let mut w = w;
    let mut rest: Vec<ToolDefinition> = Vec::new();
    while w.len() > 0
        invariant
            definitions_view(w@) + definitions_view(rest@).reverse() == wv,
        decreases w.len(),
    {
        let ghost before_w = definitions_view(w@);
        let ghost before_r = definitions_view(rest@);
        let t = w.pop().unwrap();
        assert(definitions_view(w@) =~= before_w.drop_last());
        push_definition(&mut rest, t);
        assert(definitions_view(rest@).reverse() =~= seq![before_w.last()] + before_r.reverse());
        assert(before_w =~= before_w.drop_last() + seq![before_w.last()]);
    }
    assert(definitions_view(w@) =~= Seq::<ToolDefinitionView>::empty());
    let ghost rv = definitions_view(rest@);
    assert(rv.reverse() =~= wv);
    while rest.len() > 0
        invariant
            definitions_view(v@) + definitions_view(rest@).reverse() == start + wv,
        decreases rest.len(),
    {
        let ghost before_v = definitions_view(v@);
        let ghost before_r = definitions_view(rest@);
        let t = rest.pop().unwrap();
        assert(definitions_view(rest@) =~= before_r.drop_last());
        push_definition(v, t);
        assert(before_r.reverse() =~= seq![before_r.last()] + before_r.drop_last().reverse());
        assert(definitions_view(v@) + definitions_view(rest@).reverse() =~= before_v + before_r.reverse());
    }
    assert(definitions_view(rest@).reverse() =~= Seq::<ToolDefinitionView>::empty());
    assert(definitions_view(v@) =~= start + wv);
}

/// The tools offered to a user of `role` (see `tool_list`).
pub fn build_tool_list(role: Role) -> (v: Vec<ToolDefinition>)
    ensures
        definitions_view(v@) == tool_list(role),
{
    let mut tools = read_tools();
    if is_write_role(role) {
        extend(&mut tools, write_tools());
    } else {
        assert(read_definitions() + Seq::<ToolDefinitionView>::empty() =~= read_definitions());
    }
    extend(&mut tools, session_tools());
    tools
}

/// A role from its name: "Owner", "Admin", "Editor" and "Viewer"; any other
/// name gives no access.
pub open spec fn role_named(name: Seq<char>) -> Role {
    if name == "Owner"@ {
        Role::Owner
    } else if name == "Admin"@ {
        Role::Admin
    } else if name == "Editor"@ {
        Role::Editor
    } else if name == "Viewer"@ {
        Role::Viewer
    } else {
        Role::NoAccess
    }
}

/// A role from its name (see `role_named`).
pub fn role_from_name(name: &str) -> (r: Role)
    ensures
        r == role_named(name@),
{
    if crate::text::str_eq(name, "Owner") {
        Role::Owner
    } else if crate::text::str_eq(name, "Admin") {
        Role::Admin
    } else if crate::text::str_eq(name, "Editor") {
        Role::Editor
    } else if crate::text::str_eq(name, "Viewer") {
        Role::Viewer
    } else {
        Role::NoAccess
    }
}

/// A role that may not write is offered no tool that writes; `done` is
/// offered to everyone, last.
pub proof fn law_tool_list_respects_role(role: Role)
    ensures
        forall|i: int|
            0 <= i < tool_list(role).len() && is_write_tool(#[trigger] tool_list(role)[i].name)
                ==> can_write(role),
        tool_list(role).last() == done_definition(),
{
    lemma_tool_kinds();
    let l = tool_list(role);
    if !can_write(role) {
        assert(l =~= read_definitions() + session_definitions());
        assert forall|i: int| 0 <= i < l.len() implies !is_write_tool(#[trigger] l[i].name) by {
            assert(i < 4 ==> l[i] == read_definitions()[i]);
        }
    }
}

/// The names of the tools, in order.
pub open spec fn tool_names(l: Seq<ToolDefinitionView>) -> Seq<Seq<char>> {
    Seq::new(l.len(), |i: int| l[i].name)
}

/// An owner, an admin or an editor is offered every tool, the write tools
/// included; any other role is offered the read tools and `done`.
pub proof fn law_writers_get_every_tool(role: Role)
    ensures
        (role == Role::Owner || role == Role::Admin || role == Role::Editor) ==> tool_names(tool_list(role))
            == seq![
            "search_nodes"@,
            "get_node"@,
            "get_neighbors"@,
            "find_paths"@,
            "create_schema"@,
            "create_edge_schema"@,
            "create_node"@,
            "create_edge"@,
            "update_node"@,
            "done"@,
        ],
        !(role == Role::Owner || role == Role::Admin || role == Role::Editor) ==> tool_names(tool_list(role))
            == seq!["search_nodes"@, "get_node"@, "get_neighbors"@, "find_paths"@, "done"@],
{
    let l = tool_list(role);
    if role == Role::Owner || role == Role::Admin || role == Role::Editor {
        assert(l =~= seq![
            search_nodes_definition(),
            get_node_definition(),
            get_neighbors_definition(),
            find_paths_definition(),
            create_schema_definition(),
            create_edge_schema_definition(),
            create_node_definition(),
            create_edge_definition(),
            update_node_definition(),
            done_definition(),
        ]);
        assert(tool_names(l) =~= seq![
            "search_nodes"@,
            "get_node"@,
            "get_neighbors"@,
            "find_paths"@,
            "create_schema"@,
            "create_edge_schema"@,
            "create_node"@,
            "create_edge"@,
            "update_node"@,
            "done"@,
        ]);
    } else {
        assert(l =~= seq![
            search_nodes_definition(),
            get_node_definition(),
            get_neighbors_definition(),
            find_paths_definition(),
            done_definition(),
        ]);
        assert(tool_names(l) =~= seq!["search_nodes"@, "get_node"@, "get_neighbors"@, "find_paths"@, "done"@]);
    }
}

} // verus!
