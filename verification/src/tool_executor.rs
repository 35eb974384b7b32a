//! The rules of the agent's tools: who may use which tool, how a call's JSON
//! arguments become a command, and how the run's result becomes the tool's
//! answer. The graph and embedding services that carry a command out are the
//! caller's.
use vstd::prelude::*;
use crate::agent::{OutcomeView, ToolResult};
use crate::data_service::join;
use crate::graph::{can_write, is_write_role, GraphSchema, GraphSchemaView, Role, TypeSchema, TypeSchemaView};
use crate::json::{
    insert_member, items_view, lemma_array_view, members_view, object_of, obj_insert, push_member, Json,
    JsonNumber, JsonView,
};
use crate::text::{append_str, append_string, decimal, decimal_string, owned, str_eq};

verus! {

/// The most items of a batch call.
pub const MAX_BATCH: usize = 50;

pub const TASK_COMPLETED: &'static str = "Task completed.";

/// The tools the agent knows.
#[derive(Clone, Copy, PartialEq, Eq, Debug, Structural)]
pub enum ToolKind {
    SearchNodes,
    GetNode,
    GetNeighbors,
    FindPaths,
    ReadDocument,
    CreateSchema,
    CreateEdgeSchema,
    CreateNode,
    CreateEdge,
    CreateNodes,
    CreateEdges,
    UpdateNode,
    UpdateEdge,
    DeleteNode,
    DeleteEdge,
    Done,
}

/// The tool called `name`.
pub open spec fn tool_kind(name: Seq<char>) -> Option<ToolKind> {
    if name == "search_nodes"@ {
        Some(ToolKind::SearchNodes)
    } else if name == "get_node"@ {
        Some(ToolKind::GetNode)
    } else if name == "get_neighbors"@ {
        Some(ToolKind::GetNeighbors)
    } else if name == "find_paths"@ {
        Some(ToolKind::FindPaths)
    } else if name == "read_document"@ {
        Some(ToolKind::ReadDocument)
    } else if name == "create_schema"@ {
        Some(ToolKind::CreateSchema)
    } else if name == "create_edge_schema"@ {
        Some(ToolKind::CreateEdgeSchema)
    } else if name == "create_node"@ {
        Some(ToolKind::CreateNode)
    } else if name == "create_edge"@ {
        Some(ToolKind::CreateEdge)
    } else if name == "create_nodes"@ {
        Some(ToolKind::CreateNodes)
    } else if name == "create_edges"@ {
        Some(ToolKind::CreateEdges)
    } else if name == "update_node"@ {
        Some(ToolKind::UpdateNode)
    } else if name == "update_edge"@ {
        Some(ToolKind::UpdateEdge)
    } else if name == "delete_node"@ {
        Some(ToolKind::DeleteNode)
    } else if name == "delete_edge"@ {
        Some(ToolKind::DeleteEdge)
    } else if name == "done"@ {
        Some(ToolKind::Done)
    } else {
        None
    }
}

/// The tools that change the graph or its schema.
pub open spec fn is_write_kind(k: ToolKind) -> bool {
    match k {
        ToolKind::CreateSchema | ToolKind::CreateEdgeSchema | ToolKind::CreateNode
        | ToolKind::CreateEdge | ToolKind::CreateNodes | ToolKind::CreateEdges
        | ToolKind::UpdateNode | ToolKind::UpdateEdge | ToolKind::DeleteNode
        | ToolKind::DeleteEdge => true,
        _ => false,
    }
}

/// Whether the tool called `name` changes the graph or its schema.
pub open spec fn is_write_tool(name: Seq<char>) -> bool {
    match tool_kind(name) {
        Some(k) => is_write_kind(k),
        None => false,
    }
}

/// The tool called `name`.
pub fn tool_kind_of(name: &str) -> (k: Option<ToolKind>)
    ensures
        k == tool_kind(name@),
{
    if str_eq(name, "search_nodes") {
        Some(ToolKind::SearchNodes)
    } else if str_eq(name, "get_node") {
        Some(ToolKind::GetNode)
    } else if str_eq(name, "get_neighbors") {
        Some(ToolKind::GetNeighbors)
    } else if str_eq(name, "find_paths") {
        Some(ToolKind::FindPaths)
    } else if str_eq(name, "read_document") {
        Some(ToolKind::ReadDocument)
    } else if str_eq(name, "create_schema") {
        Some(ToolKind::CreateSchema)
    } else if str_eq(name, "create_edge_schema") {
        Some(ToolKind::CreateEdgeSchema)
    } else if str_eq(name, "create_node") {
        Some(ToolKind::CreateNode)
    } else if str_eq(name, "create_edge") {
        Some(ToolKind::CreateEdge)
    } else if str_eq(name, "create_nodes") {
        Some(ToolKind::CreateNodes)
    } else if str_eq(name, "create_edges") {
        Some(ToolKind::CreateEdges)
    } else if str_eq(name, "update_node") {
        Some(ToolKind::UpdateNode)
    } else if str_eq(name, "update_edge") {
        Some(ToolKind::UpdateEdge)
    } else if str_eq(name, "delete_node") {
        Some(ToolKind::DeleteNode)
    } else if str_eq(name, "delete_edge") {
        Some(ToolKind::DeleteEdge)
    } else if str_eq(name, "done") {
        Some(ToolKind::Done)
    } else {
        None
    }
}

/// Whether the tool called `name` changes the graph or its schema.
pub fn is_write_tool_exec(name: &str) -> (b: bool)
    ensures
        b == is_write_tool(name@),
{
    match tool_kind_of(name) {
        Some(k) => match k {
            ToolKind::CreateSchema | ToolKind::CreateEdgeSchema | ToolKind::CreateNode
            | ToolKind::CreateEdge | ToolKind::CreateNodes | ToolKind::CreateEdges
            | ToolKind::UpdateNode | ToolKind::UpdateEdge | ToolKind::DeleteNode
            | ToolKind::DeleteEdge => true,
            _ => false,
        },
        None => false,
    }
}

/// A role as it is shown.
pub open spec fn role_name(role: Role) -> Seq<char> {
    match role {
        Role::Owner => "Owner"@,
        Role::Admin => "Admin"@,
        Role::Editor => "Editor"@,
        Role::Viewer => "Viewer"@,
        Role::NoAccess => "None"@,
    }
}

/// A role as it is shown.
pub fn role_name_exec(role: Role) -> (s: String)
    ensures
        s@ == role_name(role),
{
    match role {
        Role::Owner => owned("Owner"),
        Role::Admin => owned("Admin"),
        Role::Editor => owned("Editor"),
        Role::Viewer => owned("Viewer"),
        Role::NoAccess => owned("None"),
    }
}

/// The answer to a write tool called by a role that may not write.
pub open spec fn permission_denied(role: Role, tool_name: Seq<char>) -> Seq<char> {
    "Permission denied: role '"@ + role_name(role) + "' cannot use tool '"@ + tool_name
        + "'. Write access requires Owner, Admin, or Editor role."@
}

// ---------------------------------------------------------------------------
// Arguments
// ---------------------------------------------------------------------------

/// Uuid parsing: the 128-bit value of the id written in `s`, or the text of
/// the error.
pub uninterp spec fn uuid_parsed(s: Seq<char>) -> Result<u128, Seq<char>>;

/// `uuid::Uuid::parse_str`: its id taken as the 128-bit value, its error as the
/// error's text. Named by `uuid_parsed`; what the crate accepts is not restated.
#[verifier::external_body]
fn parse_uuid(s: &str) -> (r: Result<u128, String>)
    ensures
        match r {
            Ok(v) => uuid_parsed(s@) == Ok::<u128, Seq<char>>(v),
            Err(e) => uuid_parsed(s@) == Err::<u128, Seq<char>>(e@),
        },
{
    match uuid::Uuid::parse_str(s) {
        Ok(u) => Ok(u.as_u128()),
        Err(e) => Err(e.to_string()),
    }
}

pub open spec fn missing_field(field: Seq<char>) -> Seq<char> {
    "Missing required field: "@ + field
}

/// A required string argument.
pub open spec fn str_arg(args: JsonView, field: Seq<char>) -> Result<Seq<char>, Seq<char>> {
    match args.get(field) {
        Some(JsonView::String(s)) => Ok(s),
        _ => Err(missing_field(field)),
    }
}

/// An optional string argument.
pub open spec fn opt_str_arg(args: JsonView, field: Seq<char>) -> Option<Seq<char>> {
    match args.get(field) {
        Some(JsonView::String(s)) => Some(s),
        _ => None,
    }
}

/// An integer argument: its value when it is an integer that fits an `i32`,
/// else `default`.
pub open spec fn int_arg(args: JsonView, field: Seq<char>, default: i32) -> i32 {
    match args.get(field) {
        Some(v) => match v.as_i64() {
            Some(n) => if i32::MIN <= n <= i32::MAX {
                n as i32
            } else {
                default
            },
            None => default,
        },
        None => default,
    }
}

/// A boolean argument, false unless given.
pub open spec fn bool_arg(args: JsonView, field: Seq<char>) -> bool {
    match args.get(field) {
        Some(JsonView::Bool(b)) => b,
        _ => false,
    }
}

/// A required id argument.
pub open spec fn id_arg(args: JsonView, field: Seq<char>) -> Result<u128, Seq<char>> {
    match str_arg(args, field) {
        Err(e) => Err(e),
        Ok(s) => uuid_parsed(s),
    }
}

/// The keys that are tool parameters, never properties.
pub open spec fn is_parameter_key(k: Seq<char>) -> bool {
    k == "node_key"@ || k == "edge_key"@ || k == "node_data_id"@ || k == "source_node_data_id"@
        || k == "target_node_data_id"@ || k == "edge_data_id"@ || k == "force"@
}

/// The keys that are parameters of an edge call: those above, and the ids of
/// the edge's two nodes.
pub open spec fn is_edge_parameter_key(k: Seq<char>) -> bool {
    is_parameter_key(k) || k == "from_node_data_id"@ || k == "to_node_data_id"@
}

/// The members of an edge call that are not its parameters, in order.
pub open spec fn without_edge_parameters(m: Seq<(Seq<char>, JsonView)>) -> Seq<(Seq<char>, JsonView)>
    decreases m.len(),
{
    if m.len() == 0 {
        Seq::empty()
    } else {
        let prev = without_edge_parameters(m.drop_last());
        if is_edge_parameter_key(m.last().0) {
            prev
        } else {
            prev.push(m.last())
        }
    }
}

/// The members that are not parameters, in order.
pub open spec fn without_parameters(m: Seq<(Seq<char>, JsonView)>) -> Seq<(Seq<char>, JsonView)>
    decreases m.len(),
{
    if m.len() == 0 {
        Seq::empty()
    } else {
        let prev = without_parameters(m.drop_last());
        if is_parameter_key(m.last().0) {
            prev
        } else {
            prev.push(m.last())
        }
    }
}

/// The property values of a call: the "properties" object, or else the call's
/// own members; parameters are left out, and the fallback must leave something.
pub open spec fn properties_arg(args: JsonView) -> Result<Seq<(Seq<char>, JsonView)>, Seq<char>> {
    match args.get("properties"@) {
        Some(JsonView::Object(m)) => Ok(without_parameters(m)),
        _ => match args {
            JsonView::Object(m) => if without_parameters(m).len() == 0 {
                Err(missing_field("properties"@))
            } else {
                Ok(without_parameters(m))
            },
            _ => Err(missing_field("properties"@)),
        },
    }
}

/// The property values of an edge, which may have none: the "properties"
/// object (parameters left out), or else the call's own members, its
/// parameters and node ids left out.
pub open spec fn edge_properties_arg(args: JsonView) -> Result<Seq<(Seq<char>, JsonView)>, Seq<char>> {
    match args.get("properties"@) {
        Some(JsonView::Object(m)) => Ok(without_parameters(m)),
        _ => match args {
            JsonView::Object(m) => Ok(without_edge_parameters(m)),
            _ => Err(missing_field("properties"@)),
        },
    }
}

/// A type of the schema as it is listed: its key and, in brackets, its label.
pub open spec fn type_entry(t: TypeSchemaView) -> Seq<char> {
    t.key + " ("@ + t.label + ")"@
}

/// The key must be the key of one of `types`; otherwise the error lists them.
pub open spec fn validate_key(types: Seq<TypeSchemaView>, key: Seq<char>, what: Seq<char>) -> Result<
    (),
    Seq<char>,
> {
    if exists|i: int| 0 <= i < types.len() && #[trigger] types[i].key == key {
        Ok(())
    } else {
        Err(
            "Unknown "@ + what + " schema key '"@ + key + "'. Valid schemas: "@ + join(
                Seq::new(types.len(), |i: int| type_entry(types[i])),
                ", "@,
            ),
        )
    }
}

pub open spec fn types_view(v: Seq<TypeSchema>) -> Seq<TypeSchemaView> {
    Seq::new(v.len(), |i: int| v[i]@)
}

fn missing_field_exec(field: &str) -> (e: String)
    ensures
        e@ == missing_field(field@),
{
    let mut e = owned("Missing required field: ");
    append_str(&mut e, field);
    e
}

fn str_arg_exec(args: &Json, field: &str) -> (r: Result<String, String>)
    ensures
        match r {
            Ok(s) => str_arg(args@, field@) == Ok::<Seq<char>, Seq<char>>(s@),
            Err(e) => str_arg(args@, field@) == Err::<Seq<char>, Seq<char>>(e@),
        },
{
    match args.get(field) {
        Some(v) => match v.as_str() {
            Some(s) => Ok(owned(s)),
            None => Err(missing_field_exec(field)),
        },
        None => Err(missing_field_exec(field)),
    }
}

fn opt_str_arg_exec(args: &Json, field: &str) -> (r: Option<String>)
    ensures
        match r {
            Some(s) => opt_str_arg(args@, field@) == Some(s@),
            None => opt_str_arg(args@, field@) is None,
        },
{
    match args.get(field) {
        Some(v) => match v.as_str() {
            Some(s) => Some(owned(s)),
            None => None,
        },
        None => None,
    }
}

fn int_arg_exec(args: &Json, field: &str, default: i32) -> (r: i32)
    ensures
        r == int_arg(args@, field@, default),
{
    match args.get(field) {
        Some(v) => match v.as_i64() {
            Some(n) => if -2147483648i64 <= n && n <= 2147483647i64 {
                n as i32
            } else {
                default
            },
            None => default,
        },
        None => default,
    }
}

fn bool_arg_exec(args: &Json, field: &str) -> (r: bool)
    ensures
        r == bool_arg(args@, field@),
{
    match args.get(field) {
        Some(v) => match v.as_bool() {
            Some(b) => b,
            None => false,
        },
        None => false,
    }
}

fn id_arg_exec(args: &Json, field: &str) -> (r: Result<u128, String>)
    ensures
        match r {
            Ok(v) => id_arg(args@, field@) == Ok::<u128, Seq<char>>(v),
            Err(e) => id_arg(args@, field@) == Err::<u128, Seq<char>>(e@),
        },
{
    match str_arg_exec(args, field) {
        Ok(s) => parse_uuid(s.as_str()),
        Err(e) => Err(e),
    }
}

fn is_parameter_key_exec(k: &String) -> (b: bool)
    ensures
        b == is_parameter_key(k@),
{
    let k = k.as_str();
    str_eq(k, "node_key") || str_eq(k, "edge_key") || str_eq(k, "node_data_id") || str_eq(
        k,
        "source_node_data_id",
    ) || str_eq(k, "target_node_data_id") || str_eq(k, "edge_data_id") || str_eq(k, "force")
}

fn without_parameters_exec(m: &Vec<(String, Json)>) -> (r: Vec<(String, Json)>)
    ensures
        members_view(r@) == without_parameters(members_view(m@)),
{
    let ghost mv = members_view(m@);
    let mut r: Vec<(String, Json)> = Vec::new();
    let mut i: usize = 0;
    assert(mv.take(0) =~= Seq::<(Seq<char>, JsonView)>::empty());
    while i < m.len()
        invariant
            i <= m@.len(),
            mv == members_view(m@),
            members_view(r@) == without_parameters(mv.take(i as int)),
        decreases m.len() - i,
    {
        assert(mv.take(i + 1).drop_last() =~= mv.take(i as int));
        assert(mv.take(i + 1).last() == (m@[i as int].0@, m@[i as int].1@));
        if !is_parameter_key_exec(&m[i].0) {
            let ghost before = members_view(r@);
            let k = m[i].0.clone();
            let v = m[i].1.deep_clone();
            r.push((k, v));
            assert(members_view(r@) =~= before.push((m@[i as int].0@, m@[i as int].1@)));
        }
        i = i + 1;
    }
    assert(mv.take(m.len() as int) =~= mv);
    r
}

fn is_edge_parameter_key_exec(k: &String) -> (b: bool)
    ensures
        b == is_edge_parameter_key(k@),
{
    is_parameter_key_exec(k) || str_eq(k.as_str(), "from_node_data_id") || str_eq(k.as_str(), "to_node_data_id")
}

fn without_edge_parameters_exec(m: &Vec<(String, Json)>) -> (r: Vec<(String, Json)>)
    ensures
        members_view(r@) == without_edge_parameters(members_view(m@)),
{
    let ghost mv = members_view(m@);
    let mut r: Vec<(String, Json)> = Vec::new();
    let mut i: usize = 0;
    assert(mv.take(0) =~= Seq::<(Seq<char>, JsonView)>::empty());
    while i < m.len()
        invariant
            i <= m@.len(),
            mv == members_view(m@),
            members_view(r@) == without_edge_parameters(mv.take(i as int)),
        decreases m.len() - i,
    {
        assert(mv.take(i + 1).drop_last() =~= mv.take(i as int));
        assert(mv.take(i + 1).last() == (m@[i as int].0@, m@[i as int].1@));
        if !is_edge_parameter_key_exec(&m[i].0) {
            let ghost before = members_view(r@);
            let k = m[i].0.clone();
            let v = m[i].1.deep_clone();
            r.push((k, v));
            assert(members_view(r@) =~= before.push((m@[i as int].0@, m@[i as int].1@)));
        }
        i = i + 1;
    }
    assert(mv.take(m.len() as int) =~= mv);
    r
}

fn properties_arg_exec(args: &Json) -> (r: Result<Vec<(String, Json)>, String>)
    ensures
        match r {
            Ok(p) => properties_arg(args@) == Ok::<Seq<(Seq<char>, JsonView)>, Seq<char>>(
                members_view(p@),
            ),
            Err(e) => properties_arg(args@) == Err::<Seq<(Seq<char>, JsonView)>, Seq<char>>(e@),
        },
{
    match args.get("properties") {
        Some(p) => match p.as_object() {
            Some(m) => {
                return Ok(without_parameters_exec(m));
            },
            None => {},
        },
        None => {},
    }
    match args.as_object() {
        Some(m) => {
            let filtered = without_parameters_exec(m);
            if filtered.len() == 0 {
                Err(missing_field_exec("properties"))
            } else {
                Ok(filtered)
            }
        },
        None => Err(missing_field_exec("properties")),
    }
}

fn edge_properties_arg_exec(args: &Json) -> (r: Result<Vec<(String, Json)>, String>)
    ensures
        match r {
            Ok(p) => edge_properties_arg(args@) == Ok::<Seq<(Seq<char>, JsonView)>, Seq<char>>(
                members_view(p@),
            ),
            Err(e) => edge_properties_arg(args@) == Err::<Seq<(Seq<char>, JsonView)>, Seq<char>>(e@),
        },
{
    match args.get("properties") {
        Some(p) => match p.as_object() {
            Some(m) => {
                return Ok(without_parameters_exec(m));
            },
            None => {},
        },
        None => {},
    }
    match args.as_object() {
        Some(m) => Ok(without_edge_parameters_exec(m)),
        None => Err(missing_field_exec("properties")),
    }
}

fn validate_key_exec(types: &Vec<TypeSchema>, key: &String, what: &str) -> (r: Result<(), String>)
    ensures
        match r {
            Ok(_) => validate_key(types_view(types@), key@, what@) == Ok::<(), Seq<char>>(()),
            Err(e) => validate_key(types_view(types@), key@, what@) == Err::<(), Seq<char>>(e@),
        },
{
    let ghost tv = types_view(types@);
    let mut i: usize = 0;
    while i < types.len()
        invariant
            i <= types@.len(),
            tv == types_view(types@),
            forall|j: int| 0 <= j < i ==> tv[j].key != key@,
        decreases types.len() - i,
    {
        assert(tv[i as int].key == types@[i as int].key@);
        if str_eq(types[i].key.as_str(), key.as_str()) {
            return Ok(());
        }
        i = i + 1;
    }
    let ghost entries = Seq::new(tv.len(), |j: int| type_entry(tv[j]));
    let mut list = String::new();
    let mut j: usize = 0;
    while j < types.len()
        invariant
            j <= types@.len(),
            tv == types_view(types@),
            entries == Seq::new(tv.len(), |j: int| type_entry(tv[j])),
            list@ == join(entries.take(j as int), ", "@),
        decreases types.len() - j,
    {
        assert(entries.take(j + 1).drop_last() =~= entries.take(j as int));
        if j > 0 {
            append_str(&mut list, ", ");
        } else {
            assert(entries.take(0) =~= Seq::<Seq<char>>::empty());
        }
        append_string(&mut list, &types[j].key);
        append_str(&mut list, " (");
        append_string(&mut list, &types[j].label);
        append_str(&mut list, ")");
        j = j + 1;
    }
    assert(entries.take(types.len() as int) =~= entries);
    let mut e = owned("Unknown ");
    append_str(&mut e, what);
    append_str(&mut e, " schema key '");
    append_string(&mut e, key);
    append_str(&mut e, "'. Valid schemas: ");
    append_string(&mut e, &list);
    Err(e)
}


// ---------------------------------------------------------------------------
// Commands
// ---------------------------------------------------------------------------

/// One node of a batch.
#[derive(Debug)]
pub struct NodeEntry {
    pub node_key: String,
    pub properties: Vec<(String, Json)>,
    pub force: bool,
}

/// One edge of a batch.
#[derive(Debug)]
pub struct EdgeEntry {
    pub edge_key: String,
    pub from_node_data_id: u128,
    pub to_node_data_id: u128,
    pub properties: Vec<(String, Json)>,
}

/// What a tool call asks for, its arguments read and checked.
#[derive(Debug)]
pub enum ToolCommand {
    SearchNodes { query: String, node_key: Option<String>, limit: i32 },
    GetNode { node_data_id: u128 },
    GetNeighbors { node_data_id: u128, edge_key: Option<String>, depth: i32 },
    FindPaths { from_node_data_id: u128, to_node_data_id: u128, max_depth: i32 },
    ReadDocument { document_id: u128 },
    CreateSchema { label: String, description: String },
    CreateEdgeSchema { label: String, description: String },
    CreateNode { node: NodeEntry },
    CreateEdge { edge: EdgeEntry },
    /// The batch's nodes, all read and checked before any is created.
    CreateNodes { entries: Vec<NodeEntry> },
    /// The batch's items, each read (see `edge_item`) just before its edge is made.
    CreateEdges { items: Vec<Json> },
    UpdateNode { node_data_id: u128, properties: Vec<(String, Json)> },
    UpdateEdge { edge_data_id: u128, properties: Vec<(String, Json)> },
    DeleteNode { node_data_id: u128 },
    DeleteEdge { edge_data_id: u128 },
    Done { summary: String },
}

pub struct NodeEntryView {
    pub node_key: Seq<char>,
    pub properties: Seq<(Seq<char>, JsonView)>,
    pub force: bool,
}

pub struct EdgeEntryView {
    pub edge_key: Seq<char>,
    pub from: u128,
    pub to: u128,
    pub properties: Seq<(Seq<char>, JsonView)>,
}

pub enum CommandView {
    SearchNodes(Seq<char>, Option<Seq<char>>, i32),
    GetNode(u128),
    GetNeighbors(u128, Option<Seq<char>>, i32),
    FindPaths(u128, u128, i32),
    ReadDocument(u128),
    CreateSchema(Seq<char>, Seq<char>),
    CreateEdgeSchema(Seq<char>, Seq<char>),
    CreateNode(NodeEntryView),
    CreateEdge(EdgeEntryView),
    CreateNodes(Seq<NodeEntryView>),
    CreateEdges(Seq<JsonView>),
    UpdateNode(u128, Seq<(Seq<char>, JsonView)>),
    UpdateEdge(u128, Seq<(Seq<char>, JsonView)>),
    DeleteNode(u128),
    DeleteEdge(u128),
    Done(Seq<char>),
}

impl View for NodeEntry {
    type V = NodeEntryView;

    open spec fn view(&self) -> NodeEntryView {
        NodeEntryView {
            node_key: self.node_key@,
            properties: members_view(self.properties@),
            force: self.force,
        }
    }
}

impl View for EdgeEntry {
    type V = EdgeEntryView;

    open spec fn view(&self) -> EdgeEntryView {
        EdgeEntryView {
            edge_key: self.edge_key@,
            from: self.from_node_data_id,
            to: self.to_node_data_id,
            properties: members_view(self.properties@),
        }
    }
}

pub open spec fn entries_view(v: Seq<NodeEntry>) -> Seq<NodeEntryView> {
    Seq::new(v.len(), |i: int| v[i]@)
}

pub open spec fn opt_str_view(o: Option<String>) -> Option<Seq<char>> {
    match o {
        Some(s) => Some(s@),
        None => None,
    }
}

impl View for ToolCommand {
    type V = CommandView;

    open spec fn view(&self) -> CommandView {
        match self {
            ToolCommand::SearchNodes { query, node_key, limit } => CommandView::SearchNodes(
                query@,
                opt_str_view(*node_key),
                *limit,
            ),
            ToolCommand::GetNode { node_data_id } => CommandView::GetNode(*node_data_id),
            ToolCommand::GetNeighbors { node_data_id, edge_key, depth } => CommandView::GetNeighbors(
                *node_data_id,
                opt_str_view(*edge_key),
                *depth,
            ),
            ToolCommand::FindPaths { from_node_data_id, to_node_data_id, max_depth } =>
                CommandView::FindPaths(*from_node_data_id, *to_node_data_id, *max_depth),
            ToolCommand::ReadDocument { document_id } => CommandView::ReadDocument(*document_id),
            ToolCommand::CreateSchema { label, description } => CommandView::CreateSchema(
                label@,
                description@,
            ),
            ToolCommand::CreateEdgeSchema { label, description } => CommandView::CreateEdgeSchema(
                label@,
                description@,
            ),
            ToolCommand::CreateNode { node } => CommandView::CreateNode(node@),
            ToolCommand::CreateEdge { edge } => CommandView::CreateEdge(edge@),
            ToolCommand::CreateNodes { entries } => CommandView::CreateNodes(entries_view(entries@)),
            ToolCommand::CreateEdges { items } => CommandView::CreateEdges(items_view(items@)),
            ToolCommand::UpdateNode { node_data_id, properties } => CommandView::UpdateNode(
                *node_data_id,
                members_view(properties@),
            ),
            ToolCommand::UpdateEdge { edge_data_id, properties } => CommandView::UpdateEdge(
                *edge_data_id,
                members_view(properties@),
            ),
            ToolCommand::DeleteNode { node_data_id } => CommandView::DeleteNode(*node_data_id),
            ToolCommand::DeleteEdge { edge_data_id } => CommandView::DeleteEdge(*edge_data_id),
            ToolCommand::Done { summary } => CommandView::Done(summary@),
        }
    }
}

/// A single node's arguments, in the order they are read.
pub open spec fn node_args(args: JsonView, schema: GraphSchemaView) -> Result<NodeEntryView, Seq<char>> {
    match str_arg(args, "node_key"@) {
        Err(e) => Err(e),
        Ok(key) => match properties_arg(args) {
            Err(e) => Err(e),
            Ok(props) => match validate_key(schema.nodes, key, "node"@) {
                Err(e) => Err(e),
                Ok(_) => Ok(NodeEntryView { node_key: key, properties: props, force: bool_arg(args, "force"@) }),
            },
        },
    }
}

/// A single edge's arguments, in the order they are read.
pub open spec fn edge_args(args: JsonView, schema: GraphSchemaView) -> Result<EdgeEntryView, Seq<char>> {
    match str_arg(args, "edge_key"@) {
        Err(e) => Err(e),
        Ok(key) => match id_arg(args, "from_node_data_id"@) {
            Err(e) => Err(e),
            Ok(from) => match id_arg(args, "to_node_data_id"@) {
                Err(e) => Err(e),
                Ok(to) => match edge_properties_arg(args) {
                    Err(e) => Err(e),
                    Ok(props) => match validate_key(schema.edges, key, "edge"@) {
                        Err(e) => Err(e),
                        Ok(_) => Ok(EdgeEntryView { edge_key: key, from, to, properties: props }),
                    },
                },
            },
        },
    }
}

/// The label of the `i`-th item of a batch, as errors name it.
pub open spec fn item_label(batch: Seq<char>, i: nat) -> Seq<char> {
    batch + "["@ + decimal(i) + "]: "@
}

/// Node `i` of a batch: its key (which the schema must have), properties and
/// `force` flag.
pub open spec fn node_item(i: nat, item: JsonView, schema: GraphSchemaView) -> Result<NodeEntryView, Seq<char>> {
    match item.get("node_key"@) {
        Some(JsonView::String(key)) => match validate_key(schema.nodes, key, "node"@) {
            Err(e) => Err(e),
            Ok(_) => match properties_arg(item) {
                Err(e) => Err(e),
                Ok(props) => Ok(NodeEntryView { node_key: key, properties: props, force: bool_arg(item, "force"@) }),
            },
        },
        _ => Err(item_label("nodes"@, i) + "missing node_key"@),
    }
}

/// An id of a batch item: missing, or not an id, is an error of the item.
pub open spec fn item_id(i: nat, item: JsonView, field: Seq<char>) -> Result<u128, Seq<char>> {
    match item.get(field) {
        Some(JsonView::String(s)) => match uuid_parsed(s) {
            Ok(v) => Ok(v),
            Err(e) => Err(item_label("edges"@, i) + "invalid "@ + field + ": "@ + e),
        },
        _ => Err(item_label("edges"@, i) + "missing "@ + field),
    }
}

/// Edge `i` of a batch, read just before it is made.
pub open spec fn edge_item(i: nat, item: JsonView, schema: GraphSchemaView) -> Result<EdgeEntryView, Seq<char>> {
    match item.get("edge_key"@) {
        Some(JsonView::String(key)) => match item_id(i, item, "from_node_data_id"@) {
            Err(e) => Err(e),
            Ok(from) => match item_id(i, item, "to_node_data_id"@) {
                Err(e) => Err(e),
                Ok(to) => match validate_key(schema.edges, key, "edge"@) {
                    Err(e) => Err(e),
                    Ok(_) => match edge_properties_arg(item) {
                        Err(e) => Err(e),
                        Ok(props) => Ok(EdgeEntryView { edge_key: key, from, to, properties: props }),
                    },
                },
            },
        },
        _ => Err(item_label("edges"@, i) + "missing edge_key"@),
    }
}

/// The nodes of a batch, read in order up to the first bad one.
pub open spec fn node_items(items: Seq<JsonView>, schema: GraphSchemaView) -> Result<Seq<NodeEntryView>, Seq<char>>
    decreases items.len(),
{
    if items.len() == 0 {
        Ok(Seq::empty())
    } else {
        match node_items(items.drop_last(), schema) {
            Err(e) => Err(e),
            Ok(es) => match node_item((items.len() - 1) as nat, items.last(), schema) {
                Err(e) => Err(e),
                Ok(n) => Ok(es.push(n)),
            },
        }
    }
}

/// The items of a batch call: an array of 1 to `MAX_BATCH` items.
pub open spec fn batch_items(args: JsonView, field: Seq<char>) -> Result<Seq<JsonView>, Seq<char>> {
    match args.get(field) {
        Some(JsonView::Array(items)) => if items.len() > MAX_BATCH {
            Err("Maximum 50 "@ + field + " per batch"@)
        } else if items.len() == 0 {
            Err(field + " array is empty"@)
        } else {
            Ok(items)
        },
        _ => Err(missing_field(field)),
    }
}

/// The command that tool `k` runs with the arguments `a`, or the error that
/// ends the call.
pub open spec fn command(k: ToolKind, a: JsonView, schema: GraphSchemaView) -> Result<CommandView, Seq<char>> {
    match k {
        ToolKind::SearchNodes => match str_arg(a, "query"@) {
            Err(e) => Err(e),
            Ok(q) => Ok(CommandView::SearchNodes(q, opt_str_arg(a, "node_key"@), int_arg(a, "limit"@, 10))),
        },
        ToolKind::GetNode => match id_arg(a, "node_data_id"@) {
            Err(e) => Err(e),
            Ok(id) => Ok(CommandView::GetNode(id)),
        },
        ToolKind::GetNeighbors => match id_arg(a, "node_data_id"@) {
            Err(e) => Err(e),
            Ok(id) => Ok(CommandView::GetNeighbors(id, opt_str_arg(a, "edge_key"@), int_arg(a, "depth"@, 1))),
        },
        ToolKind::FindPaths => match id_arg(a, "from_node_data_id"@) {
            Err(e) => Err(e),
            Ok(from) => match id_arg(a, "to_node_data_id"@) {
                Err(e) => Err(e),
                Ok(to) => Ok(CommandView::FindPaths(from, to, int_arg(a, "max_depth"@, 5))),
            },
        },
        ToolKind::ReadDocument => match id_arg(a, "document_id"@) {
            Err(e) => Err(e),
            Ok(id) => Ok(CommandView::ReadDocument(id)),
        },
        ToolKind::CreateSchema => match str_arg(a, "label"@) {
            Err(e) => Err(e),
            Ok(l) => match str_arg(a, "description"@) {
                Err(e) => Err(e),
                Ok(d) => Ok(CommandView::CreateSchema(l, d)),
            },
        },
        ToolKind::CreateEdgeSchema => match str_arg(a, "label"@) {
            Err(e) => Err(e),
            Ok(l) => match str_arg(a, "description"@) {
                Err(e) => Err(e),
                Ok(d) => Ok(CommandView::CreateEdgeSchema(l, d)),
            },
        },
        ToolKind::CreateNode => match node_args(a, schema) {
            Err(e) => Err(e),
            Ok(n) => Ok(CommandView::CreateNode(n)),
        },
        ToolKind::CreateEdge => match edge_args(a, schema) {
            Err(e) => Err(e),
            Ok(n) => Ok(CommandView::CreateEdge(n)),
        },
        ToolKind::CreateNodes => match batch_items(a, "nodes"@) {
            Err(e) => Err(e),
            Ok(items) => match node_items(items, schema) {
                Err(e) => Err(e),
                Ok(es) => Ok(CommandView::CreateNodes(es)),
            },
        },
        ToolKind::CreateEdges => match batch_items(a, "edges"@) {
            Err(e) => Err(e),
            Ok(items) => Ok(CommandView::CreateEdges(items)),
        },
        ToolKind::UpdateNode => match id_arg(a, "node_data_id"@) {
            Err(e) => Err(e),
            Ok(id) => match properties_arg(a) {
                Err(e) => Err(e),
                Ok(p) => Ok(CommandView::UpdateNode(id, p)),
            },
        },
        ToolKind::UpdateEdge => match id_arg(a, "edge_data_id"@) {
            Err(e) => Err(e),
            Ok(id) => match properties_arg(a) {
                Err(e) => Err(e),
                Ok(p) => Ok(CommandView::UpdateEdge(id, p)),
            },
        },
        ToolKind::DeleteNode => match id_arg(a, "node_data_id"@) {
            Err(e) => Err(e),
            Ok(id) => Ok(CommandView::DeleteNode(id)),
        },
        ToolKind::DeleteEdge => match id_arg(a, "edge_data_id"@) {
            Err(e) => Err(e),
            Ok(id) => Ok(CommandView::DeleteEdge(id)),
        },
        ToolKind::Done => Ok(CommandView::Done(done_summary(Ok(a)))),
    }
}

/// The summary of the `done` tool: its "summary" argument, or a default.
pub open spec fn done_summary(args: Result<JsonView, Seq<char>>) -> Seq<char> {
    match args {
        Ok(a) => match a.get("summary"@) {
            Some(JsonView::String(s)) => s,
            _ => TASK_COMPLETED@,
        },
        Err(_) => TASK_COMPLETED@,
    }
}

/// What a tool call comes to before anything runs.
#[derive(Debug)]
pub enum ToolPlan {
    /// The role may not use the tool; this text is the tool's answer.
    Denied(String),
    /// The call fails with this error.
    Invalid(String),
    /// The command to run.
    Run(ToolCommand),
}

pub enum PlanView {
    Denied(Seq<char>),
    Invalid(Seq<char>),
    Run(CommandView),
}

impl View for ToolPlan {
    type V = PlanView;

    open spec fn view(&self) -> PlanView {
        match self {
            ToolPlan::Denied(s) => PlanView::Denied(s@),
            ToolPlan::Invalid(s) => PlanView::Invalid(s@),
            ToolPlan::Run(c) => PlanView::Run(c@),
        }
    }
}

/// How the call of tool `name` with the arguments `args` (the JSON read from
/// its argument text, or the reading error) is handled for a user of `role`.
/// A write tool is refused to a role that may not write; an unknown tool and
/// bad arguments fail; `done` always runs.
pub open spec fn plan(name: Seq<char>, args: Result<JsonView, Seq<char>>, schema: GraphSchemaView, role: Role) -> PlanView {
    match tool_kind(name) {
        None => PlanView::Invalid("Unknown tool: "@ + name),
        Some(k) => if is_write_kind(k) && !can_write(role) {
            PlanView::Denied(permission_denied(role, name))
        } else if k == ToolKind::Done {
            PlanView::Run(CommandView::Done(done_summary(args)))
        } else {
            match args {
                Err(e) => PlanView::Invalid("Invalid tool arguments: "@ + e),
                Ok(a) => match command(k, a, schema) {
                    Err(e) => PlanView::Invalid(e),
                    Ok(c) => PlanView::Run(c),
                },
            }
        },
    }
}

/// The answer of tool `name` once it ran: the result's text, or the error
/// behind "Error: "; the schema changed when a schema tool succeeded, and the
/// turn is done when `done` succeeded.
pub open spec fn finish(name: Seq<char>, result: Result<Seq<char>, Seq<char>>) -> OutcomeView {
    OutcomeView {
        content: match result {
            Ok(c) => c,
            Err(e) => "Error: "@ + e,
        },
        schema_changed: (name == "create_schema"@ || name == "create_edge_schema"@) && result is Ok,
        is_done: name == "done"@ && result is Ok,
    }
}


// ---------------------------------------------------------------------------
// Reading commands
// ---------------------------------------------------------------------------

fn node_args_exec(args: &Json, schema: &GraphSchema) -> (r: Result<NodeEntry, String>)
    ensures
        match r {
            Ok(n) => node_args(args@, schema@) == Ok::<NodeEntryView, Seq<char>>(n@),
            Err(e) => node_args(args@, schema@) == Err::<NodeEntryView, Seq<char>>(e@),
        },
{
    let key = match str_arg_exec(args, "node_key") {
        Ok(k) => k,
        Err(e) => {
            return Err(e);
        },
    };
    let props = match properties_arg_exec(args) {
        Ok(p) => p,
        Err(e) => {
            return Err(e);
        },
    };
    let force = bool_arg_exec(args, "force");
    assert(types_view(schema.nodes@) == schema@.nodes);
    match validate_key_exec(&schema.nodes, &key, "node") {
        Ok(_) => Ok(NodeEntry { node_key: key, properties: props, force }),
        Err(e) => Err(e),
    }
}

fn edge_args_exec(args: &Json, schema: &GraphSchema) -> (r: Result<EdgeEntry, String>)
    ensures
        match r {
            Ok(n) => edge_args(args@, schema@) == Ok::<EdgeEntryView, Seq<char>>(n@),
            Err(e) => edge_args(args@, schema@) == Err::<EdgeEntryView, Seq<char>>(e@),
        },
{
    let key = match str_arg_exec(args, "edge_key") {
        Ok(k) => k,
        Err(e) => {
            return Err(e);
        },
    };
    let from = match id_arg_exec(args, "from_node_data_id") {
        Ok(v) => v,
        Err(e) => {
            return Err(e);
        },
    };
    let to = match id_arg_exec(args, "to_node_data_id") {
        Ok(v) => v,
        Err(e) => {
            return Err(e);
        },
    };
    let props = match edge_properties_arg_exec(args) {
        Ok(p) => p,
        Err(e) => {
            return Err(e);
        },
    };
    assert(types_view(schema.edges@) == schema@.edges);
    match validate_key_exec(&schema.edges, &key, "edge") {
        Ok(_) => Ok(EdgeEntry { edge_key: key, from_node_data_id: from, to_node_data_id: to, properties: props }),
        Err(e) => Err(e),
    }
}

pub(crate) fn item_label_exec(batch: &str, i: usize) -> (s: String)
    ensures
        s@ == item_label(batch@, i as nat),
{
    let mut s = owned(batch);
    append_str(&mut s, "[");
    let d = decimal_string(i);
    append_string(&mut s, &d);
    append_str(&mut s, "]: ");
    s
}

fn node_item_exec(i: usize, item: &Json, schema: &GraphSchema) -> (r: Result<NodeEntry, String>)
    ensures
        match r {
            Ok(n) => node_item(i as nat, item@, schema@) == Ok::<NodeEntryView, Seq<char>>(n@),
            Err(e) => node_item(i as nat, item@, schema@) == Err::<NodeEntryView, Seq<char>>(e@),
        },
{
    let key = match item.get("node_key") {
        Some(v) => match v.as_str() {
            Some(k) => owned(k),
            None => {
                let mut e = item_label_exec("nodes", i);
                append_str(&mut e, "missing node_key");
                return Err(e);
            },
        },
        None => {
            let mut e = item_label_exec("nodes", i);
            append_str(&mut e, "missing node_key");
            return Err(e);
        },
    };
    assert(types_view(schema.nodes@) == schema@.nodes);
    match validate_key_exec(&schema.nodes, &key, "node") {
        Ok(_) => {},
        Err(e) => {
            return Err(e);
        },
    }
    let props = match properties_arg_exec(item) {
        Ok(p) => p,
        Err(e) => {
            return Err(e);
        },
    };
    let force = bool_arg_exec(item, "force");
    Ok(NodeEntry { node_key: key, properties: props, force })
}

fn item_id_exec(i: usize, item: &Json, field: &str) -> (r: Result<u128, String>)
    ensures
        match r {
            Ok(v) => item_id(i as nat, item@, field@) == Ok::<u128, Seq<char>>(v),
            Err(e) => item_id(i as nat, item@, field@) == Err::<u128, Seq<char>>(e@),
        },
{
    match item.get(field) {
        Some(v) => match v.as_str() {
            Some(s) => match parse_uuid(s) {
                Ok(id) => Ok(id),
                Err(err) => {
                    let mut e = item_label_exec("edges", i);
                    append_str(&mut e, "invalid ");
                    append_str(&mut e, field);
                    append_str(&mut e, ": ");
                    append_string(&mut e, &err);
                    Err(e)
                },
            },
            None => {
                let mut e = item_label_exec("edges", i);
                append_str(&mut e, "missing ");
                append_str(&mut e, field);
                Err(e)
            },
        },
        None => {
            let mut e = item_label_exec("edges", i);
            append_str(&mut e, "missing ");
            append_str(&mut e, field);
            Err(e)
        },
    }
}

/// Edge `i` of a `create_edges` batch (see `edge_item`).
pub fn edge_item_exec(i: usize, item: &Json, schema: &GraphSchema) -> (r: Result<EdgeEntry, String>)
    ensures
        match r {
            Ok(n) => edge_item(i as nat, item@, schema@) == Ok::<EdgeEntryView, Seq<char>>(n@),
            Err(e) => edge_item(i as nat, item@, schema@) == Err::<EdgeEntryView, Seq<char>>(e@),
        },
{
    let key = match item.get("edge_key") {
        Some(v) => match v.as_str() {
            Some(k) => owned(k),
            None => {
                let mut e = item_label_exec("edges", i);
                append_str(&mut e, "missing edge_key");
                return Err(e);
            },
        },
        None => {
            let mut e = item_label_exec("edges", i);
            append_str(&mut e, "missing edge_key");
            return Err(e);
        },
    };
    let from = match item_id_exec(i, item, "from_node_data_id") {
        Ok(v) => v,
        Err(e) => {
            return Err(e);
        },
    };
    let to = match item_id_exec(i, item, "to_node_data_id") {
        Ok(v) => v,
        Err(e) => {
            return Err(e);
        },
    };
    assert(types_view(schema.edges@) == schema@.edges);
    match validate_key_exec(&schema.edges, &key, "edge") {
        Ok(_) => {},
        Err(e) => {
            return Err(e);
        },
    }
    match edge_properties_arg_exec(item) {
        Ok(p) => Ok(EdgeEntry { edge_key: key, from_node_data_id: from, to_node_data_id: to, properties: p }),
        Err(e) => Err(e),
    }
}

pub proof fn lemma_node_items_err(items: Seq<JsonView>, schema: GraphSchemaView, i: int, e: Seq<char>)
    requires
        0 <= i <= items.len(),
        node_items(items.take(i), schema) == Err::<Seq<NodeEntryView>, Seq<char>>(e),
    ensures
        node_items(items, schema) == Err::<Seq<NodeEntryView>, Seq<char>>(e),
    decreases items.len() - i,
{
    if i < items.len() {
        assert(items.take(i + 1).drop_last() =~= items.take(i));
        lemma_node_items_err(items, schema, i + 1, e);
    } else {
        assert(items.take(i) =~= items);
    }
}

fn node_items_exec(items: &Vec<Json>, schema: &GraphSchema) -> (r: Result<Vec<NodeEntry>, String>)
    ensures
        match r {
            Ok(es) => node_items(items_view(items@), schema@) == Ok::<Seq<NodeEntryView>, Seq<char>>(
                entries_view(es@),
            ),
            Err(e) => node_items(items_view(items@), schema@) == Err::<Seq<NodeEntryView>, Seq<char>>(e@),
        },
{
    let ghost iv = items_view(items@);
    let mut es: Vec<NodeEntry> = Vec::new();
    let mut i: usize = 0;
    assert(iv.take(0) =~= Seq::<JsonView>::empty());
    assert(entries_view(es@) =~= Seq::<NodeEntryView>::empty());
    while i < items.len()
        invariant
            i <= items@.len(),
            iv == items_view(items@),
            node_items(iv.take(i as int), schema@) == Ok::<Seq<NodeEntryView>, Seq<char>>(
                entries_view(es@),
            ),
        decreases items.len() - i,
    {
        assert(iv.take(i + 1).drop_last() =~= iv.take(i as int));
        assert(iv.take(i + 1).last() == items@[i as int]@);
        match node_item_exec(i, &items[i], schema) {
            Ok(n) => {
                let ghost before = entries_view(es@);
                let ghost nv = n@;
                es.push(n);
                assert(entries_view(es@) =~= before.push(nv));
            },
            Err(e) => {
                proof {
                    lemma_node_items_err(iv, schema@, i + 1, e@);
                }
                return Err(e);
            },
        }
        i = i + 1;
    }
    assert(iv.take(items.len() as int) =~= iv);
    Ok(es)
}

fn batch_items_exec<'a>(args: &'a Json, field: &str) -> (r: Result<&'a Vec<Json>, String>)
    ensures
        match r {
            Ok(items) => batch_items(args@, field@) == Ok::<Seq<JsonView>, Seq<char>>(items_view(items@)),
            Err(e) => batch_items(args@, field@) == Err::<Seq<JsonView>, Seq<char>>(e@),
        },
{
    let v = match args.get(field) {
        Some(v) => v,
        None => {
            return Err(missing_field_exec(field));
        },
    };
    let items = match v.as_array() {
        Some(a) => a,
        None => {
            return Err(missing_field_exec(field));
        },
    };
    proof {
        lemma_array_view(*items);
    }
    if items.len() > MAX_BATCH {
        let mut e = owned("Maximum 50 ");
        append_str(&mut e, field);
        append_str(&mut e, " per batch");
        Err(e)
    } else if items.len() == 0 {
        let mut e = owned(field);
        append_str(&mut e, " array is empty");
        Err(e)
    } else {
        Ok(items)
    }
}

pub(crate) fn clone_items(v: &Vec<Json>) -> (r: Vec<Json>)
    ensures
        items_view(r@) == items_view(v@),
{
    let mut r: Vec<Json> = Vec::new();
    let mut i: usize = 0;
    while i < v.len()
        invariant
            i <= v@.len(),
            items_view(r@) == items_view(v@).take(i as int),
        decreases v.len() - i,
    {
        let ghost before = items_view(r@);
        let c = v[i].deep_clone();
        r.push(c);
        assert(items_view(r@) =~= before.push(v@[i as int]@));
        assert(items_view(r@) =~= items_view(v@).take(i + 1));
        i = i + 1;
    }
    assert(items_view(v@).take(v.len() as int) =~= items_view(v@));
    r
}

fn done_summary_exec(args: &Result<Json, String>) -> (s: String)
    ensures
        s@ == done_summary(args_view(*args)),
{
    match args {
        Ok(a) => match a.get("summary") {
            Some(v) => match v.as_str() {
                Some(t) => owned(t),
                None => owned(TASK_COMPLETED),
            },
            None => owned(TASK_COMPLETED),
        },
        Err(_) => owned(TASK_COMPLETED),
    }
}

/// The arguments as read: their JSON, or the reading error.
pub open spec fn args_view(args: Result<Json, String>) -> Result<JsonView, Seq<char>> {
    match args {
        Ok(a) => Ok(a@),
        Err(e) => Err(e@),
    }
}

fn command_exec(k: ToolKind, a: &Json, schema: &GraphSchema) -> (r: Result<ToolCommand, String>)
    ensures
        match r {
            Ok(c) => command(k, a@, schema@) == Ok::<CommandView, Seq<char>>(c@),
            Err(e) => command(k, a@, schema@) == Err::<CommandView, Seq<char>>(e@),
        },
{
    match k {
        ToolKind::SearchNodes => match str_arg_exec(a, "query") {
            Err(e) => Err(e),
            Ok(q) => Ok(ToolCommand::SearchNodes {
                query: q,
                node_key: opt_str_arg_exec(a, "node_key"),
                limit: int_arg_exec(a, "limit", 10),
            }),
        },
        ToolKind::GetNode => match id_arg_exec(a, "node_data_id") {
            Err(e) => Err(e),
            Ok(id) => Ok(ToolCommand::GetNode { node_data_id: id }),
        },
        ToolKind::GetNeighbors => match id_arg_exec(a, "node_data_id") {
            Err(e) => Err(e),
            Ok(id) => Ok(ToolCommand::GetNeighbors {
                node_data_id: id,
                edge_key: opt_str_arg_exec(a, "edge_key"),
                depth: int_arg_exec(a, "depth", 1),
            }),
        },
        ToolKind::FindPaths => match id_arg_exec(a, "from_node_data_id") {
            Err(e) => Err(e),
            Ok(from) => match id_arg_exec(a, "to_node_data_id") {
                Err(e) => Err(e),
                Ok(to) => Ok(ToolCommand::FindPaths {
                    from_node_data_id: from,
                    to_node_data_id: to,
                    max_depth: int_arg_exec(a, "max_depth", 5),
                }),
            },
        },
        ToolKind::ReadDocument => match id_arg_exec(a, "document_id") {
            Err(e) => Err(e),
            Ok(id) => Ok(ToolCommand::ReadDocument { document_id: id }),
        },
        ToolKind::CreateSchema => match str_arg_exec(a, "label") {
            Err(e) => Err(e),
            Ok(l) => match str_arg_exec(a, "description") {
                Err(e) => Err(e),
                Ok(d) => Ok(ToolCommand::CreateSchema { label: l, description: d }),
            },
        },
        ToolKind::CreateEdgeSchema => match str_arg_exec(a, "label") {
            Err(e) => Err(e),
            Ok(l) => match str_arg_exec(a, "description") {
                Err(e) => Err(e),
                Ok(d) => Ok(ToolCommand::CreateEdgeSchema { label: l, description: d }),
            },
        },
        ToolKind::CreateNode => match node_args_exec(a, schema) {
            Err(e) => Err(e),
            Ok(n) => Ok(ToolCommand::CreateNode { node: n }),
        },
        ToolKind::CreateEdge => match edge_args_exec(a, schema) {
            Err(e) => Err(e),
            Ok(n) => Ok(ToolCommand::CreateEdge { edge: n }),
        },
        ToolKind::CreateNodes => match batch_items_exec(a, "nodes") {
            Err(e) => Err(e),
            Ok(items) => match node_items_exec(items, schema) {
                Err(e) => Err(e),
                Ok(es) => Ok(ToolCommand::CreateNodes { entries: es }),
            },
        },
        ToolKind::CreateEdges => match batch_items_exec(a, "edges") {
            Err(e) => Err(e),
            Ok(items) => Ok(ToolCommand::CreateEdges { items: clone_items(items) }),
        },
        ToolKind::UpdateNode => match id_arg_exec(a, "node_data_id") {
            Err(e) => Err(e),
            Ok(id) => match properties_arg_exec(a) {
                Err(e) => Err(e),
                Ok(p) => Ok(ToolCommand::UpdateNode { node_data_id: id, properties: p }),
            },
        },
        ToolKind::UpdateEdge => match id_arg_exec(a, "edge_data_id") {
            Err(e) => Err(e),
            Ok(id) => match properties_arg_exec(a) {
                Err(e) => Err(e),
                Ok(p) => Ok(ToolCommand::UpdateEdge { edge_data_id: id, properties: p }),
            },
        },
        ToolKind::DeleteNode => match id_arg_exec(a, "node_data_id") {
            Err(e) => Err(e),
            Ok(id) => Ok(ToolCommand::DeleteNode { node_data_id: id }),
        },
        ToolKind::DeleteEdge => match id_arg_exec(a, "edge_data_id") {
            Err(e) => Err(e),
            Ok(id) => Ok(ToolCommand::DeleteEdge { edge_data_id: id }),
        },
        ToolKind::Done => {
            let args = Ok(a.deep_clone());
            Ok(ToolCommand::Done { summary: done_summary_exec(&args) })
        },
    }
}

/// How a call of tool `tool_name` is handled (see `plan`); `args` is the JSON
/// read from the call's argument text, or the reading error's text.
pub fn plan_tool(tool_name: &str, args: &Result<Json, String>, schema: &GraphSchema, role: Role) -> (r: ToolPlan)
    ensures
        r@ == plan(tool_name@, args_view(*args), schema@, role),
{
    let k = match tool_kind_of(tool_name) {
        Some(k) => k,
        None => {
            let mut e = owned("Unknown tool: ");
            append_str(&mut e, tool_name);
            return ToolPlan::Invalid(e);
        },
    };
    if is_write_tool_exec(tool_name) && !is_write_role(role) {
        let mut m = owned("Permission denied: role '");
        let r = role_name_exec(role);
        append_string(&mut m, &r);
        append_str(&mut m, "' cannot use tool '");
        append_str(&mut m, tool_name);
        append_str(&mut m, "'. Write access requires Owner, Admin, or Editor role.");
        return ToolPlan::Denied(m);
    }
    if k == ToolKind::Done {
        return ToolPlan::Run(ToolCommand::Done { summary: done_summary_exec(args) });
    }
    match args {
        Err(e) => {
            let mut m = owned("Invalid tool arguments: ");
            append_string(&mut m, e);
            ToolPlan::Invalid(m)
        },
        Ok(a) => match command_exec(k, a, schema) {
            Err(e) => ToolPlan::Invalid(e),
            Ok(c) => ToolPlan::Run(c),
        },
    }
}

/// The answer of tool `tool_name` once it ran (see `finish`).
pub fn finish_tool(tool_name: &str, result: Result<String, String>) -> (o: ToolResult)
    ensures
        o@ == finish(tool_name@, match result {
            Ok(c) => Ok::<Seq<char>, Seq<char>>(c@),
            Err(e) => Err::<Seq<char>, Seq<char>>(e@),
        }),
{
    let ok = result.is_ok();
    let schema_tool = str_eq(tool_name, "create_schema") || str_eq(tool_name, "create_edge_schema");
    let done_tool = str_eq(tool_name, "done");
    let content = match result {
        Ok(c) => c,
        Err(e) => {
            let mut m = owned("Error: ");
            append_string(&mut m, &e);
            m
        },
    };
    ToolResult { content, schema_changed: schema_tool && ok, is_done: done_tool && ok }
}

/// The answer a call gets without anything outside being run: a refused or
/// failed call answers at once, and `done` ends the turn with its summary.
pub open spec fn plan_answer(name: Seq<char>, p: PlanView) -> Option<OutcomeView> {
    match p {
        PlanView::Denied(m) => Some(OutcomeView { content: m, schema_changed: false, is_done: false }),
        PlanView::Invalid(e) => Some(finish(name, Err::<Seq<char>, Seq<char>>(e))),
        PlanView::Run(CommandView::Done(summary)) => Some(
            OutcomeView { content: summary, schema_changed: false, is_done: true },
        ),
        PlanView::Run(_) => None,
    }
}

/// The answer to a call that needs nothing run outside (see `plan_answer`);
/// `None` when the command is to be run.
pub fn plan_outcome(tool_name: &str, plan: ToolPlan) -> (o: Option<ToolResult>)
    ensures
        match o {
            Some(x) => plan_answer(tool_name@, plan@) == Some(x@),
            None => plan_answer(tool_name@, plan@) is None,
        },
{
    match plan {
        ToolPlan::Denied(m) => Some(ToolResult { content: m, schema_changed: false, is_done: false }),
        ToolPlan::Invalid(e) => Some(finish_tool(tool_name, Err(e))),
        ToolPlan::Run(ToolCommand::Done { summary }) => Some(
            ToolResult { content: summary, schema_changed: false, is_done: true },
        ),
        ToolPlan::Run(_) => None,
    }
}


// ---------------------------------------------------------------------------
// Answers of the batch tools
// ---------------------------------------------------------------------------

pub open spec fn index_view(i: usize) -> JsonView {
    JsonView::Number(JsonNumber::PosInt(i as u64))
}

fn index_json(i: usize) -> (j: Json)
    ensures
        j@ == index_view(i),
{
    Json::Number(JsonNumber::PosInt(i as u64))
}

/// The answer for node `i` of a batch that was created.
pub fn node_created_item(i: usize, node_data_id: Json, key: Json, properties: Json) -> (j: Json)
    ensures
        j@ == JsonView::Object(
            seq![
                ("index"@, index_view(i)),
                ("created"@, JsonView::Bool(true)),
                ("node_data_id"@, node_data_id@),
                ("key"@, key@),
                ("properties"@, properties@),
            ],
        ),
{
    let mut m: Vec<(String, Json)> = Vec::new();
    push_member(&mut m, "index", index_json(i));
    push_member(&mut m, "created", Json::Bool(true));
    push_member(&mut m, "node_data_id", node_data_id);
    push_member(&mut m, "key", key);
    push_member(&mut m, "properties", properties);
    let j = object_of(m);
    assert(j@->Object_0 =~= seq![
        ("index"@, index_view(i)),
        ("created"@, JsonView::Bool(true)),
        ("node_data_id"@, node_data_id@),
        ("key"@, key@),
        ("properties"@, properties@),
    ]);
    j
}

/// The answer for node `i` of a batch that was not created because close
/// matches exist.
pub fn node_similar_item(i: usize, similar_nodes: Json) -> (j: Json)
    ensures
        j@ == JsonView::Object(
            seq![
                ("index"@, index_view(i)),
                ("created"@, JsonView::Bool(false)),
                ("reason"@, JsonView::String("Similar node already exists"@)),
                ("similar_nodes"@, similar_nodes@),
            ],
        ),
{
    let mut m: Vec<(String, Json)> = Vec::new();
    push_member(&mut m, "index", index_json(i));
    push_member(&mut m, "created", Json::Bool(false));
    push_member(&mut m, "reason", Json::str("Similar node already exists"));
    push_member(&mut m, "similar_nodes", similar_nodes);
    let j = object_of(m);
    assert(j@->Object_0 =~= seq![
        ("index"@, index_view(i)),
        ("created"@, JsonView::Bool(false)),
        ("reason"@, JsonView::String("Similar node already exists"@)),
        ("similar_nodes"@, similar_nodes@),
    ]);
    j
}

/// The answer for item `i` of a batch whose creation failed.
pub fn item_failed(i: usize, error: &str) -> (j: Json)
    ensures
        j@ == JsonView::Object(
            seq![
                ("index"@, index_view(i)),
                ("created"@, JsonView::Bool(false)),
                ("error"@, JsonView::String(error@)),
            ],
        ),
{
    let mut m: Vec<(String, Json)> = Vec::new();
    push_member(&mut m, "index", index_json(i));
    push_member(&mut m, "created", Json::Bool(false));
    push_member(&mut m, "error", Json::str(error));
    let j = object_of(m);
    assert(j@->Object_0 =~= seq![
        ("index"@, index_view(i)),
        ("created"@, JsonView::Bool(false)),
        ("error"@, JsonView::String(error@)),
    ]);
    j
}

/// The answer for edge `i` of a batch that was created.
pub fn edge_created_item(i: usize, edge_key: Json, from_node_data_id: Json, to_node_data_id: Json) -> (j: Json)
    ensures
        j@ == JsonView::Object(
            seq![
                ("index"@, index_view(i)),
                ("created"@, JsonView::Bool(true)),
                ("edge_key"@, edge_key@),
                ("from_node_data_id"@, from_node_data_id@),
                ("to_node_data_id"@, to_node_data_id@),
            ],
        ),
{
    let mut m: Vec<(String, Json)> = Vec::new();
    push_member(&mut m, "index", index_json(i));
    push_member(&mut m, "created", Json::Bool(true));
    push_member(&mut m, "edge_key", edge_key);
    push_member(&mut m, "from_node_data_id", from_node_data_id);
    push_member(&mut m, "to_node_data_id", to_node_data_id);
    let j = object_of(m);
    assert(j@->Object_0 =~= seq![
        ("index"@, index_view(i)),
        ("created"@, JsonView::Bool(true)),
        ("edge_key"@, edge_key@),
        ("from_node_data_id"@, from_node_data_id@),
        ("to_node_data_id"@, to_node_data_id@),
    ]);
    j
}

pub const SIMILAR_NODES_REASON: &'static str = "Similar nodes already exist. Use update_node to merge information into an existing node, or call create_node again with force=true to create anyway.";

/// The answer of `create_node` when close matches exist: nothing was created.
pub fn similar_nodes_answer(candidates: Json) -> (j: Json)
    ensures
        j@ == JsonView::Object(
            seq![
                ("created"@, JsonView::Bool(false)),
                ("reason"@, JsonView::String(SIMILAR_NODES_REASON@)),
                ("similar_nodes"@, candidates@),
            ],
        ),
{
    let mut m: Vec<(String, Json)> = Vec::new();
    push_member(&mut m, "created", Json::Bool(false));
    push_member(&mut m, "reason", Json::str(SIMILAR_NODES_REASON));
    push_member(&mut m, "similar_nodes", candidates);
    let j = object_of(m);
    assert(j@->Object_0 =~= seq![
        ("created"@, JsonView::Bool(false)),
        ("reason"@, JsonView::String(SIMILAR_NODES_REASON@)),
        ("similar_nodes"@, candidates@),
    ]);
    j
}

/// A created node or edge, marked `"created": true` when it is an object.
pub fn mark_created(value: Json) -> (j: Json)
    ensures
        j@ == match value@ {
            JsonView::Object(m) => JsonView::Object(obj_insert(m, "created"@, JsonView::Bool(true))),
            other => other,
        },
{
    match value {
        Json::Object(mut m) => {
            proof {
                crate::json::lemma_object_view(m);
            }
            insert_member(&mut m, owned("created"), Json::Bool(true));
            object_of(m)
        },
        other => other,
    }
}

pub open spec fn count_mismatch(got: nat, expected: nat) -> Seq<char> {
    "Embedding count mismatch: got "@ + decimal(got) + " for "@ + decimal(expected) + " nodes"@
}

/// A batch needs one embedding per node.
pub fn check_embedding_count(got: usize, expected: usize) -> (r: Result<(), String>)
    ensures
        got == expected ==> r is Ok,
        got != expected ==> (r matches Err(e) && e@ == count_mismatch(got as nat, expected as nat)),
{
    if got == expected {
        Ok(())
    } else {
        let mut e = owned("Embedding count mismatch: got ");
        let g = decimal_string(got);
        append_string(&mut e, &g);
        append_str(&mut e, " for ");
        let x = decimal_string(expected);
        append_string(&mut e, &x);
        append_str(&mut e, " nodes");
        Err(e)
    }
}

// ---------------------------------------------------------------------------
// Laws
// ---------------------------------------------------------------------------

/// A tool that changes the graph only runs for owners, admins and editors;
/// anyone else gets the permission answer.
pub proof fn law_write_tools_need_write_role(
    name: Seq<char>,
    args: Result<JsonView, Seq<char>>,
    schema: GraphSchemaView,
    role: Role,
)
    ensures
        plan(name, args, schema, role) is Run ==> !is_write_tool(name) || can_write(role),
        is_write_tool(name) && !can_write(role) ==> plan(name, args, schema, role) == PlanView::Denied(
            permission_denied(role, name),
        ),
{
}

/// Each tool is found by its name.
pub proof fn lemma_tool_kinds()
    ensures
        tool_kind("search_nodes"@) == Some(ToolKind::SearchNodes),
        tool_kind("get_node"@) == Some(ToolKind::GetNode),
        tool_kind("get_neighbors"@) == Some(ToolKind::GetNeighbors),
        tool_kind("find_paths"@) == Some(ToolKind::FindPaths),
        tool_kind("read_document"@) == Some(ToolKind::ReadDocument),
        tool_kind("create_schema"@) == Some(ToolKind::CreateSchema),
        tool_kind("create_edge_schema"@) == Some(ToolKind::CreateEdgeSchema),
        tool_kind("create_node"@) == Some(ToolKind::CreateNode),
        tool_kind("create_edge"@) == Some(ToolKind::CreateEdge),
        tool_kind("create_nodes"@) == Some(ToolKind::CreateNodes),
        tool_kind("create_edges"@) == Some(ToolKind::CreateEdges),
        tool_kind("update_node"@) == Some(ToolKind::UpdateNode),
        tool_kind("update_edge"@) == Some(ToolKind::UpdateEdge),
        tool_kind("delete_node"@) == Some(ToolKind::DeleteNode),
        tool_kind("delete_edge"@) == Some(ToolKind::DeleteEdge),
        tool_kind("done"@) == Some(ToolKind::Done),
{
    reveal_strlit("search_nodes");
    reveal_strlit("get_node");
    reveal_strlit("get_neighbors");
    reveal_strlit("find_paths");
    reveal_strlit("read_document");
    reveal_strlit("create_schema");
    reveal_strlit("create_edge_schema");
    reveal_strlit("create_node");
    reveal_strlit("create_edge");
    reveal_strlit("create_nodes");
    reveal_strlit("create_edges");
    reveal_strlit("update_node");
    reveal_strlit("update_edge");
    reveal_strlit("delete_node");
    reveal_strlit("delete_edge");
    reveal_strlit("done");
    assert("get_node"@.len() != "search_nodes"@.len());
    assert("get_neighbors"@.len() != "search_nodes"@.len());
    assert("get_neighbors"@.len() != "get_node"@.len());
    assert("find_paths"@.len() != "search_nodes"@.len());
    assert("find_paths"@.len() != "get_node"@.len());
    assert("find_paths"@.len() != "get_neighbors"@.len());
    assert("read_document"@.len() != "search_nodes"@.len());
    assert("read_document"@.len() != "get_node"@.len());
    assert("read_document"@[0] != "get_neighbors"@[0]);
    assert("read_document"@.len() != "find_paths"@.len());
    assert("create_schema"@.len() != "search_nodes"@.len());
    assert("create_schema"@.len() != "get_node"@.len());
    assert("create_schema"@[0] != "get_neighbors"@[0]);
    assert("create_schema"@.len() != "find_paths"@.len());
    assert("create_schema"@[0] != "read_document"@[0]);
    assert("create_edge_schema"@.len() != "search_nodes"@.len());
    assert("create_edge_schema"@.len() != "get_node"@.len());
    assert("create_edge_schema"@.len() != "get_neighbors"@.len());
    assert("create_edge_schema"@.len() != "find_paths"@.len());
    assert("create_edge_schema"@.len() != "read_document"@.len());
    assert("create_edge_schema"@.len() != "create_schema"@.len());
    assert("create_node"@.len() != "search_nodes"@.len());
    assert("create_node"@.len() != "get_node"@.len());
    assert("create_node"@.len() != "get_neighbors"@.len());
    assert("create_node"@.len() != "find_paths"@.len());
    assert("create_node"@.len() != "read_document"@.len());
    assert("create_node"@.len() != "create_schema"@.len());
    assert("create_node"@.len() != "create_edge_schema"@.len());
    assert("create_edge"@.len() != "search_nodes"@.len());
    assert("create_edge"@.len() != "get_node"@.len());
    assert("create_edge"@.len() != "get_neighbors"@.len());
    assert("create_edge"@.len() != "find_paths"@.len());
    assert("create_edge"@.len() != "read_document"@.len());
    assert("create_edge"@.len() != "create_schema"@.len());
    assert("create_edge"@.len() != "create_edge_schema"@.len());
    assert("create_edge"@[7] != "create_node"@[7]);
    assert("create_nodes"@[0] != "search_nodes"@[0]);
    assert("create_nodes"@.len() != "get_node"@.len());
    assert("create_nodes"@.len() != "get_neighbors"@.len());
    assert("create_nodes"@.len() != "find_paths"@.len());
    assert("create_nodes"@.len() != "read_document"@.len());
    assert("create_nodes"@.len() != "create_schema"@.len());
    assert("create_nodes"@.len() != "create_edge_schema"@.len());
    assert("create_nodes"@.len() != "create_node"@.len());
    assert("create_nodes"@.len() != "create_edge"@.len());
    assert("create_edges"@[0] != "search_nodes"@[0]);
    assert("create_edges"@.len() != "get_node"@.len());
    assert("create_edges"@.len() != "get_neighbors"@.len());
    assert("create_edges"@.len() != "find_paths"@.len());
    assert("create_edges"@.len() != "read_document"@.len());
    assert("create_edges"@.len() != "create_schema"@.len());
    assert("create_edges"@.len() != "create_edge_schema"@.len());
    assert("create_edges"@.len() != "create_node"@.len());
    assert("create_edges"@.len() != "create_edge"@.len());
    assert("create_edges"@[7] != "create_nodes"@[7]);
    assert("update_node"@.len() != "search_nodes"@.len());
    assert("update_node"@.len() != "get_node"@.len());
    assert("update_node"@.len() != "get_neighbors"@.len());
    assert("update_node"@.len() != "find_paths"@.len());
    assert("update_node"@.len() != "read_document"@.len());
    assert("update_node"@.len() != "create_schema"@.len());
    assert("update_node"@.len() != "create_edge_schema"@.len());
    assert("update_node"@[0] != "create_node"@[0]);
    assert("update_node"@[0] != "create_edge"@[0]);
    assert("update_node"@.len() != "create_nodes"@.len());
    assert("update_node"@.len() != "create_edges"@.len());
    assert("update_edge"@.len() != "search_nodes"@.len());
    assert("update_edge"@.len() != "get_node"@.len());
    assert("update_edge"@.len() != "get_neighbors"@.len());
    assert("update_edge"@.len() != "find_paths"@.len());
    assert("update_edge"@.len() != "read_document"@.len());
    assert("update_edge"@.len() != "create_schema"@.len());
    assert("update_edge"@.len() != "create_edge_schema"@.len());
    assert("update_edge"@[0] != "create_node"@[0]);
    assert("update_edge"@[0] != "create_edge"@[0]);
    assert("update_edge"@.len() != "create_nodes"@.len());
    assert("update_edge"@.len() != "create_edges"@.len());
    assert("update_edge"@[7] != "update_node"@[7]);
    assert("delete_node"@.len() != "search_nodes"@.len());
    assert("delete_node"@.len() != "get_node"@.len());
    assert("delete_node"@.len() != "get_neighbors"@.len());
    assert("delete_node"@.len() != "find_paths"@.len());
    assert("delete_node"@.len() != "read_document"@.len());
    assert("delete_node"@.len() != "create_schema"@.len());
    assert("delete_node"@.len() != "create_edge_schema"@.len());
    assert("delete_node"@[0] != "create_node"@[0]);
    assert("delete_node"@[0] != "create_edge"@[0]);
    assert("delete_node"@.len() != "create_nodes"@.len());
    assert("delete_node"@.len() != "create_edges"@.len());
    assert("delete_node"@[0] != "update_node"@[0]);
    assert("delete_node"@[0] != "update_edge"@[0]);
    assert("delete_edge"@.len() != "search_nodes"@.len());
    assert("delete_edge"@.len() != "get_node"@.len());
    assert("delete_edge"@.len() != "get_neighbors"@.len());
    assert("delete_edge"@.len() != "find_paths"@.len());
    assert("delete_edge"@.len() != "read_document"@.len());
    assert("delete_edge"@.len() != "create_schema"@.len());
    assert("delete_edge"@.len() != "create_edge_schema"@.len());
    assert("delete_edge"@[0] != "create_node"@[0]);
    assert("delete_edge"@[0] != "create_edge"@[0]);
    assert("delete_edge"@.len() != "create_nodes"@.len());
    assert("delete_edge"@.len() != "create_edges"@.len());
    assert("delete_edge"@[0] != "update_node"@[0]);
    assert("delete_edge"@[0] != "update_edge"@[0]);
    assert("delete_edge"@[7] != "delete_node"@[7]);
    assert("done"@.len() != "search_nodes"@.len());
    assert("done"@.len() != "get_node"@.len());
    assert("done"@.len() != "get_neighbors"@.len());
    assert("done"@.len() != "find_paths"@.len());
    assert("done"@.len() != "read_document"@.len());
    assert("done"@.len() != "create_schema"@.len());
    assert("done"@.len() != "create_edge_schema"@.len());
    assert("done"@.len() != "create_node"@.len());
    assert("done"@.len() != "create_edge"@.len());
    assert("done"@.len() != "create_nodes"@.len());
    assert("done"@.len() != "create_edges"@.len());
    assert("done"@.len() != "update_node"@.len());
    assert("done"@.len() != "update_edge"@.len());
    assert("done"@.len() != "delete_node"@.len());
    assert("done"@.len() != "delete_edge"@.len());
}

/// `done` is never refused and never fails, and needs nothing run outside:
/// whoever calls it, with whatever arguments, the turn ends with its summary,
/// or with the default one.
pub proof fn law_done_always_runs(args: Result<JsonView, Seq<char>>, schema: GraphSchemaView, role: Role)
    ensures
        plan("done"@, args, schema, role) == PlanView::Run(CommandView::Done(done_summary(args))),
        plan_answer("done"@, plan("done"@, args, schema, role)) == Some(
            OutcomeView { content: done_summary(args), schema_changed: false, is_done: true },
        ),
{
    lemma_tool_kinds();
}

/// The optional arguments the model gives are passed on: `get_neighbors`
/// follows only the edge type named by a string "edge_key" and goes as deep as
/// an integer "depth" says (1 when none fits an `i32`); `search_nodes` keeps to
/// the node type named by a string "node_key". A call whose id parses runs.
pub proof fn law_optional_arguments_passed_on(a: JsonView, schema: GraphSchemaView, role: Role)
    ensures
        plan("get_neighbors"@, Ok(a), schema, role) matches PlanView::Run(CommandView::GetNeighbors(_, ek, d))
            ==> ek == (match a.get("edge_key"@) {
                Some(JsonView::String(k)) => Some(k),
                _ => None::<Seq<char>>,
            }) && (match a.get("depth"@) {
                Some(v) => match v.as_i64() {
                    Some(n) => (i32::MIN <= n <= i32::MAX ==> d == n),
                    None => true,
                },
                None => true,
            }),
        (a.get("node_data_id"@) matches Some(JsonView::String(t)) && uuid_parsed(t) is Ok) ==> plan(
            "get_neighbors"@,
            Ok(a),
            schema,
            role,
        ) is Run,
        plan("search_nodes"@, Ok(a), schema, role) matches PlanView::Run(CommandView::SearchNodes(_, nk, _))
            ==> nk == (match a.get("node_key"@) {
                Some(JsonView::String(k)) => Some(k),
                _ => None::<Seq<char>>,
            }),
{
    lemma_tool_kinds();
}

/// Only a successful schema tool changes the schema, and only a successful
/// `done` ends the turn; a failure's answer always starts with "Error: ".
pub proof fn law_finish(name: Seq<char>, result: Result<Seq<char>, Seq<char>>)
    ensures
        finish(name, result).schema_changed ==> result is Ok && (tool_kind(name) == Some(
            ToolKind::CreateSchema) || tool_kind(name) == Some(ToolKind::CreateEdgeSchema)),
        finish(name, result).is_done ==> result is Ok && tool_kind(name) == Some(ToolKind::Done),
        result matches Err(e) ==> finish(name, result).content == "Error: "@ + e,
{
    lemma_tool_kinds();
}


pub proof fn lemma_node_items_len(items: Seq<JsonView>, schema: GraphSchemaView)
    ensures
        node_items(items, schema) matches Ok(es) ==> es.len() == items.len(),
    decreases items.len(),
{
    if items.len() > 0 {
        lemma_node_items_len(items.drop_last(), schema);
    }
}

/// A batch call runs with 1 to `MAX_BATCH` items, never more, and every node
/// of a node batch was read.
pub proof fn law_batches_are_bounded(
    name: Seq<char>,
    args: Result<JsonView, Seq<char>>,
    schema: GraphSchemaView,
    role: Role,
)
    ensures
        plan(name, args, schema, role) matches PlanView::Run(CommandView::CreateNodes(es)) ==> 1
            <= es.len() <= MAX_BATCH,
        plan(name, args, schema, role) matches PlanView::Run(CommandView::CreateEdges(items)) ==> 1
            <= items.len() <= MAX_BATCH,
{
    if let Ok(a) = args {
        if let Ok(items) = batch_items(a, "nodes"@) {
            lemma_node_items_len(items, schema);
        }
    }
}

} // verus!
