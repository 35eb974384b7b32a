//! Graph data extraction: the model answers, per node and edge type, with a
//! table of "columns" and "rows"; the tables become nodes and edges, the edges
//! pointing at the nodes by the ids that the model gave them.
use vstd::prelude::*;
use crate::graph::{
    GraphSchema, GraphSchemaView, PropertySchema, PropertySchemaView, PropertyType, TypeSchema,
    TypeSchemaView,
};
use crate::json::{
    array_of, find_member, insert_member, items_view, lemma_array_view, lemma_obj_find,
    members_view, object_of, obj_get, obj_insert, push_item, push_member, Json, JsonView,
};
use crate::ids::IdSource;
use crate::order::{sort_by_key, sorted_order};
use crate::text::{append_str, append_string, decimal, decimal_string, owned, str_eq};

verus! {

// ---------------------------------------------------------------------------
// What comes out
// ---------------------------------------------------------------------------

/// A node read from the answer, with its type and its property values.
#[derive(Debug)]
pub struct ParsedNode {
    pub key: String,
    pub properties: Vec<(String, Json)>,
}

/// An edge read from the answer; `from` and `to` are positions in the node list.
#[derive(Debug)]
pub struct ParsedEdge {
    pub key: String,
    pub from: usize,
    pub to: usize,
    pub properties: Vec<(String, Json)>,
}

/// The nodes and edges read from the answer.
#[derive(Debug)]
pub struct ParsedGraph {
    pub nodes: Vec<ParsedNode>,
    pub edges: Vec<ParsedEdge>,
}

/// A node to create, with its fresh id.
#[derive(Debug)]
pub struct NodeData {
    pub node_data_id: u128,
    pub key: String,
    pub properties: Vec<(String, Json)>,
}

/// An edge to create, between two of the new nodes.
#[derive(Debug)]
pub struct EdgeData {
    pub key: String,
    pub from_node_data_id: u128,
    pub to_node_data_id: u128,
    pub properties: Vec<(String, Json)>,
}

/// The graph data to create.
#[derive(Debug)]
pub struct GraphData {
    pub nodes: Vec<NodeData>,
    pub edges: Vec<EdgeData>,
}

pub struct NodeRowView {
    pub key: Seq<char>,
    pub properties: Seq<(Seq<char>, JsonView)>,
}

pub struct EdgeRowView {
    pub key: Seq<char>,
    pub from: int,
    pub to: int,
    pub properties: Seq<(Seq<char>, JsonView)>,
}

pub struct ParsedGraphView {
    pub nodes: Seq<NodeRowView>,
    pub edges: Seq<EdgeRowView>,
}

pub struct NodeDataView {
    pub id: u128,
    pub key: Seq<char>,
    pub properties: Seq<(Seq<char>, JsonView)>,
}

pub struct EdgeDataView {
    pub key: Seq<char>,
    pub from: u128,
    pub to: u128,
    pub properties: Seq<(Seq<char>, JsonView)>,
}

pub struct GraphDataView {
    pub nodes: Seq<NodeDataView>,
    pub edges: Seq<EdgeDataView>,
}

impl View for ParsedNode {
    type V = NodeRowView;

    open spec fn view(&self) -> NodeRowView {
        NodeRowView { key: self.key@, properties: members_view(self.properties@) }
    }
}

impl View for ParsedEdge {
    type V = EdgeRowView;

    open spec fn view(&self) -> EdgeRowView {
        EdgeRowView {
            key: self.key@,
            from: self.from as int,
            to: self.to as int,
            properties: members_view(self.properties@),
        }
    }
}

pub open spec fn parsed_nodes_view(v: Seq<ParsedNode>) -> Seq<NodeRowView> {
    Seq::new(v.len(), |i: int| v[i]@)
}

pub open spec fn parsed_edges_view(v: Seq<ParsedEdge>) -> Seq<EdgeRowView> {
    Seq::new(v.len(), |i: int| v[i]@)
}

impl View for ParsedGraph {
    type V = ParsedGraphView;

    open spec fn view(&self) -> ParsedGraphView {
        ParsedGraphView {
            nodes: parsed_nodes_view(self.nodes@),
            edges: parsed_edges_view(self.edges@),
        }
    }
}

impl View for NodeData {
    type V = NodeDataView;

    open spec fn view(&self) -> NodeDataView {
        NodeDataView {
            id: self.node_data_id,
            key: self.key@,
            properties: members_view(self.properties@),
        }
    }
}

impl View for EdgeData {
    type V = EdgeDataView;

    open spec fn view(&self) -> EdgeDataView {
        EdgeDataView {
            key: self.key@,
            from: self.from_node_data_id,
            to: self.to_node_data_id,
            properties: members_view(self.properties@),
        }
    }
}

impl View for GraphData {
    type V = GraphDataView;

    open spec fn view(&self) -> GraphDataView {
        GraphDataView {
            nodes: Seq::new(self.nodes@.len(), |i: int| self.nodes@[i]@),
            edges: Seq::new(self.edges@.len(), |i: int| self.edges@[i]@),
        }
    }
}

/// The graph data of `p` when its nodes get the ids `ids`, in order.
pub open spec fn with_node_ids(p: ParsedGraphView, ids: Seq<u128>) -> GraphDataView {
    GraphDataView {
        nodes: Seq::new(
            p.nodes.len(),
            |i: int| NodeDataView { id: ids[i], key: p.nodes[i].key, properties: p.nodes[i].properties },
        ),
        edges: Seq::new(
            p.edges.len(),
            |j: int|
                EdgeDataView {
                    key: p.edges[j].key,
                    from: ids[p.edges[j].from],
                    to: ids[p.edges[j].to],
                    properties: p.edges[j].properties,
                },
        ),
    }
}

/// Every edge points at a node of the list.
pub open spec fn edges_in_range(p: ParsedGraphView) -> bool {
    forall|j: int|
        0 <= j < p.edges.len() ==> 0 <= #[trigger] p.edges[j].from < p.nodes.len() && 0
            <= p.edges[j].to < p.nodes.len()
}

// ---------------------------------------------------------------------------
// Error messages
// ---------------------------------------------------------------------------

pub const MISSING_NODES: &'static str = "Missing 'nodes' object in response";

pub const MISSING_EDGES: &'static str = "Missing 'edges' object in response";

pub open spec fn quoted_in(before: Seq<char>, name: Seq<char>, after: Seq<char>) -> Seq<char> {
    before + name + after
}

pub open spec fn missing_columns(label: Seq<char>) -> Seq<char> {
    quoted_in("Type '"@, label, "' missing 'columns' array"@)
}

pub open spec fn column_not_string(label: Seq<char>) -> Seq<char> {
    quoted_in("Column name in '"@, label, "' is not a string"@)
}

pub open spec fn node_id_column_missing(key: Seq<char>) -> Seq<char> {
    quoted_in("Node type '"@, key, "' columns missing 'id'"@)
}

pub open spec fn node_rows_missing(key: Seq<char>) -> Seq<char> {
    quoted_in("Node type '"@, key, "' missing 'rows' array"@)
}

pub open spec fn node_row_not_array(key: Seq<char>) -> Seq<char> {
    quoted_in("Row in node type '"@, key, "' is not an array"@)
}

pub open spec fn node_id_missing(key: Seq<char>, idx: nat) -> Seq<char> {
    quoted_in("Node of type '"@, key, "' missing 'id' at column index "@) + decimal(idx)
}

pub open spec fn edge_column_missing(key: Seq<char>, end: Seq<char>) -> Seq<char> {
    quoted_in("Edge type '"@, key, "' columns missing '"@) + end + "'"@
}

pub open spec fn edge_rows_missing(key: Seq<char>) -> Seq<char> {
    quoted_in("Edge type '"@, key, "' missing 'rows' array"@)
}

pub open spec fn edge_row_not_array(key: Seq<char>) -> Seq<char> {
    quoted_in("Row in edge type '"@, key, "' is not an array"@)
}

pub open spec fn edge_end_missing(key: Seq<char>, end: Seq<char>, idx: nat) -> Seq<char> {
    quoted_in("Edge of type '"@, key, "' missing '"@) + end + "' at column index "@ + decimal(idx)
}

/// The parts, with `sep` between each two.
pub open spec fn join(parts: Seq<Seq<char>>, sep: Seq<char>) -> Seq<char>
    decreases parts.len(),
{
    if parts.len() == 0 {
        Seq::empty()
    } else if parts.len() == 1 {
        parts[0]
    } else {
        join(parts.drop_last(), sep) + sep + parts.last()
    }
}

pub open spec fn unknown_node(key: Seq<char>, end: Seq<char>, id: Seq<char>, valid: Seq<Seq<char>>) -> Seq<
    char,
> {
    quoted_in("Edge type '"@, key, "': '"@) + end + "' references unknown node ID '"@ + id
        + "'. Valid IDs: ["@ + join(valid, ", "@) + "]"@
}

// ---------------------------------------------------------------------------
// The node ids that the model gave
// ---------------------------------------------------------------------------

/// Index of the entry for `k`.
pub open spec fn id_find(m: Seq<(Seq<char>, int)>, k: Seq<char>) -> Option<int>
    decreases m.len(),
{
    if m.len() == 0 {
        None
    } else if m[0].0 == k {
        Some(0)
    } else {
        match id_find(m.drop_first(), k) {
            Some(i) => Some(i + 1),
            None => None,
        }
    }
}

/// Map insertion: the entry for `k` gets `v`, or a new entry is appended.
pub open spec fn id_insert(m: Seq<(Seq<char>, int)>, k: Seq<char>, v: int) -> Seq<(Seq<char>, int)> {
    match id_find(m, k) {
        Some(i) => m.update(i, (k, v)),
        None => m.push((k, v)),
    }
}

pub open spec fn id_get(m: Seq<(Seq<char>, int)>, k: Seq<char>) -> Option<int> {
    match id_find(m, k) {
        Some(i) => Some(m[i].1),
        None => None,
    }
}

pub open spec fn id_keys(m: Seq<(Seq<char>, int)>) -> Seq<Seq<char>> {
    Seq::new(m.len(), |i: int| m[i].0)
}

pub proof fn lemma_id_find(m: Seq<(Seq<char>, int)>, k: Seq<char>)
    ensures
        match id_find(m, k) {
            Some(i) => 0 <= i < m.len() && m[i].0 == k && forall|j: int|
                0 <= j < i ==> m[j].0 != k,
            None => forall|j: int| 0 <= j < m.len() ==> m[j].0 != k,
        },
    decreases m.len(),
{
    if m.len() > 0 && m[0].0 != k {
        lemma_id_find(m.drop_first(), k);
        assert forall|j: int| 0 < j < m.len() implies m[j].0 == m.drop_first()[j - 1].0 by {}
    }
}

// ---------------------------------------------------------------------------
// Reading the tables
// ---------------------------------------------------------------------------

/// The "columns" of a type's table: all must be strings.
pub open spec fn columns_of(tv: JsonView, label: Seq<char>) -> Result<Seq<Seq<char>>, Seq<char>> {
    match tv.get("columns"@) {
        Some(JsonView::Array(items)) => if forall|i: int|
            0 <= i < items.len() ==> #[trigger] items[i] is String {
            Ok(Seq::new(items.len(), |i: int| items[i]->String_0))
        } else {
            Err(column_not_string(label))
        },
        _ => Err(missing_columns(label)),
    }
}

/// Index of the first column named `c`.
pub open spec fn position(cols: Seq<Seq<char>>, c: Seq<char>) -> Option<int>
    decreases cols.len(),
{
    if cols.len() == 0 {
        None
    } else if cols[0] == c {
        Some(0)
    } else {
        match position(cols.drop_first(), c) {
            Some(i) => Some(i + 1),
            None => None,
        }
    }
}

pub proof fn lemma_position(cols: Seq<Seq<char>>, c: Seq<char>)
    ensures
        match position(cols, c) {
            Some(i) => 0 <= i < cols.len() && cols[i] == c && forall|j: int|
                0 <= j < i ==> cols[j] != c,
            None => forall|j: int| 0 <= j < cols.len() ==> cols[j] != c,
        },
    decreases cols.len(),
{
    if cols.len() > 0 && cols[0] != c {
        lemma_position(cols.drop_first(), c);
        assert forall|j: int| 0 < j < cols.len() implies cols[j] == cols.drop_first()[j - 1] by {}
    }
}

/// The columns that hold an id rather than a property: "id" for nodes,
/// "from" and "to" for edges.
pub open spec fn is_id_column(c: Seq<char>, edge: bool) -> bool {
    if edge {
        c == "from"@ || c == "to"@
    } else {
        c == "id"@
    }
}

/// The property values of a row: each other column with a cell, in column
/// order, a later column of the same name replacing an earlier one.
pub open spec fn row_props(cols: Seq<Seq<char>>, cells: Seq<JsonView>, edge: bool) -> Seq<
    (Seq<char>, JsonView),
>
    decreases cols.len(),
{
    if cols.len() == 0 {
        Seq::empty()
    } else {
        let prev = row_props(cols.drop_last(), cells, edge);
        let idx = cols.len() - 1;
        if is_id_column(cols.last(), edge) || idx >= cells.len() {
            prev
        } else {
            obj_insert(prev, cols.last(), cells[idx])
        }
    }
}

/// What the node rows read so far give: the nodes, and the node list position
/// of each id the model gave (the last node with that id).
pub struct NodeAcc {
    pub nodes: Seq<NodeRowView>,
    pub ids: Seq<(Seq<char>, int)>,
}

pub open spec fn node_row(
    key: Seq<char>,
    cols: Seq<Seq<char>>,
    id_idx: int,
    row: JsonView,
    a: NodeAcc,
) -> Result<NodeAcc, Seq<char>> {
    match row {
        JsonView::Array(cells) => if 0 <= id_idx < cells.len() && cells[id_idx] is String {
            Ok(
                NodeAcc {
                    nodes: a.nodes.push(
                        NodeRowView { key, properties: row_props(cols, cells, false) },
                    ),
                    ids: id_insert(a.ids, cells[id_idx]->String_0, a.nodes.len() as int),
                },
            )
        } else {
            Err(node_id_missing(key, id_idx as nat))
        },
        _ => Err(node_row_not_array(key)),
    }
}

pub open spec fn node_rows(
    key: Seq<char>,
    cols: Seq<Seq<char>>,
    id_idx: int,
    rows: Seq<JsonView>,
    a: NodeAcc,
) -> Result<NodeAcc, Seq<char>>
    decreases rows.len(),
{
    if rows.len() == 0 {
        Ok(a)
    } else {
        match node_rows(key, cols, id_idx, rows.drop_last(), a) {
            Ok(b) => node_row(key, cols, id_idx, rows.last(), b),
            Err(e) => Err(e),
        }
    }
}

/// The rows of node type `key`, if the answer has a table for it.
pub open spec fn node_type(key: Seq<char>, nodes_obj: Seq<(Seq<char>, JsonView)>, a: NodeAcc) -> Result<
    NodeAcc,
    Seq<char>,
> {
    match obj_get(nodes_obj, key) {
        None => Ok(a),
        Some(tv) => match columns_of(tv, key) {
            Err(e) => Err(e),
            Ok(cols) => match position(cols, "id"@) {
                None => Err(node_id_column_missing(key)),
                Some(id_idx) => match tv.get("rows"@) {
                    Some(JsonView::Array(rows)) => node_rows(key, cols, id_idx, rows, a),
                    _ => Err(node_rows_missing(key)),
                },
            },
        },
    }
}

/// The node types in schema order.
pub open spec fn node_types(
    types: Seq<TypeSchemaView>,
    nodes_obj: Seq<(Seq<char>, JsonView)>,
    a: NodeAcc,
) -> Result<NodeAcc, Seq<char>>
    decreases types.len(),
{
    if types.len() == 0 {
        Ok(a)
    } else {
        match node_types(types.drop_last(), nodes_obj, a) {
            Ok(b) => node_type(types.last().key, nodes_obj, b),
            Err(e) => Err(e),
        }
    }
}

pub open spec fn edge_row(
    key: Seq<char>,
    cols: Seq<Seq<char>>,
    from_idx: int,
    to_idx: int,
    row: JsonView,
    ids: Seq<(Seq<char>, int)>,
    edges: Seq<EdgeRowView>,
) -> Result<Seq<EdgeRowView>, Seq<char>> {
    match row {
        JsonView::Array(cells) => if !(0 <= from_idx < cells.len() && cells[from_idx] is String) {
            Err(edge_end_missing(key, "from"@, from_idx as nat))
        } else if !(0 <= to_idx < cells.len() && cells[to_idx] is String) {
            Err(edge_end_missing(key, "to"@, to_idx as nat))
        } else {
            let from_id = cells[from_idx]->String_0;
            let to_id = cells[to_idx]->String_0;
            match id_get(ids, from_id) {
                None => Err(unknown_node(key, "from"@, from_id, id_keys(ids))),
                Some(f) => match id_get(ids, to_id) {
                    None => Err(unknown_node(key, "to"@, to_id, id_keys(ids))),
                    Some(t) => Ok(
                        edges.push(
                            EdgeRowView {
                                key,
                                from: f,
                                to: t,
                                properties: row_props(cols, cells, true),
                            },
                        ),
                    ),
                },
            }
        },
        _ => Err(edge_row_not_array(key)),
    }
}

pub open spec fn edge_rows(
    key: Seq<char>,
    cols: Seq<Seq<char>>,
    from_idx: int,
    to_idx: int,
    rows: Seq<JsonView>,
    ids: Seq<(Seq<char>, int)>,
    edges: Seq<EdgeRowView>,
) -> Result<Seq<EdgeRowView>, Seq<char>>
    decreases rows.len(),
{
    if rows.len() == 0 {
        Ok(edges)
    } else {
        match edge_rows(key, cols, from_idx, to_idx, rows.drop_last(), ids, edges) {
            Ok(es) => edge_row(key, cols, from_idx, to_idx, rows.last(), ids, es),
            Err(e) => Err(e),
        }
    }
}

/// The rows of edge type `key`, if the answer has a table for it.
pub open spec fn edge_type(
    key: Seq<char>,
    edges_obj: Seq<(Seq<char>, JsonView)>,
    ids: Seq<(Seq<char>, int)>,
    edges: Seq<EdgeRowView>,
) -> Result<Seq<EdgeRowView>, Seq<char>> {
    match obj_get(edges_obj, key) {
        None => Ok(edges),
        Some(tv) => match columns_of(tv, key) {
            Err(e) => Err(e),
            Ok(cols) => match position(cols, "from"@) {
                None => Err(edge_column_missing(key, "from"@)),
                Some(from_idx) => match position(cols, "to"@) {
                    None => Err(edge_column_missing(key, "to"@)),
                    Some(to_idx) => match tv.get("rows"@) {
                        Some(JsonView::Array(rows)) => edge_rows(
                            key,
                            cols,
                            from_idx,
                            to_idx,
                            rows,
                            ids,
                            edges,
                        ),
                        _ => Err(edge_rows_missing(key)),
                    },
                },
            },
        },
    }
}

/// The edge types in schema order.
pub open spec fn edge_types(
    types: Seq<TypeSchemaView>,
    edges_obj: Seq<(Seq<char>, JsonView)>,
    ids: Seq<(Seq<char>, int)>,
    edges: Seq<EdgeRowView>,
) -> Result<Seq<EdgeRowView>, Seq<char>>
    decreases types.len(),
{
    if types.len() == 0 {
        Ok(edges)
    } else {
        match edge_types(types.drop_last(), edges_obj, ids, edges) {
            Ok(es) => edge_type(types.last().key, edges_obj, ids, es),
            Err(e) => Err(e),
        }
    }
}

/// The graph in the model's answer: first its "nodes" and "edges" objects must
/// be there; then the node tables are read in schema order, then the edge
/// tables, each edge pointing at the last node that had its id.
pub open spec fn parse_graph(json: JsonView, schema: GraphSchemaView) -> Result<ParsedGraphView, Seq<char>> {
    match json.get("nodes"@) {
        Some(JsonView::Object(nodes_obj)) => match json.get("edges"@) {
            Some(JsonView::Object(edges_obj)) => match node_types(
                schema.nodes,
                nodes_obj,
                NodeAcc { nodes: Seq::empty(), ids: Seq::empty() },
            ) {
                Err(e) => Err(e),
                Ok(a) => match edge_types(schema.edges, edges_obj, a.ids, Seq::empty()) {
                    Err(e) => Err(e),
                    Ok(es) => Ok(ParsedGraphView { nodes: a.nodes, edges: es }),
                },
            },
            _ => Err(MISSING_EDGES@),
        },
        _ => Err(MISSING_NODES@),
    }
}


// ---------------------------------------------------------------------------
// An error on a prefix is the error of the whole
// ---------------------------------------------------------------------------

pub proof fn lemma_node_rows_err(
    key: Seq<char>,
    cols: Seq<Seq<char>>,
    id_idx: int,
    rows: Seq<JsonView>,
    a: NodeAcc,
    i: int,
    e: Seq<char>,
)
    requires
        0 <= i <= rows.len(),
        node_rows(key, cols, id_idx, rows.take(i), a) == Err::<NodeAcc, Seq<char>>(e),
    ensures
        node_rows(key, cols, id_idx, rows, a) == Err::<NodeAcc, Seq<char>>(e),
    decreases rows.len() - i,
{
    if i < rows.len() {
        assert(rows.take(i + 1).drop_last() =~= rows.take(i));
        lemma_node_rows_err(key, cols, id_idx, rows, a, i + 1, e);
    } else {
        assert(rows.take(i) =~= rows);
    }
}

pub proof fn lemma_node_types_err(
    types: Seq<TypeSchemaView>,
    nodes_obj: Seq<(Seq<char>, JsonView)>,
    a: NodeAcc,
    i: int,
    e: Seq<char>,
)
    requires
        0 <= i <= types.len(),
        node_types(types.take(i), nodes_obj, a) == Err::<NodeAcc, Seq<char>>(e),
    ensures
        node_types(types, nodes_obj, a) == Err::<NodeAcc, Seq<char>>(e),
    decreases types.len() - i,
{
    if i < types.len() {
        assert(types.take(i + 1).drop_last() =~= types.take(i));
        lemma_node_types_err(types, nodes_obj, a, i + 1, e);
    } else {
        assert(types.take(i) =~= types);
    }
}

pub proof fn lemma_edge_rows_err(
    key: Seq<char>,
    cols: Seq<Seq<char>>,
    from_idx: int,
    to_idx: int,
    rows: Seq<JsonView>,
    ids: Seq<(Seq<char>, int)>,
    edges: Seq<EdgeRowView>,
    i: int,
    e: Seq<char>,
)
    requires
        0 <= i <= rows.len(),
        edge_rows(key, cols, from_idx, to_idx, rows.take(i), ids, edges) == Err::<
            Seq<EdgeRowView>,
            Seq<char>,
        >(e),
    ensures
        edge_rows(key, cols, from_idx, to_idx, rows, ids, edges) == Err::<Seq<EdgeRowView>, Seq<char>>(
            e,
        ),
    decreases rows.len() - i,
{
    if i < rows.len() {
        assert(rows.take(i + 1).drop_last() =~= rows.take(i));
        lemma_edge_rows_err(key, cols, from_idx, to_idx, rows, ids, edges, i + 1, e);
    } else {
        assert(rows.take(i) =~= rows);
    }
}

pub proof fn lemma_edge_types_err(
    types: Seq<TypeSchemaView>,
    edges_obj: Seq<(Seq<char>, JsonView)>,
    ids: Seq<(Seq<char>, int)>,
    edges: Seq<EdgeRowView>,
    i: int,
    e: Seq<char>,
)
    requires
        0 <= i <= types.len(),
        edge_types(types.take(i), edges_obj, ids, edges) == Err::<Seq<EdgeRowView>, Seq<char>>(e),
    ensures
        edge_types(types, edges_obj, ids, edges) == Err::<Seq<EdgeRowView>, Seq<char>>(e),
    decreases types.len() - i,
{
    if i < types.len() {
        assert(types.take(i + 1).drop_last() =~= types.take(i));
        lemma_edge_types_err(types, edges_obj, ids, edges, i + 1, e);
    } else {
        assert(types.take(i) =~= types);
    }
}

// ---------------------------------------------------------------------------
// Every edge points at a node
// ---------------------------------------------------------------------------

pub open spec fn ids_within(ids: Seq<(Seq<char>, int)>, n: int) -> bool {
    forall|i: int| 0 <= i < ids.len() ==> 0 <= #[trigger] ids[i].1 < n
}

pub open spec fn edges_within(edges: Seq<EdgeRowView>, n: int) -> bool {
    forall|j: int| 0 <= j < edges.len() ==> 0 <= #[trigger] edges[j].from < n && 0 <= edges[j].to < n
}

pub proof fn lemma_id_insert_within(ids: Seq<(Seq<char>, int)>, k: Seq<char>, v: int, n: int)
    requires
        ids_within(ids, n),
        0 <= v < n,
    ensures
        ids_within(id_insert(ids, k, v), n),
{
    lemma_id_find(ids, k);
}

pub proof fn lemma_id_get_within(ids: Seq<(Seq<char>, int)>, k: Seq<char>, n: int)
    requires
        ids_within(ids, n),
    ensures
        id_get(ids, k) matches Some(v) ==> 0 <= v < n,
{
    lemma_id_find(ids, k);
}

pub proof fn lemma_node_rows_within(
    key: Seq<char>,
    cols: Seq<Seq<char>>,
    id_idx: int,
    rows: Seq<JsonView>,
    a: NodeAcc,
)
    requires
        ids_within(a.ids, a.nodes.len() as int),
    ensures
        node_rows(key, cols, id_idx, rows, a) matches Ok(b) ==> ids_within(b.ids, b.nodes.len() as int)
            && a.nodes.len() <= b.nodes.len(),
    decreases rows.len(),
{
    if rows.len() > 0 {
        lemma_node_rows_within(key, cols, id_idx, rows.drop_last(), a);
        match node_rows(key, cols, id_idx, rows.drop_last(), a) {
            Ok(b) => {
                match rows.last() {
                    JsonView::Array(cells) => {
                        if 0 <= id_idx < cells.len() && cells[id_idx] is String {
                            assert(ids_within(b.ids, (b.nodes.len() + 1) as int)) by {
                                assert forall|i: int| 0 <= i < b.ids.len() implies 0 <= #[trigger] b.ids[i].1
                                    < b.nodes.len() + 1 by {}
                            }
                            lemma_id_insert_within(
                                b.ids,
                                cells[id_idx]->String_0,
                                b.nodes.len() as int,
                                (b.nodes.len() + 1) as int,
                            );
                        }
                    },
                    _ => {},
                }
            },
            Err(_) => {},
        }
    }
}

pub proof fn lemma_node_types_within(
    types: Seq<TypeSchemaView>,
    nodes_obj: Seq<(Seq<char>, JsonView)>,
    a: NodeAcc,
)
    requires
        ids_within(a.ids, a.nodes.len() as int),
    ensures
        node_types(types, nodes_obj, a) matches Ok(b) ==> ids_within(b.ids, b.nodes.len() as int),
    decreases types.len(),
{
    if types.len() > 0 {
        lemma_node_types_within(types.drop_last(), nodes_obj, a);
        match node_types(types.drop_last(), nodes_obj, a) {
            Ok(b) => {
                let key = types.last().key;
                match obj_get(nodes_obj, key) {
                    Some(tv) => match columns_of(tv, key) {
                        Ok(cols) => match position(cols, "id"@) {
                            Some(id_idx) => match tv.get("rows"@) {
                                Some(JsonView::Array(rows)) => {
                                    lemma_node_rows_within(key, cols, id_idx, rows, b);
                                },
                                _ => {},
                            },
                            None => {},
                        },
                        Err(_) => {},
                    },
                    None => {},
                }
            },
            Err(_) => {},
        }
    }
}

pub proof fn lemma_edge_rows_within(
    key: Seq<char>,
    cols: Seq<Seq<char>>,
    from_idx: int,
    to_idx: int,
    rows: Seq<JsonView>,
    ids: Seq<(Seq<char>, int)>,
    edges: Seq<EdgeRowView>,
    n: int,
)
    requires
        ids_within(ids, n),
        edges_within(edges, n),
    ensures
        edge_rows(key, cols, from_idx, to_idx, rows, ids, edges) matches Ok(es) ==> edges_within(es, n),
    decreases rows.len(),
{
    if rows.len() > 0 {
        lemma_edge_rows_within(key, cols, from_idx, to_idx, rows.drop_last(), ids, edges, n);
        match rows.last() {
            JsonView::Array(cells) => {
                if 0 <= from_idx < cells.len() && cells[from_idx] is String && 0 <= to_idx
                    < cells.len() && cells[to_idx] is String {
                    lemma_id_get_within(ids, cells[from_idx]->String_0, n);
                    lemma_id_get_within(ids, cells[to_idx]->String_0, n);
                }
            },
            _ => {},
        }
    }
}

pub proof fn lemma_edge_types_within(
    types: Seq<TypeSchemaView>,
    edges_obj: Seq<(Seq<char>, JsonView)>,
    ids: Seq<(Seq<char>, int)>,
    edges: Seq<EdgeRowView>,
    n: int,
)
    requires
        ids_within(ids, n),
        edges_within(edges, n),
    ensures
        edge_types(types, edges_obj, ids, edges) matches Ok(es) ==> edges_within(es, n),
    decreases types.len(),
{
    if types.len() > 0 {
        lemma_edge_types_within(types.drop_last(), edges_obj, ids, edges, n);
        match edge_types(types.drop_last(), edges_obj, ids, edges) {
            Ok(es) => {
                let key = types.last().key;
                match obj_get(edges_obj, key) {
                    Some(tv) => match columns_of(tv, key) {
                        Ok(cols) => match position(cols, "from"@) {
                            Some(f) => match position(cols, "to"@) {
                                Some(t) => match tv.get("rows"@) {
                                    Some(JsonView::Array(rows)) => {
                                        lemma_edge_rows_within(key, cols, f, t, rows, ids, es, n);
                                    },
                                    _ => {},
                                },
                                None => {},
                            },
                            None => {},
                        },
                        Err(_) => {},
                    },
                    None => {},
                }
            },
            Err(_) => {},
        }
    }
}

/// Every edge of the answer joins two of its nodes: an id that no node row
/// gave fails the whole answer.
pub proof fn law_edges_point_at_nodes(json: JsonView, schema: GraphSchemaView)
    ensures
        parse_graph(json, schema) matches Ok(g) ==> edges_in_range(g),
{
    match (json.get("nodes"@), json.get("edges"@)) {
        (Some(JsonView::Object(nodes_obj)), Some(JsonView::Object(edges_obj))) => {
            let a0 = NodeAcc { nodes: Seq::empty(), ids: Seq::empty() };
            lemma_node_types_within(schema.nodes, nodes_obj, a0);
            match node_types(schema.nodes, nodes_obj, a0) {
                Ok(a) => {
                    lemma_edge_types_within(schema.edges, edges_obj, a.ids, Seq::empty(), a.nodes.len() as int);
                },
                Err(_) => {},
            }
        },
        _ => {},
    }
}

// ---------------------------------------------------------------------------
// Executable reading
// ---------------------------------------------------------------------------

pub open spec fn ids_view(v: Seq<(String, usize)>) -> Seq<(Seq<char>, int)> {
    Seq::new(v.len(), |i: int| (v[i].0@, v[i].1 as int))
}

pub open spec fn ids_below(v: Seq<(String, usize)>, n: nat) -> bool {
    forall|i: int| 0 <= i < v.len() ==> #[trigger] v[i].1 < n
}

pub open spec fn edges_below(v: Seq<ParsedEdge>, n: nat) -> bool {
    forall|j: int| 0 <= j < v.len() ==> #[trigger] v[j].from < n && v[j].to < n
}

pub open spec fn acc_view(nodes: Seq<ParsedNode>, ids: Seq<(String, usize)>) -> NodeAcc {
    NodeAcc { nodes: parsed_nodes_view(nodes), ids: ids_view(ids) }
}

pub open spec fn strings_of(v: Seq<String>) -> Seq<Seq<char>> {
    Seq::new(v.len(), |i: int| v[i]@)
}

fn quoted(before: &str, name: &str, after: &str) -> (s: String)
    ensures
        s@ == quoted_in(before@, name@, after@),
{
    let mut s = owned(before);
    append_str(&mut s, name);
    append_str(&mut s, after);
    s
}

fn with_index(mut s: String, idx: usize) -> (r: String)
    ensures
        r@ == s@ + decimal(idx as nat),
{
    let d = decimal_string(idx);
    append_string(&mut s, &d);
    s
}

fn id_find_exec(ids: &Vec<(String, usize)>, k: &str) -> (r: Option<usize>)
    ensures
        r matches Some(i) ==> i < ids@.len() && id_find(ids_view(ids@), k@) == Some(i as int),
        r is None ==> id_find(ids_view(ids@), k@) is None,
{
    let ghost mv = ids_view(ids@);
    proof {
        lemma_id_find(mv, k@);
    }
    let mut i: usize = 0;
    while i < ids.len()
        invariant
            i <= ids@.len(),
            mv == ids_view(ids@),
            forall|j: int| 0 <= j < i ==> mv[j].0 != k@,
            match id_find(mv, k@) {
                Some(x) => 0 <= x < mv.len() && mv[x].0 == k@ && forall|j: int|
                    0 <= j < x ==> mv[j].0 != k@,
                None => forall|j: int| 0 <= j < mv.len() ==> mv[j].0 != k@,
            },
        decreases ids.len() - i,
    {
        assert(mv[i as int].0 == ids@[i as int].0@);
        if str_eq(ids[i].0.as_str(), k) {
            return Some(i);
        }
        i = i + 1;
    }
    None
}

fn id_insert_exec(ids: &mut Vec<(String, usize)>, k: String, v: usize)
    ensures
        ids_view(final(ids)@) == id_insert(ids_view(old(ids)@), k@, v as int),
        forall|j: int|
            0 <= j < final(ids)@.len() ==> #[trigger] final(ids)@[j].1 == v || (j < old(ids)@.len() && final(ids)@[j].1 == old(ids)@[j].1),
{
    let ghost before = ids@;
    match id_find_exec(ids, k.as_str()) {
        Some(i) => {
            ids.set(i, (k, v));
            assert(ids_view(ids@) =~= ids_view(before).update(i as int, (k@, v as int)));
        },
        None => {
            ids.push((k, v));
            assert(ids_view(ids@) =~= ids_view(before).push((k@, v as int)));
        },
    }
}

/// The ids the model gave, separated by ", ".
fn join_ids(ids: &Vec<(String, usize)>) -> (s: String)
    ensures
        s@ == join(id_keys(ids_view(ids@)), ", "@),
{
    let ghost keys = id_keys(ids_view(ids@));
    let mut s = String::new();
    let mut i: usize = 0;
    while i < ids.len()
        invariant
            i <= ids@.len(),
            keys == id_keys(ids_view(ids@)),
            s@ == join(keys.take(i as int), ", "@),
        decreases ids.len() - i,
    {
        assert(keys.take(i + 1).drop_last() =~= keys.take(i as int));
        if i > 0 {
            append_str(&mut s, ", ");
        } else {
            assert(keys.take(0) =~= Seq::<Seq<char>>::empty());
        }
        append_string(&mut s, &ids[i].0);
        i = i + 1;
    }
    assert(keys.take(ids.len() as int) =~= keys);
    s
}

/// The "columns" of a type's table.
fn read_columns(tv: &Json, label: &String) -> (r: Result<Vec<String>, String>)
    ensures
        match r {
            Ok(c) => columns_of(tv@, label@) == Ok::<Seq<Seq<char>>, Seq<char>>(strings_of(c@)),
            Err(e) => columns_of(tv@, label@) == Err::<Seq<Seq<char>>, Seq<char>>(e@),
        },
{
    let col_val = match tv.get("columns") {
        Some(c) => c,
        None => {
            return Err(quoted("Type '", label.as_str(), "' missing 'columns' array"));
        },
    };
    let items = match col_val.as_array() {
        Some(a) => a,
        None => {
            return Err(quoted("Type '", label.as_str(), "' missing 'columns' array"));
        },
    };
    proof {
        lemma_array_view(*items);
    }
    assert(tv@.get("columns"@) == Some(JsonView::Array(items_view(items@))));
    let ghost iv = items_view(items@);
    let mut cols: Vec<String> = Vec::new();
    let mut i: usize = 0;
    while i < items.len()
        invariant
            i <= items@.len(),
            iv == items_view(items@),
            tv@.get("columns"@) == Some(JsonView::Array(iv)),
            forall|j: int| 0 <= j < i ==> #[trigger] iv[j] is String,
            strings_of(cols@) == Seq::new(i as nat, |j: int| iv[j]->String_0),
        decreases items.len() - i,
    {
        match items[i].as_str() {
            Some(c) => {
                let ghost before = strings_of(cols@);
                assert(iv[i as int] == items@[i as int]@);
                assert(iv[i as int] == JsonView::String(c@));
                cols.push(owned(c));
                assert(strings_of(cols@) =~= before.push(c@));
                assert(strings_of(cols@) =~= Seq::new((i + 1) as nat, |j: int| iv[j]->String_0));
            },
            None => {
                assert(iv[i as int] == items@[i as int]@);
                assert(!(iv[i as int] is String));
                return Err(quoted("Column name in '", label.as_str(), "' is not a string"));
            },
        }
        i = i + 1;
    }
    Ok(cols)
}

/// Index of the first column named `c`.
fn find_column(cols: &Vec<String>, c: &str) -> (r: Option<usize>)
    ensures
        r matches Some(i) ==> position(strings_of(cols@), c@) == Some(i as int) && i < cols@.len(),
        r is None ==> position(strings_of(cols@), c@) is None,
{
    let ghost cv = strings_of(cols@);
    proof {
        lemma_position(cv, c@);
    }
    let mut i: usize = 0;
    while i < cols.len()
        invariant
            i <= cols@.len(),
            cv == strings_of(cols@),
            forall|j: int| 0 <= j < i ==> cv[j] != c@,
            match position(cv, c@) {
                Some(x) => 0 <= x < cv.len() && cv[x] == c@ && forall|j: int|
                    0 <= j < x ==> cv[j] != c@,
                None => forall|j: int| 0 <= j < cv.len() ==> cv[j] != c@,
            },
        decreases cols.len() - i,
    {
        assert(cv[i as int] == cols@[i as int]@);
        if str_eq(cols[i].as_str(), c) {
            return Some(i);
        }
        i = i + 1;
    }
    None
}

fn is_id_column_exec(c: &String, edge: bool) -> (b: bool)
    ensures
        b == is_id_column(c@, edge),
{
    if edge {
        str_eq(c.as_str(), "from") || str_eq(c.as_str(), "to")
    } else {
        str_eq(c.as_str(), "id")
    }
}

/// The property values of a row.
fn read_props(cols: &Vec<String>, cells: &Vec<Json>, edge: bool) -> (r: Vec<(String, Json)>)
    ensures
        members_view(r@) == row_props(strings_of(cols@), items_view(cells@), edge),
{
    let ghost cv = strings_of(cols@);
    let ghost iv = items_view(cells@);
    let mut props: Vec<(String, Json)> = Vec::new();
    let mut i: usize = 0;
    assert(members_view(props@) =~= row_props(cv.take(0), iv, edge));
    while i < cols.len()
        invariant
            i <= cols@.len(),
            cv == strings_of(cols@),
            iv == items_view(cells@),
            members_view(props@) == row_props(cv.take(i as int), iv, edge),
        decreases cols.len() - i,
    {
        assert(cv.take(i + 1).drop_last() =~= cv.take(i as int));
        if !is_id_column_exec(&cols[i], edge) && i < cells.len() {
            let v = cells[i].deep_clone();
            insert_member(&mut props, cols[i].clone(), v);
        }
        i = i + 1;
    }
    assert(cv.take(cols.len() as int) =~= cv);
    props
}

/// The rows of node type `key`, added to `nodes` and `ids`.
fn read_node_type(
    key: &String,
    nodes_obj: &Vec<(String, Json)>,
    nodes: &mut Vec<ParsedNode>,
    ids: &mut Vec<(String, usize)>,
) -> (r: Result<(), String>)
    requires
        ids_below(old(ids)@, old(nodes)@.len() as nat),
    ensures
        ids_below(final(ids)@, final(nodes)@.len() as nat),
        match r {
            Ok(_) => node_type(key@, members_view(nodes_obj@), acc_view(old(nodes)@, old(ids)@))
                == Ok::<NodeAcc, Seq<char>>(acc_view(final(nodes)@, final(ids)@)),
            Err(e) => node_type(key@, members_view(nodes_obj@), acc_view(old(nodes)@, old(ids)@))
                == Err::<NodeAcc, Seq<char>>(e@),
        },
{
    let ghost a0 = acc_view(nodes@, ids@);
    let tv = match crate::json::member_value(nodes_obj, key.as_str()) {
        Some(v) => v,
        None => {
            return Ok(());
        },
    };
    let cols = match read_columns(tv, key) {
        Ok(c) => c,
        Err(e) => {
            return Err(e);
        },
    };
    let ghost cv = strings_of(cols@);
    let id_idx = match find_column(&cols, "id") {
        Some(i) => i,
        None => {
            return Err(quoted("Node type '", key.as_str(), "' columns missing 'id'"));
        },
    };
    let rows = match tv.get("rows") {
        Some(rv) => match rv.as_array() {
            Some(a) => a,
            None => {
                return Err(quoted("Node type '", key.as_str(), "' missing 'rows' array"));
            },
        },
        None => {
            return Err(quoted("Node type '", key.as_str(), "' missing 'rows' array"));
        },
    };
    proof {
        lemma_array_view(*rows);
    }
    let ghost rv = items_view(rows@);
    assert(node_type(key@, members_view(nodes_obj@), a0) == node_rows(
        key@,
        cv,
        id_idx as int,
        rv,
        a0,
    ));
    assert(rv.take(0) =~= Seq::<JsonView>::empty());
    let mut i: usize = 0;
    while i < rows.len()
        invariant
            i <= rows@.len(),
            rv == items_view(rows@),
            cv == strings_of(cols@),
            node_rows(key@, cv, id_idx as int, rv.take(i as int), a0) == Ok::<NodeAcc, Seq<char>>(
                acc_view(nodes@, ids@),
            ),
            node_type(key@, members_view(nodes_obj@), a0) == node_rows(
                key@,
                cv,
                id_idx as int,
                rv,
                a0,
            ),
            a0 == acc_view(old(nodes)@, old(ids)@),
            ids_below(ids@, nodes@.len() as nat),
        decreases rows.len() - i,
    {
        assert(rv.take(i + 1).drop_last() =~= rv.take(i as int));
        assert(rv.take(i + 1).last() == rows@[i as int]@);
        let cells = match rows[i].as_array() {
            Some(c) => c,
            None => {
                let e = quoted("Row in node type '", key.as_str(), "' is not an array");
                proof {
                    lemma_node_rows_err(key@, cv, id_idx as int, rv, a0, i + 1, e@);
                }
                return Err(e);
            },
        };
        proof {
            lemma_array_view(*cells);
        }
        let ai = if id_idx < cells.len() {
            cells[id_idx].as_str()
        } else {
            None
        };
        match ai {
            Some(ai) => {
                let props = read_props(&cols, cells, false);
                let n = nodes.len();
                let ghost nodes_before = nodes@;
                let ghost ids_before = ids@;
                nodes.push(ParsedNode { key: key.clone(), properties: props });
                assert(parsed_nodes_view(nodes@) =~= parsed_nodes_view(nodes_before).push(
                    nodes@[n as int]@,
                ));
                id_insert_exec(ids, owned(ai), n);
                assert forall|j: int| 0 <= j < ids@.len() implies #[trigger] ids@[j].1
                    < nodes@.len() by {
                    if ids@[j].1 != n {
                        assert(j < ids_before.len() && ids@[j].1 == ids_before[j].1);
                    }
                }
            },
            None => {
                let e = with_index(
                    quoted("Node of type '", key.as_str(), "' missing 'id' at column index "),
                    id_idx,
                );
                proof {
                    lemma_node_rows_err(key@, cv, id_idx as int, rv, a0, i + 1, e@);
                }
                return Err(e);
            },
        }
        i = i + 1;
    }
    assert(rv.take(rows.len() as int) =~= rv);
    Ok(())
}

/// The rows of edge type `key`, added to `edges`.
fn read_edge_type(
    key: &String,
    edges_obj: &Vec<(String, Json)>,
    ids: &Vec<(String, usize)>,
    n_nodes: usize,
    edges: &mut Vec<ParsedEdge>,
) -> (r: Result<(), String>)
    requires
        ids_below(ids@, n_nodes as nat),
        edges_below(old(edges)@, n_nodes as nat),
    ensures
        edges_below(final(edges)@, n_nodes as nat),
        match r {
            Ok(_) => edge_type(
                key@,
                members_view(edges_obj@),
                ids_view(ids@),
                parsed_edges_view(old(edges)@),
            ) == Ok::<Seq<EdgeRowView>, Seq<char>>(parsed_edges_view(final(edges)@)),
            Err(e) => edge_type(
                key@,
                members_view(edges_obj@),
                ids_view(ids@),
                parsed_edges_view(old(edges)@),
            ) == Err::<Seq<EdgeRowView>, Seq<char>>(e@),
        },
{
    let ghost e0 = parsed_edges_view(edges@);
    let ghost idv = ids_view(ids@);
    let tv = match crate::json::member_value(edges_obj, key.as_str()) {
        Some(v) => v,
        None => {
            return Ok(());
        },
    };
    let cols = match read_columns(tv, key) {
        Ok(c) => c,
        Err(e) => {
            return Err(e);
        },
    };
    let ghost cv = strings_of(cols@);
    let from_idx = match find_column(&cols, "from") {
        Some(i) => i,
        None => {
            let mut e = quoted("Edge type '", key.as_str(), "' columns missing '");
            append_str(&mut e, "from");
            append_str(&mut e, "'");
            return Err(e);
        },
    };
    let to_idx = match find_column(&cols, "to") {
        Some(i) => i,
        None => {
            let mut e = quoted("Edge type '", key.as_str(), "' columns missing '");
            append_str(&mut e, "to");
            append_str(&mut e, "'");
            return Err(e);
        },
    };
    let rows = match tv.get("rows") {
        Some(rv) => match rv.as_array() {
            Some(a) => a,
            None => {
                return Err(quoted("Edge type '", key.as_str(), "' missing 'rows' array"));
            },
        },
        None => {
            return Err(quoted("Edge type '", key.as_str(), "' missing 'rows' array"));
        },
    };
    proof {
        lemma_array_view(*rows);
    }
    let ghost rv = items_view(rows@);
    assert(edge_type(key@, members_view(edges_obj@), idv, e0) == edge_rows(
        key@,
        cv,
        from_idx as int,
        to_idx as int,
        rv,
        idv,
        e0,
    ));
    assert(rv.take(0) =~= Seq::<JsonView>::empty());
    let mut i: usize = 0;
    while i < rows.len()
        invariant
            i <= rows@.len(),
            rv == items_view(rows@),
            cv == strings_of(cols@),
            idv == ids_view(ids@),
            e0 == parsed_edges_view(old(edges)@),
            ids_below(ids@, n_nodes as nat),
            edge_rows(key@, cv, from_idx as int, to_idx as int, rv.take(i as int), idv, e0) == Ok::<
                Seq<EdgeRowView>,
                Seq<char>,
            >(parsed_edges_view(edges@)),
            edge_type(key@, members_view(edges_obj@), idv, e0) == edge_rows(
                key@,
                cv,
                from_idx as int,
                to_idx as int,
                rv,
                idv,
                e0,
            ),
            edges_below(edges@, n_nodes as nat),
        decreases rows.len() - i,
    {
        assert(rv.take(i + 1).drop_last() =~= rv.take(i as int));
        assert(rv.take(i + 1).last() == rows@[i as int]@);
        let cells = match rows[i].as_array() {
            Some(c) => c,
            None => {
                let e = quoted("Row in edge type '", key.as_str(), "' is not an array");
                proof {
                    lemma_edge_rows_err(key@, cv, from_idx as int, to_idx as int, rv, idv, e0, i + 1, e@);
                }
                return Err(e);
            },
        };
        proof {
            lemma_array_view(*cells);
        }
        let from_id = if from_idx < cells.len() {
            cells[from_idx].as_str()
        } else {
            None
        };
        let from_id = match from_id {
            Some(f) => f,
            None => {
                let mut e = quoted("Edge of type '", key.as_str(), "' missing '");
                append_str(&mut e, "from");
                append_str(&mut e, "' at column index ");
                let e = with_index(e, from_idx);
                proof {
                    lemma_edge_rows_err(key@, cv, from_idx as int, to_idx as int, rv, idv, e0, i + 1, e@);
                }
                return Err(e);
            },
        };
        let to_id = if to_idx < cells.len() {
            cells[to_idx].as_str()
        } else {
            None
        };
        let to_id = match to_id {
            Some(t) => t,
            None => {
                let mut e = quoted("Edge of type '", key.as_str(), "' missing '");
                append_str(&mut e, "to");
                append_str(&mut e, "' at column index ");
                let e = with_index(e, to_idx);
                proof {
                    lemma_edge_rows_err(key@, cv, from_idx as int, to_idx as int, rv, idv, e0, i + 1, e@);
                }
                return Err(e);
            },
        };
        let f = match id_find_exec(ids, from_id) {
            Some(k) => ids[k].1,
            None => {
                let mut e = quoted("Edge type '", key.as_str(), "': '");
                append_str(&mut e, "from");
                append_str(&mut e, "' references unknown node ID '");
                append_str(&mut e, from_id);
                append_str(&mut e, "'. Valid IDs: [");
                let valid = join_ids(ids);
                append_string(&mut e, &valid);
                append_str(&mut e, "]");
                proof {
                    lemma_edge_rows_err(key@, cv, from_idx as int, to_idx as int, rv, idv, e0, i + 1, e@);
                }
                return Err(e);
            },
        };
        let t = match id_find_exec(ids, to_id) {
            Some(k) => ids[k].1,
            None => {
                let mut e = quoted("Edge type '", key.as_str(), "': '");
                append_str(&mut e, "to");
                append_str(&mut e, "' references unknown node ID '");
                append_str(&mut e, to_id);
                append_str(&mut e, "'. Valid IDs: [");
                let valid = join_ids(ids);
                append_string(&mut e, &valid);
                append_str(&mut e, "]");
                proof {
                    lemma_edge_rows_err(key@, cv, from_idx as int, to_idx as int, rv, idv, e0, i + 1, e@);
                }
                return Err(e);
            },
        };
        let props = read_props(&cols, cells, true);
        let ghost before = edges@;
        edges.push(ParsedEdge { key: key.clone(), from: f, to: t, properties: props });
        assert(parsed_edges_view(edges@) =~= parsed_edges_view(before).push(
            edges@[before.len() as int]@,
        ));
        i = i + 1;
    }
    assert(rv.take(rows.len() as int) =~= rv);
    Ok(())
}

/// The nodes and edges of the model's answer, read against the schema (see
/// `parse_graph`); nodes are numbered by their position.
pub fn parse_graph_data(json: &Json, schema: &GraphSchema) -> (r: Result<ParsedGraph, String>)
    ensures
        match r {
            Ok(g) => parse_graph(json@, schema@) == Ok::<ParsedGraphView, Seq<char>>(g@)
                && edges_in_range(g@),
            Err(e) => parse_graph(json@, schema@) == Err::<ParsedGraphView, Seq<char>>(e@),
        },
{
    let nodes_obj = match json.get("nodes") {
        Some(v) => match v.as_object() {
            Some(m) => m,
            None => {
                return Err(owned(MISSING_NODES));
            },
        },
        None => {
            return Err(owned(MISSING_NODES));
        },
    };
    let edges_obj = match json.get("edges") {
        Some(v) => match v.as_object() {
            Some(m) => m,
            None => {
                return Err(owned(MISSING_EDGES));
            },
        },
        None => {
            return Err(owned(MISSING_EDGES));
        },
    };
    let ghost sv = schema@;
    let ghost nv = members_view(nodes_obj@);
    let ghost ev = members_view(edges_obj@);
    let ghost a0 = NodeAcc { nodes: Seq::empty(), ids: Seq::empty() };
    let mut nodes: Vec<ParsedNode> = Vec::new();
    let mut ids: Vec<(String, usize)> = Vec::new();
    assert(acc_view(nodes@, ids@) == a0) by {
        assert(parsed_nodes_view(nodes@) =~= Seq::<NodeRowView>::empty());
        assert(ids_view(ids@) =~= Seq::<(Seq<char>, int)>::empty());
    }
    assert(sv.nodes.take(0) =~= Seq::<TypeSchemaView>::empty());
    let mut t: usize = 0;
    while t < schema.nodes.len()
        invariant
            t <= schema.nodes@.len(),
            sv == schema@,
            nv == members_view(nodes_obj@),
            json@.get("nodes"@) == Some(JsonView::Object(nv)),
            json@.get("edges"@) == Some(JsonView::Object(members_view(edges_obj@))),
            a0 == (NodeAcc { nodes: Seq::empty(), ids: Seq::empty() }),
            node_types(sv.nodes.take(t as int), nv, a0) == Ok::<NodeAcc, Seq<char>>(
                acc_view(nodes@, ids@),
            ),
            ids_below(ids@, nodes@.len() as nat),
        decreases schema.nodes.len() - t,
    {
        assert(sv.nodes.take(t + 1).drop_last() =~= sv.nodes.take(t as int));
        assert(sv.nodes.take(t + 1).last().key == schema.nodes@[t as int].key@);
        match read_node_type(&schema.nodes[t].key, nodes_obj, &mut nodes, &mut ids) {
            Ok(_) => {},
            Err(e) => {
                proof {
                    lemma_node_types_err(sv.nodes, nv, a0, t + 1, e@);
                }
                return Err(e);
            },
        }
        t = t + 1;
    }
    assert(sv.nodes.take(schema.nodes.len() as int) =~= sv.nodes);
    let ghost a = acc_view(nodes@, ids@);
    let n_nodes = nodes.len();
    let mut edges: Vec<ParsedEdge> = Vec::new();
    assert(parsed_edges_view(edges@) =~= Seq::<EdgeRowView>::empty());
    assert(sv.edges.take(0) =~= Seq::<TypeSchemaView>::empty());
    let mut t: usize = 0;
    while t < schema.edges.len()
        invariant
            t <= schema.edges@.len(),
            sv == schema@,
            ev == members_view(edges_obj@),
            json@.get("nodes"@) == Some(JsonView::Object(nv)),
            json@.get("edges"@) == Some(JsonView::Object(ev)),
            node_types(sv.nodes, nv, NodeAcc { nodes: Seq::empty(), ids: Seq::empty() }) == Ok::<
                NodeAcc,
                Seq<char>,
            >(a),
            a.ids == ids_view(ids@),
            ids_below(ids@, n_nodes as nat),
            edge_types(sv.edges.take(t as int), ev, a.ids, Seq::empty()) == Ok::<
                Seq<EdgeRowView>,
                Seq<char>,
            >(parsed_edges_view(edges@)),
            edges_below(edges@, n_nodes as nat),
        decreases schema.edges.len() - t,
    {
        assert(sv.edges.take(t + 1).drop_last() =~= sv.edges.take(t as int));
        assert(sv.edges.take(t + 1).last().key == schema.edges@[t as int].key@);
        match read_edge_type(&schema.edges[t].key, edges_obj, &ids, n_nodes, &mut edges) {
            Ok(_) => {},
            Err(e) => {
                proof {
                    lemma_edge_types_err(sv.edges, ev, a.ids, Seq::empty(), t + 1, e@);
                }
                return Err(e);
            },
        }
        t = t + 1;
    }
    assert(sv.edges.take(schema.edges.len() as int) =~= sv.edges);
    let g = ParsedGraph { nodes, edges };
    assert forall|j: int| 0 <= j < g@.edges.len() implies 0 <= #[trigger] g@.edges[j].from
        < g@.nodes.len() && 0 <= g@.edges[j].to < g@.nodes.len() by {
        assert(g@.edges[j] == g.edges@[j]@);
    }
    Ok(g)
}


// ---------------------------------------------------------------------------
// Fresh node ids
// ---------------------------------------------------------------------------

/// Each id is greater than those before it, so no two are equal.
pub open spec fn ids_increase(ids: Seq<u128>) -> bool {
    forall|a: int, b: int| 0 <= a < b < ids.len() ==> ids[a] < ids[b]
}

/// The ids of the nodes, in order.
pub open spec fn node_ids(g: GraphDataView) -> Seq<u128> {
    Seq::new(g.nodes.len(), |i: int| g.nodes[i].id)
}

pub(crate) fn clone_members(m: &Vec<(String, Json)>) -> (r: Vec<(String, Json)>)
    ensures
        members_view(r@) == members_view(m@),
{
    let mut r: Vec<(String, Json)> = Vec::new();
    let mut i: usize = 0;
    while i < m.len()
        invariant
            i <= m@.len(),
            members_view(r@) == members_view(m@).take(i as int),
        decreases m.len() - i,
    {
        let ghost before = members_view(r@);
        let k = m[i].0.clone();
        let v = m[i].1.deep_clone();
        r.push((k, v));
        assert(members_view(r@) =~= before.push((m@[i as int].0@, m@[i as int].1@)));
        assert(members_view(r@) =~= members_view(m@).take(i + 1));
        i = i + 1;
    }
    assert(members_view(m@).take(m.len() as int) =~= members_view(m@));
    r
}

/// Gives every node of `p` a fresh id; each edge joins the ids of its nodes.
pub fn assign_node_ids(p: &ParsedGraph) -> (g: GraphData)
    requires
        edges_in_range(p@),
    ensures
        g@.nodes.len() == p@.nodes.len(),
        g@ == with_node_ids(p@, node_ids(g@)),
        ids_increase(node_ids(g@)),
{
    let ghost pv = p@;
    let mut source = IdSource::new();
    let mut ids: Vec<u128> = Vec::new();
    let mut nodes: Vec<NodeData> = Vec::new();
    let mut i: usize = 0;
    while i < p.nodes.len()
        invariant
            pv == p@,
            i <= p.nodes@.len(),
            ids@.len() == i,
            nodes@.len() == i,
            ids_increase(ids@),
            i == 0 ==> source.last() is None,
            i > 0 ==> source.last() == Some(ids@[i - 1]),
            forall|k: int|
                0 <= k < i ==> #[trigger] nodes@[k]@ == (NodeDataView {
                    id: ids@[k],
                    key: pv.nodes[k].key,
                    properties: pv.nodes[k].properties,
                }),
        decreases p.nodes.len() - i,
    {
        let id = source.next_id();
        let ghost before = ids@;
        ids.push(id);
        assert forall|a: int, b: int| 0 <= a < b < ids@.len() implies ids@[a] < ids@[b] by {
            if b == i {
                if a < i - 1 {
                    assert(before[a] < before[i - 1]);
                }
            } else {
                assert(before[a] < before[b]);
            }
        }
        let n = &p.nodes[i];
        assert(pv.nodes[i as int] == n@);
        nodes.push(
            NodeData { node_data_id: id, key: n.key.clone(), properties: clone_members(&n.properties) },
        );
        i = i + 1;
    }
    let mut edges: Vec<EdgeData> = Vec::new();
    let mut j: usize = 0;
    while j < p.edges.len()
        invariant
            pv == p@,
            edges_in_range(pv),
            j <= p.edges@.len(),
            ids@.len() == pv.nodes.len(),
            edges@.len() == j,
            forall|k: int|
                0 <= k < j ==> #[trigger] edges@[k]@ == (EdgeDataView {
                    key: pv.edges[k].key,
                    from: ids@[pv.edges[k].from],
                    to: ids@[pv.edges[k].to],
                    properties: pv.edges[k].properties,
                }),
        decreases p.edges.len() - j,
    {
        let e = &p.edges[j];
        assert(pv.edges[j as int] == e@);
        assert(0 <= pv.edges[j as int].from < pv.nodes.len());
        let from = ids[e.from];
        let to = ids[e.to];
        edges.push(
            EdgeData {
                key: e.key.clone(),
                from_node_data_id: from,
                to_node_data_id: to,
                properties: clone_members(&e.properties),
            },
        );
        j = j + 1;
    }
    let g = GraphData { nodes, edges };
    assert(node_ids(g@) =~= ids@);
    assert(g@.nodes =~= with_node_ids(pv, ids@).nodes);
    assert(g@.edges =~= with_node_ids(pv, ids@).edges);
    g
}

/// The graph data in the model's answer (see `parse_graph`), every node with a
/// fresh id and every edge joining the ids of its nodes.
pub fn json_to_graph_data(json: &Json, schema: &GraphSchema) -> (r: Result<GraphData, String>)
    ensures
        match r {
            Ok(g) => parse_graph(json@, schema@) is Ok && g@.nodes.len() == parse_graph(
                json@,
                schema@,
            )->Ok_0.nodes.len() && g@ == with_node_ids(
                parse_graph(json@, schema@)->Ok_0,
                node_ids(g@),
            ) && ids_increase(node_ids(g@)) && (forall|a: int, b: int|
                0 <= a < b < g@.nodes.len() ==> g@.nodes[a].id != g@.nodes[b].id),
            Err(e) => parse_graph(json@, schema@) == Err::<ParsedGraphView, Seq<char>>(e@),
        },
{
    match parse_graph_data(json, schema) {
        Ok(p) => Ok(assign_node_ids(&p)),
        Err(e) => Err(e),
    }
}


// ---------------------------------------------------------------------------
// Joining text
// ---------------------------------------------------------------------------

pub open spec fn strings_view(v: Seq<String>) -> Seq<Seq<char>> {
    Seq::new(v.len(), |i: int| v[i]@)
}

/// The parts, with `sep` between each two (see `join`).
pub fn join_strings(parts: &Vec<String>, sep: &str) -> (s: String)
    ensures
        s@ == join(strings_view(parts@), sep@),
{
    let ghost pv = strings_view(parts@);
    let mut s = String::new();
    let mut i: usize = 0;
    while i < parts.len()
        invariant
            i <= parts@.len(),
            pv == strings_view(parts@),
            s@ == join(pv.take(i as int), sep@),
        decreases parts.len() - i,
    {
        assert(pv.take(i + 1).drop_last() =~= pv.take(i as int));
        if i > 0 {
            append_str(&mut s, sep);
        } else {
            assert(pv.take(0) =~= Seq::<Seq<char>>::empty());
        }
        append_string(&mut s, &parts[i]);
        i = i + 1;
    }
    assert(pv.take(parts.len() as int) =~= pv);
    s
}

fn push_line(lines: &mut Vec<String>, line: String)
    ensures
        strings_view(final(lines)@) == strings_view(old(lines)@).push(line@),
{
    let ghost before = strings_view(lines@);
    let ghost lv = line@;
    lines.push(line);
    assert(strings_view(lines@) =~= before.push(lv));
}

// ---------------------------------------------------------------------------
// The answer's JSON schema
// ---------------------------------------------------------------------------

pub open spec fn type_is(t: Seq<char>) -> Seq<(Seq<char>, JsonView)> {
    seq![("type"@, JsonView::String(t))]
}

pub open spec fn str_items(keys: Seq<Seq<char>>) -> Seq<JsonView> {
    Seq::new(keys.len(), |i: int| JsonView::String(keys[i]))
}

/// A cell of a table: a string, a number or a boolean.
pub open spec fn cell_schema() -> JsonView {
    JsonView::Object(
        seq![
            (
                "anyOf"@,
                JsonView::Array(
                    seq![
                        JsonView::Object(type_is("string"@)),
                        JsonView::Object(type_is("number"@)),
                        JsonView::Object(type_is("boolean"@)),
                    ],
                ),
            ),
        ],
    )
}

/// An array whose items follow `items`.
pub open spec fn array_schema(items: JsonView) -> JsonView {
    JsonView::Object(seq![("type"@, JsonView::String("array"@)), ("items"@, items)])
}

/// The schema of one type's table: string "columns", and "rows" of cells.
pub open spec fn table_schema() -> JsonView {
    JsonView::Object(
        seq![
            ("type"@, JsonView::String("object"@)),
            ("additionalProperties"@, JsonView::Bool(false)),
            ("required"@, JsonView::Array(str_items(seq!["columns"@, "rows"@]))),
            (
                "properties"@,
                JsonView::Object(
                    seq![
                        ("columns"@, array_schema(JsonView::Object(type_is("string"@)))),
                        ("rows"@, array_schema(array_schema(cell_schema()))),
                    ],
                ),
            ),
        ],
    )
}

/// The table schema under each key, a repeated key keeping one entry.
pub open spec fn tables_by_key(keys: Seq<Seq<char>>) -> Seq<(Seq<char>, JsonView)>
    decreases keys.len(),
{
    if keys.len() == 0 {
        Seq::empty()
    } else {
        obj_insert(tables_by_key(keys.drop_last()), keys.last(), table_schema())
    }
}

/// The schema of the node tables or of the edge tables.
pub open spec fn tables_schema(keys: Seq<Seq<char>>) -> JsonView {
    JsonView::Object(
        seq![
            ("type"@, JsonView::String("object"@)),
            ("additionalProperties"@, JsonView::Bool(false)),
            ("required"@, JsonView::Array(str_items(keys))),
            ("properties"@, JsonView::Object(tables_by_key(keys))),
        ],
    )
}

pub open spec fn type_keys(ts: Seq<TypeSchemaView>) -> Seq<Seq<char>> {
    Seq::new(ts.len(), |i: int| ts[i].key)
}

/// The JSON schema that the model's answer must follow: a table per node type
/// under "nodes", a table per edge type under "edges", all required.
pub open spec fn data_json_schema(schema: GraphSchemaView) -> JsonView {
    JsonView::Object(
        seq![
            ("type"@, JsonView::String("object"@)),
            ("additionalProperties"@, JsonView::Bool(false)),
            ("required"@, JsonView::Array(str_items(seq!["nodes"@, "edges"@]))),
            (
                "properties"@,
                JsonView::Object(
                    seq![
                        ("nodes"@, tables_schema(type_keys(schema.nodes))),
                        ("edges"@, tables_schema(type_keys(schema.edges))),
                    ],
                ),
            ),
        ],
    )
}

fn type_is_exec(t: &str) -> (j: Json)
    ensures
        j@ == JsonView::Object(type_is(t@)),
{
    let mut m: Vec<(String, Json)> = Vec::new();
    push_member(&mut m, "type", Json::str(t));
    let j = object_of(m);
    assert(j@->Object_0 =~= type_is(t@));
    j
}

fn str_array(a: &str, b: &str) -> (j: Json)
    ensures
        j@ == JsonView::Array(str_items(seq![a@, b@])),
{
    let mut v: Vec<Json> = Vec::new();
    push_item(&mut v, Json::str(a));
    push_item(&mut v, Json::str(b));
    let j = array_of(v);
    assert(j@->Array_0 =~= str_items(seq![a@, b@]));
    j
}

fn array_schema_exec(items: Json) -> (j: Json)
    ensures
        j@ == array_schema(items@),
{
    let ghost iv = items@;
    let mut m: Vec<(String, Json)> = Vec::new();
    push_member(&mut m, "type", Json::str("array"));
    push_member(&mut m, "items", items);
    let j = object_of(m);
    assert(j@->Object_0 =~= array_schema(iv)->Object_0);
    j
}

fn table_schema_exec() -> (j: Json)
    ensures
        j@ == table_schema(),
{
    let mut any: Vec<Json> = Vec::new();
    push_item(&mut any, type_is_exec("string"));
    push_item(&mut any, type_is_exec("number"));
    push_item(&mut any, type_is_exec("boolean"));
    let any = array_of(any);
    let mut cell: Vec<(String, Json)> = Vec::new();
    push_member(&mut cell, "anyOf", any);
    let cell = object_of(cell);
    assert(cell@->Object_0[0].1->Array_0 =~= cell_schema()->Object_0[0].1->Array_0);
    assert(cell@->Object_0 =~= cell_schema()->Object_0);
    let rows = array_schema_exec(array_schema_exec(cell));
    let cols = array_schema_exec(type_is_exec("string"));
    let mut props: Vec<(String, Json)> = Vec::new();
    push_member(&mut props, "columns", cols);
    push_member(&mut props, "rows", rows);
    let props = object_of(props);
    let mut m: Vec<(String, Json)> = Vec::new();
    push_member(&mut m, "type", Json::str("object"));
    push_member(&mut m, "additionalProperties", Json::Bool(false));
    push_member(&mut m, "required", str_array("columns", "rows"));
    push_member(&mut m, "properties", props);
    let j = object_of(m);
    assert(j@->Object_0[3].1->Object_0 =~= table_schema()->Object_0[3].1->Object_0);
    assert(j@->Object_0 =~= table_schema()->Object_0);
    j
}

fn tables_schema_exec(types: &Vec<TypeSchema>) -> (j: Json)
    ensures
        j@ == tables_schema(type_keys(Seq::new(types@.len(), |i: int| types@[i]@))),
{
    let ghost keys = type_keys(Seq::new(types@.len(), |i: int| types@[i]@));
    let mut required: Vec<Json> = Vec::new();
    let mut tables: Vec<(String, Json)> = Vec::new();
    let mut i: usize = 0;
    assert(keys.take(0) =~= Seq::<Seq<char>>::empty());
    while i < types.len()
        invariant
            i <= types@.len(),
            keys == type_keys(Seq::new(types@.len(), |i: int| types@[i]@)),
            items_view(required@) == str_items(keys.take(i as int)),
            members_view(tables@) == tables_by_key(keys.take(i as int)),
        decreases types.len() - i,
    {
        assert(keys.take(i + 1).drop_last() =~= keys.take(i as int));
        assert(keys.take(i + 1).last() == types@[i as int].key@);
        push_item(&mut required, Json::String(types[i].key.clone()));
        assert(items_view(required@) =~= str_items(keys.take(i + 1)));
        insert_member(&mut tables, types[i].key.clone(), table_schema_exec());
        i = i + 1;
    }
    assert(keys.take(types.len() as int) =~= keys);
    let mut m: Vec<(String, Json)> = Vec::new();
    push_member(&mut m, "type", Json::str("object"));
    push_member(&mut m, "additionalProperties", Json::Bool(false));
    push_member(&mut m, "required", array_of(required));
    push_member(&mut m, "properties", object_of(tables));
    let j = object_of(m);
    assert(j@->Object_0 =~= tables_schema(keys)->Object_0);
    j
}

/// The JSON schema that the model's answer must follow (see `data_json_schema`).
pub fn schema_to_data_json_schema(schema: &GraphSchema) -> (j: Json)
    ensures
        j@ == data_json_schema(schema@),
{
    let nodes = tables_schema_exec(&schema.nodes);
    let edges = tables_schema_exec(&schema.edges);
    let mut props: Vec<(String, Json)> = Vec::new();
    push_member(&mut props, "nodes", nodes);
    push_member(&mut props, "edges", edges);
    let mut m: Vec<(String, Json)> = Vec::new();
    push_member(&mut m, "type", Json::str("object"));
    push_member(&mut m, "additionalProperties", Json::Bool(false));
    push_member(&mut m, "required", str_array("nodes", "edges"));
    let props = object_of(props);
    assert(props@->Object_0 =~= data_json_schema(schema@)->Object_0[3].1->Object_0);
    push_member(&mut m, "properties", props);
    let j = object_of(m);
    assert(j@->Object_0 =~= data_json_schema(schema@)->Object_0);
    j
}


// ---------------------------------------------------------------------------
// Prompts
// ---------------------------------------------------------------------------

pub const DATA_SYSTEM_PROMPT: &'static str = "You are a graph data extractor assistant. Extract entities and relationships from a document and return compact JSON.\n\nOutput format: for each node and edge type, output a \"columns\" array (the exact column names) and a \"rows\" array of arrays, where each row contains values in the same order as \"columns\".\n\nRules:\n- Output ONLY the types listed in the schema\n- For nodes: the first column is always \"id\" \u{2014} assign unique string IDs like \"n1\", \"n2\", ...\n- For edges: the first two columns are always \"from\" and \"to\" \u{2014} they must reference node IDs you defined in the \"id\" column\n- No self-loops: \"from\" and \"to\" must be different node IDs\n- Do not invent data not present or strongly implied by the document\n- If a value is unknown or absent: use \"\" for strings, 0 for numbers, false for booleans\n- If a type has no instances, return an empty \"rows\" array\n- Use the EXACT column names specified in the schema description";

pub const COLUMNS_HEADER: &'static str = "Schema column definitions (use these EXACT column names and order):";

pub const ID_COLUMN: &'static str = "\"id\" (unique string node ID)";

pub const FROM_COLUMN: &'static str = "\"from\" (node ID)";

pub const TO_COLUMN: &'static str = "\"to\" (node ID)";

pub const DATA_CORRECTION_INTRO: &'static str = "Your previous response contained errors that must be fixed:\n\n";

pub const DATA_CORRECTION_OUTRO: &'static str = "\n\nReturn the corrected JSON. Make sure every \"from\" and \"to\" in edges references a valid node ID from the \"id\" column in the nodes section.";

/// The system prompt of data extraction.
pub fn build_system_prompt() -> (s: String)
    ensures
        s@ == DATA_SYSTEM_PROMPT@,
{
    owned(DATA_SYSTEM_PROMPT)
}

/// How a property's kind is shown; a select property lists its options.
pub open spec fn prop_type_text(p: PropertySchemaView) -> Seq<char> {
    match p.property_type {
        PropertyType::Number => "Number"@,
        PropertyType::Boolean => "Boolean"@,
        PropertyType::String => "String"@,
        PropertyType::Select => match p.options {
            Some(opts) => "Select: "@ + join(opts, ", "@),
            None => "Select"@,
        },
    }
}

/// How a property's kind is shown (see `prop_type_text`).
pub fn prop_type_display(p: &PropertySchema) -> (s: String)
    ensures
        s@ == prop_type_text(p@),
{
    match p.property_type {
        PropertyType::Number => owned("Number"),
        PropertyType::Boolean => owned("Boolean"),
        PropertyType::String => owned("String"),
        PropertyType::Select => match &p.options {
            Some(opts) => {
                let mut s = owned("Select: ");
                let j = join_strings(opts, ", ");
                append_string(&mut s, &j);
                s
            },
            None => owned("Select"),
        },
    }
}

/// A property as a column: its key in quotes, then its kind and label.
pub open spec fn prop_column(p: PropertySchemaView) -> Seq<char> {
    "\""@ + p.key + "\" ("@ + prop_type_text(p) + ", label: "@ + p.label + ")"@
}

pub open spec fn prop_keys(ps: Seq<PropertySchemaView>) -> Seq<Seq<char>> {
    Seq::new(ps.len(), |i: int| ps[i].key)
}

/// The property columns of a type, sorted by key (stably).
pub open spec fn prop_columns(ps: Seq<PropertySchemaView>) -> Seq<Seq<char>> {
    let o = sorted_order(prop_keys(ps), ps.len());
    Seq::new(ps.len(), |i: int| prop_column(ps[o[i]]))
}

/// The columns line of a type.
pub open spec fn table_line(kind: Seq<char>, t: TypeSchemaView, fixed: Seq<Seq<char>>) -> Seq<char> {
    kind + " \""@ + t.key + "\" ("@ + t.label + "): "@ + join(fixed + prop_columns(t.properties), " | "@)
}

/// The user prompt of data extraction: the columns of each node type and of
/// each edge type, then the document.
pub open spec fn data_user_prompt(document: Seq<char>, schema: GraphSchemaView) -> Seq<char> {
    join(
        seq![COLUMNS_HEADER@, Seq::empty()] + Seq::new(
            schema.nodes.len(),
            |i: int| table_line("Node"@, schema.nodes[i], seq![ID_COLUMN@]),
        ) + seq![Seq::empty()] + Seq::new(
            schema.edges.len(),
            |i: int| table_line("Edge"@, schema.edges[i], seq![FROM_COLUMN@, TO_COLUMN@]),
        ) + seq![Seq::empty(), "Document:"@, Seq::empty(), document],
        "\n"@,
    )
}

fn prop_column_exec(p: &PropertySchema) -> (s: String)
    ensures
        s@ == prop_column(p@),
{
    let mut s = owned("\"");
    append_string(&mut s, &p.key);
    append_str(&mut s, "\" (");
    let t = prop_type_display(p);
    append_string(&mut s, &t);
    append_str(&mut s, ", label: ");
    append_string(&mut s, &p.label);
    append_str(&mut s, ")");
    s
}

fn table_line_exec(kind: &str, t: &TypeSchema, fixed: Vec<String>) -> (s: String)
    ensures
        s@ == table_line(kind@, t@, strings_view(fixed@)),
{
    let ghost tv = t@;
    let ghost pv = tv.properties;
    let mut keys: Vec<String> = Vec::new();
    let mut i: usize = 0;
    while i < t.properties.len()
        invariant
            i <= t.properties@.len(),
            tv == t@,
            pv == tv.properties,
            strings_view(keys@) == prop_keys(pv).take(i as int),
        decreases t.properties.len() - i,
    {
        assert(pv[i as int] == t.properties@[i as int]@);
        push_line(&mut keys, t.properties[i].key.clone());
        assert(strings_view(keys@) =~= prop_keys(pv).take(i + 1));
        i = i + 1;
    }
    assert(prop_keys(pv).take(t.properties.len() as int) =~= prop_keys(pv));
    let order = sort_by_key(&keys);
    assert(Seq::new(keys@.len(), |i: int| keys@[i]@) =~= prop_keys(pv));
    let ghost o = sorted_order(prop_keys(pv), pv.len());
    let mut cols = fixed;
    let ghost fv = strings_view(cols@);
    let mut j: usize = 0;
    while j < order.len()
        invariant
            j <= order@.len(),
            order@.len() == pv.len(),
            pv.len() == t.properties@.len(),
            tv == t@,
            pv == tv.properties,
            forall|k: int| 0 <= k < order@.len() ==> #[trigger] order@[k] < pv.len(),
            o == Seq::new(order@.len(), |k: int| order@[k] as int),
            o == sorted_order(prop_keys(pv), pv.len()),
            strings_view(cols@) == fv + prop_columns(pv).take(j as int),
        decreases order.len() - j,
    {
        let k = order[j];
        assert(o[j as int] == k as int);
        assert(pv[k as int] == t.properties@[k as int]@);
        let c = prop_column_exec(&t.properties[k]);
        assert(prop_columns(pv)[j as int] == c@);
        let ghost before = strings_view(cols@);
        push_line(&mut cols, c);
        assert(prop_columns(pv).take(j + 1) =~= prop_columns(pv).take(j as int).push(c@));
        assert(strings_view(cols@) =~= fv + prop_columns(pv).take(j + 1));
        j = j + 1;
    }
    assert(prop_columns(pv).take(order.len() as int) =~= prop_columns(pv));
    let mut s = owned(kind);
    append_str(&mut s, " \"");
    append_string(&mut s, &t.key);
    append_str(&mut s, "\" (");
    append_string(&mut s, &t.label);
    append_str(&mut s, "): ");
    let joined = join_strings(&cols, " | ");
    append_string(&mut s, &joined);
    s
}

/// The user prompt of data extraction (see `data_user_prompt`).
pub fn build_user_prompt(document: &str, schema: &GraphSchema) -> (s: String)
    ensures
        s@ == data_user_prompt(document@, schema@),
{
    let ghost sv = schema@;
    let mut lines: Vec<String> = Vec::new();
    push_line(&mut lines, owned(COLUMNS_HEADER));
    push_line(&mut lines, String::new());
    let ghost head = strings_view(lines@);
    let mut i: usize = 0;
    while i < schema.nodes.len()
        invariant
            i <= schema.nodes@.len(),
            sv == schema@,
            strings_view(lines@) == head + Seq::new(
                i as nat,
                |k: int| table_line("Node"@, sv.nodes[k], seq![ID_COLUMN@]),
            ),
        decreases schema.nodes.len() - i,
    {
        let mut fixed: Vec<String> = Vec::new();
        push_line(&mut fixed, owned(ID_COLUMN));
        assert(strings_view(fixed@) =~= seq![ID_COLUMN@]);
        let line = table_line_exec("Node", &schema.nodes[i], fixed);
        let ghost before = strings_view(lines@);
        push_line(&mut lines, line);
        assert(strings_view(lines@) =~= head + Seq::new(
            (i + 1) as nat,
            |k: int| table_line("Node"@, sv.nodes[k], seq![ID_COLUMN@]),
        ));
        i = i + 1;
    }
    push_line(&mut lines, String::new());
    let ghost mid = strings_view(lines@);
    let mut i: usize = 0;
    while i < schema.edges.len()
        invariant
            i <= schema.edges@.len(),
            sv == schema@,
            strings_view(lines@) == mid + Seq::new(
                i as nat,
                |k: int| table_line("Edge"@, sv.edges[k], seq![FROM_COLUMN@, TO_COLUMN@]),
            ),
        decreases schema.edges.len() - i,
    {
        let mut fixed: Vec<String> = Vec::new();
        push_line(&mut fixed, owned(FROM_COLUMN));
        push_line(&mut fixed, owned(TO_COLUMN));
        assert(strings_view(fixed@) =~= seq![FROM_COLUMN@, TO_COLUMN@]);
        let line = table_line_exec("Edge", &schema.edges[i], fixed);
        push_line(&mut lines, line);
        assert(strings_view(lines@) =~= mid + Seq::new(
            (i + 1) as nat,
            |k: int| table_line("Edge"@, sv.edges[k], seq![FROM_COLUMN@, TO_COLUMN@]),
        ));
        i = i + 1;
    }
    push_line(&mut lines, String::new());
    push_line(&mut lines, owned("Document:"));
    push_line(&mut lines, String::new());
    push_line(&mut lines, owned(document));
    assert(strings_view(lines@) =~= seq![COLUMNS_HEADER@, Seq::empty()] + Seq::new(
        sv.nodes.len(),
        |i: int| table_line("Node"@, sv.nodes[i], seq![ID_COLUMN@]),
    ) + seq![Seq::empty()] + Seq::new(
        sv.edges.len(),
        |i: int| table_line("Edge"@, sv.edges[i], seq![FROM_COLUMN@, TO_COLUMN@]),
    ) + seq![Seq::empty(), "Document:"@, Seq::empty(), document@]);
    join_strings(&lines, "\n")
}

/// The prompt that asks the model to correct its answer.
pub open spec fn data_correction_prompt(errors: Seq<char>) -> Seq<char> {
    DATA_CORRECTION_INTRO@ + errors + DATA_CORRECTION_OUTRO@
}

/// The prompt that asks the model to correct its answer (see
/// `data_correction_prompt`).
pub fn build_correction_prompt(errors: &str) -> (s: String)
    ensures
        s@ == data_correction_prompt(errors@),
{
    let mut s = owned(DATA_CORRECTION_INTRO);
    append_str(&mut s, errors);
    append_str(&mut s, DATA_CORRECTION_OUTRO);
    s
}

/// The report of an answer that breaks the schema: how many errors, then
/// each one numbered on a line of its own.
pub open spec fn nonconformity_report(errors: Seq<Seq<char>>) -> Seq<char> {
    "The generated data does not conform to the schema ("@ + decimal(errors.len()) + " error(s)):\n"@
        + join(Seq::new(errors.len(), |i: int| "  "@ + decimal((i + 1) as nat) + ". "@ + errors[i]), "\n"@)
}

/// The report of an answer that breaks the schema (see `nonconformity_report`).
pub fn build_nonconformity_report(errors: &Vec<String>) -> (s: String)
    ensures
        s@ == nonconformity_report(strings_view(errors@)),
{
    let ghost ev = strings_view(errors@);
    let mut items: Vec<String> = Vec::new();
    let mut i: usize = 0;
    while i < errors.len()
        invariant
            i <= errors@.len(),
            ev == strings_view(errors@),
            strings_view(items@) == Seq::new(
                i as nat,
                |k: int| "  "@ + decimal((k + 1) as nat) + ". "@ + ev[k],
            ),
        decreases errors.len() - i,
    {
        let mut item = owned("  ");
        let n = decimal_string(i + 1);
        append_string(&mut item, &n);
        append_str(&mut item, ". ");
        append_string(&mut item, &errors[i]);
        push_line(&mut items, item);
        assert(strings_view(items@) =~= Seq::new(
            (i + 1) as nat,
            |k: int| "  "@ + decimal((k + 1) as nat) + ". "@ + ev[k],
        ));
        i = i + 1;
    }
    let mut s = owned("The generated data does not conform to the schema (");
    let n = decimal_string(errors.len());
    append_string(&mut s, &n);
    append_str(&mut s, " error(s)):\n");
    let j = join_strings(&items, "\n");
    append_string(&mut s, &j);
    s
}

} // verus!
