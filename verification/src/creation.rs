//! Creating nodes and edges: entity resolution and the batch tools. Each is a
//! machine that decides what happens next while its caller embeds, searches
//! and creates; the caller compares each search distance with the similarity
//! threshold, so the machine sees only whether a hit is close.
use vstd::prelude::*;
use crate::data_service::clone_members;
use crate::graph::{GraphSchema, GraphSchemaView};
use crate::json::{array_of, items_view, members_view, obj_insert, insert_member, object_of, push_member, Json, JsonNumber, JsonView};
use crate::text::{append_string, owned};
use crate::tool_executor::{
    check_embedding_count, clone_items, count_mismatch, edge_created_item, edge_item, edge_item_exec,
    entries_view, item_failed, item_label, mark_created, node_created_item, node_similar_item,
    similar_nodes_answer, EdgeEntry, EdgeEntryView, NodeEntry, NodeEntryView, SIMILAR_NODES_REASON,
};

verus! {

// ---------------------------------------------------------------------------
// Entity resolution
// ---------------------------------------------------------------------------

/// A hit of the similarity search: the hit as JSON (its node id, key,
/// properties and distance) and whether its distance is under the threshold.
#[derive(Debug)]
pub struct SimilarHit {
    pub close: bool,
    pub hit: Json,
}

pub struct HitView {
    pub close: bool,
    pub hit: JsonView,
}

impl View for SimilarHit {
    type V = HitView;

    open spec fn view(&self) -> HitView {
        HitView { close: self.close, hit: self.hit@ }
    }
}

pub open spec fn hits_view(v: Seq<SimilarHit>) -> Seq<HitView> {
    Seq::new(v.len(), |i: int| v[i]@)
}

/// The close hits, in the order of the search.
pub open spec fn close_hits(h: Seq<HitView>) -> Seq<JsonView>
    decreases h.len(),
{
    if h.len() == 0 {
        Seq::empty()
    } else {
        let prev = close_hits(h.drop_last());
        if h.last().close {
            prev.push(h.last().hit)
        } else {
            prev
        }
    }
}

/// Some hit is close exactly when there are close hits.
pub proof fn lemma_close_hits_nonempty(h: Seq<HitView>)
    ensures
        close_hits(h).len() > 0 <==> exists|i: int| 0 <= i < h.len() && #[trigger] h[i].close,
    decreases h.len(),
{
    if h.len() > 0 {
        lemma_close_hits_nonempty(h.drop_last());
        if exists|i: int| 0 <= i < h.len() && #[trigger] h[i].close {
            let i = choose|i: int| 0 <= i < h.len() && #[trigger] h[i].close;
            if i < h.len() - 1 {
                assert(h.drop_last()[i].close);
            }
        }
        if exists|i: int| 0 <= i < h.len() - 1 && #[trigger] h.drop_last()[i].close {
            let i = choose|i: int| 0 <= i < h.len() - 1 && #[trigger] h.drop_last()[i].close;
            assert(h[i].close);
        }
    }
}

/// What entity resolution decides for a new node.
#[derive(Debug)]
pub enum Resolution {
    /// No close match, or the creation is forced: create the node.
    Create,
    /// These close matches already exist: do not create.
    Similar(Vec<Json>),
}

pub enum ResolutionView {
    Create,
    Similar(Seq<JsonView>),
}

impl View for Resolution {
    type V = ResolutionView;

    open spec fn view(&self) -> ResolutionView {
        match self {
            Resolution::Create => ResolutionView::Create,
            Resolution::Similar(v) => ResolutionView::Similar(items_view(v@)),
        }
    }
}

/// A node is created when forced, or when no hit of the search is close.
pub open spec fn resolution(force: bool, hits: Seq<HitView>) -> ResolutionView {
    if !force && close_hits(hits).len() > 0 {
        ResolutionView::Similar(close_hits(hits))
    } else {
        ResolutionView::Create
    }
}

fn close_hits_exec(hits: &Vec<SimilarHit>) -> (r: Vec<Json>)
    ensures
        items_view(r@) == close_hits(hits_view(hits@)),
{
    let ghost hv = hits_view(hits@);
    let mut r: Vec<Json> = Vec::new();
    let mut i: usize = 0;
    assert(hv.take(0) =~= Seq::<HitView>::empty());
    while i < hits.len()
        invariant
            i <= hits@.len(),
            hv == hits_view(hits@),
            items_view(r@) == close_hits(hv.take(i as int)),
        decreases hits.len() - i,
    {
        assert(hv.take(i + 1).drop_last() =~= hv.take(i as int));
        assert(hv.take(i + 1).last() == hits@[i as int]@);
        if hits[i].close {
            let ghost before = items_view(r@);
            let c = hits[i].hit.deep_clone();
            r.push(c);
            assert(items_view(r@) =~= before.push(hits@[i as int].hit@));
        }
        i = i + 1;
    }
    assert(hv.take(hits.len() as int) =~= hv);
    r
}

/// Entity resolution for one node (see `resolution`).
pub fn resolve_node(force: bool, hits: &Vec<SimilarHit>) -> (d: Resolution)
    ensures
        d@ == resolution(force, hits_view(hits@)),
        d is Similar <==> !force && exists|i: int| 0 <= i < hits@.len() && #[trigger] hits@[i].close,
{
    proof {
        lemma_close_hits_nonempty(hits_view(hits@));
        assert forall|i: int| 0 <= i < hits@.len() implies (#[trigger] hits@[i].close == hits_view(hits@)[i].close) by {}
    }
    let close = close_hits_exec(hits);
    if !force && close.len() > 0 {
        Resolution::Similar(close)
    } else {
        Resolution::Create
    }
}

// ---------------------------------------------------------------------------
// Requests and events
// ---------------------------------------------------------------------------

/// What a creation machine asks its caller to do next.
#[derive(Debug)]
pub enum CreationRequest {
    /// Embed the text of each of these property sets, in one call.
    Embed { sets: Vec<Vec<(String, Json)>> },
    /// Search the nodes of type `node_key` similar to the `index`-th embedding.
    Search { index: usize, node_key: String },
    /// Count the neighbours, one step away, of this close hit.
    Neighbors { candidate: Json },
    /// Create a node from the `index`-th embedding, with a fresh id.
    CreateNode { index: usize, node_key: String, properties: Vec<(String, Json)> },
    /// Create the `index`-th edge.
    CreateEdge { index: usize, edge: EdgeEntry },
    /// The tool's result: the answer to hand back, or its error.
    Finish(Result<Json, String>),
}

/// How the caller's work came out.
#[derive(Debug)]
pub enum CreationEvent {
    /// How many embeddings the call gave, or its error.
    Embedded(Result<usize, String>),
    /// The hits of the search, or its error.
    Searched(Result<Vec<SimilarHit>, String>),
    /// The node and edge counts around the candidate, if they could be read.
    NeighborsFound(Option<(usize, usize)>),
    /// The created node or edge as JSON, or the error.
    Created(Result<Json, String>),
}

pub enum CreationRequestView {
    Embed(Seq<Seq<(Seq<char>, JsonView)>>),
    Search(nat, Seq<char>),
    Neighbors(JsonView),
    CreateNode(nat, Seq<char>, Seq<(Seq<char>, JsonView)>),
    CreateEdge(nat, EdgeEntryView),
    Finish(Result<JsonView, Seq<char>>),
}

pub enum CreationEventView {
    Embedded(Result<nat, Seq<char>>),
    Searched(Result<Seq<HitView>, Seq<char>>),
    NeighborsFound(Option<(nat, nat)>),
    Created(Result<JsonView, Seq<char>>),
}

pub open spec fn property_sets_view(v: Seq<Vec<(String, Json)>>) -> Seq<Seq<(Seq<char>, JsonView)>> {
    Seq::new(v.len(), |i: int| members_view(v[i]@))
}

pub open spec fn json_result_view(r: Result<Json, String>) -> Result<JsonView, Seq<char>> {
    match r {
        Ok(j) => Ok(j@),
        Err(e) => Err(e@),
    }
}

impl View for CreationRequest {
    type V = CreationRequestView;

    open spec fn view(&self) -> CreationRequestView {
        match self {
            CreationRequest::Embed { sets } => CreationRequestView::Embed(property_sets_view(sets@)),
            CreationRequest::Search { index, node_key } => CreationRequestView::Search(*index as nat, node_key@),
            CreationRequest::Neighbors { candidate } => CreationRequestView::Neighbors(candidate@),
            CreationRequest::CreateNode { index, node_key, properties } => CreationRequestView::CreateNode(
                *index as nat,
                node_key@,
                members_view(properties@),
            ),
            CreationRequest::CreateEdge { index, edge } => CreationRequestView::CreateEdge(*index as nat, edge@),
            CreationRequest::Finish(r) => CreationRequestView::Finish(json_result_view(*r)),
        }
    }
}

impl View for CreationEvent {
    type V = CreationEventView;

    open spec fn view(&self) -> CreationEventView {
        match self {
            CreationEvent::Embedded(r) => CreationEventView::Embedded(
                match r {
                    Ok(n) => Ok(*n as nat),
                    Err(e) => Err(e@),
                },
            ),
            CreationEvent::Searched(r) => CreationEventView::Searched(
                match r {
                    Ok(h) => Ok(hits_view(h@)),
                    Err(e) => Err(e@),
                },
            ),
            CreationEvent::NeighborsFound(n) => CreationEventView::NeighborsFound(
                match n {
                    Some(p) => Some((p.0 as nat, p.1 as nat)),
                    None => None,
                },
            ),
            CreationEvent::Created(r) => CreationEventView::Created(json_result_view(*r)),
        }
    }
}

/// Where a creation machine stands.
#[derive(Clone, Copy, PartialEq, Eq, Debug, Structural)]
pub enum CreationPhase {
    Embedding,
    Searching,
    Neighbors,
    Creating,
    Finished,
}

// ---------------------------------------------------------------------------
// Answers
// ---------------------------------------------------------------------------

/// A member of a created node or edge, `null` when it has none.
pub open spec fn field_or_null(j: JsonView, k: Seq<char>) -> JsonView {
    match j.get(k) {
        Some(v) => v,
        None => JsonView::Null,
    }
}

fn field_or_null_exec(j: &Json, k: &str) -> (r: Json)
    ensures
        r@ == field_or_null(j@, k@),
{
    match j.get(k) {
        Some(v) => v.deep_clone(),
        None => Json::Null,
    }
}

pub open spec fn index_json_view(i: nat) -> JsonView {
    JsonView::Number(JsonNumber::PosInt(i as u64))
}

/// The answer for node `i` of a batch that was not created.
pub open spec fn similar_item(i: nat, similar: Seq<JsonView>) -> JsonView {
    JsonView::Object(
        seq![
            ("index"@, index_json_view(i)),
            ("created"@, JsonView::Bool(false)),
            ("reason"@, JsonView::String("Similar node already exists"@)),
            ("similar_nodes"@, JsonView::Array(similar)),
        ],
    )
}

/// The answer for node `i` of a batch that was created as `node`.
pub open spec fn created_node_item(i: nat, node: JsonView) -> JsonView {
    JsonView::Object(
        seq![
            ("index"@, index_json_view(i)),
            ("created"@, JsonView::Bool(true)),
            ("node_data_id"@, field_or_null(node, "node_data_id"@)),
            ("key"@, field_or_null(node, "key"@)),
            ("properties"@, field_or_null(node, "properties"@)),
        ],
    )
}

/// The answer for edge `i` of a batch that was created as `edge`.
pub open spec fn created_edge_item(i: nat, edge: JsonView) -> JsonView {
    JsonView::Object(
        seq![
            ("index"@, index_json_view(i)),
            ("created"@, JsonView::Bool(true)),
            ("edge_key"@, field_or_null(edge, "key"@)),
            ("from_node_data_id"@, field_or_null(edge, "from_node_data_id"@)),
            ("to_node_data_id"@, field_or_null(edge, "to_node_data_id"@)),
        ],
    )
}

/// The answer for item `i` of a batch whose creation failed with `e`.
pub open spec fn failed_item(i: nat, e: Seq<char>) -> JsonView {
    JsonView::Object(
        seq![
            ("index"@, index_json_view(i)),
            ("created"@, JsonView::Bool(false)),
            ("error"@, JsonView::String(e)),
        ],
    )
}

/// A created node or edge, marked as created.
pub open spec fn marked(j: JsonView) -> JsonView {
    match j {
        JsonView::Object(m) => JsonView::Object(obj_insert(m, "created"@, JsonView::Bool(true))),
        other => other,
    }
}

/// The answer of `create_edge` once the edge was made, or its error.
pub open spec fn edge_answer(created: Result<JsonView, Seq<char>>) -> Result<JsonView, Seq<char>> {
    match created {
        Ok(e) => Ok(marked(e)),
        Err(e) => Err("Failed to create edge: "@ + e),
    }
}

fn prefixed(p: &str, e: String) -> (s: String)
    ensures
        s@ == p@ + e@,
{
    let mut s = owned(p);
    append_string(&mut s, &e);
    s
}

/// The answer of `create_edge` (see `edge_answer`).
pub fn create_edge_answer(created: Result<Json, String>) -> (r: Result<Json, String>)
    ensures
        json_result_view(r) == edge_answer(json_result_view(created)),
{
    match created {
        Ok(e) => Ok(mark_created(e)),
        Err(e) => Err(prefixed("Failed to create edge: ", e)),
    }
}

// ---------------------------------------------------------------------------
// create_node
// ---------------------------------------------------------------------------

/// The neighbour counts of a candidate, `null` when they could not be read.
pub open spec fn neighbor_summary(n: Option<(nat, nat)>) -> JsonView {
    match n {
        Some(p) => JsonView::Object(
            seq![("node_count"@, index_json_view(p.0)), ("edge_count"@, index_json_view(p.1))],
        ),
        None => JsonView::Null,
    }
}

/// A close hit shown as a candidate: the hit with its neighbour counts.
pub open spec fn with_neighbors(hit: JsonView, n: Option<(nat, nat)>) -> JsonView {
    match hit {
        JsonView::Object(m) => JsonView::Object(obj_insert(m, "neighbors"@, neighbor_summary(n))),
        other => other,
    }
}

/// The answer of `create_node` when close matches exist.
pub open spec fn similar_answer(candidates: Seq<JsonView>) -> JsonView {
    JsonView::Object(
        seq![
            ("created"@, JsonView::Bool(false)),
            ("reason"@, JsonView::String(SIMILAR_NODES_REASON@)),
            ("similar_nodes"@, JsonView::Array(candidates)),
        ],
    )
}

/// How a call that gave no embedding fails.
pub const NO_EMBEDDING: &'static str = "OpenRouter API returned an invalid response format: No embedding data in response";

/// The creation of one node: embed it, unless forced look for close matches
/// (and show each with its neighbour counts), else create it.
#[derive(Debug)]
pub struct NodeCreation {
    entry: NodeEntry,
    candidates: Vec<Json>,
    found: Vec<Json>,
    phase: CreationPhase,
}

pub struct NodeCreationView {
    pub entry: NodeEntryView,
    /// The close hits of the search.
    pub candidates: Seq<JsonView>,
    /// The candidates shown so far, with their neighbour counts.
    pub found: Seq<JsonView>,
    pub phase: CreationPhase,
}

impl View for NodeCreation {
    type V = NodeCreationView;

    closed spec fn view(&self) -> NodeCreationView {
        NodeCreationView {
            entry: self.entry@,
            candidates: items_view(self.candidates@),
            found: items_view(self.found@),
            phase: self.phase,
        }
    }
}

/// A creation that still awaits an event.
pub open spec fn node_creation_wf(s: NodeCreationView) -> bool {
    &&& s.phase != CreationPhase::Finished
    &&& s.phase == CreationPhase::Neighbors ==> s.found.len() < s.candidates.len()
}

pub open spec fn in_phase(s: NodeCreationView, p: CreationPhase) -> NodeCreationView {
    NodeCreationView { entry: s.entry, candidates: s.candidates, found: s.found, phase: p }
}

pub open spec fn node_creation_start(entry: NodeEntryView) -> (NodeCreationView, CreationRequestView) {
    (
        NodeCreationView {
            entry,
            candidates: Seq::empty(),
            found: Seq::empty(),
            phase: CreationPhase::Embedding,
        },
        CreationRequestView::Embed(seq![entry.properties]),
    )
}

/// The request a creation awaits the outcome of.
pub open spec fn node_creation_awaited(s: NodeCreationView) -> CreationRequestView {
    match s.phase {
        CreationPhase::Embedding => CreationRequestView::Embed(seq![s.entry.properties]),
        CreationPhase::Searching => CreationRequestView::Search(0, s.entry.node_key),
        CreationPhase::Neighbors => CreationRequestView::Neighbors(s.candidates[s.found.len() as int]),
        _ => CreationRequestView::CreateNode(0, s.entry.node_key, s.entry.properties),
    }
}

/// The next state and request once `ev` came in; an event that is not the one
/// awaited changes nothing.
pub open spec fn node_creation_next(s: NodeCreationView, ev: CreationEventView) -> (NodeCreationView, CreationRequestView) {
    let finished = in_phase(s, CreationPhase::Finished);
    let create = (
        in_phase(s, CreationPhase::Creating),
        CreationRequestView::CreateNode(0, s.entry.node_key, s.entry.properties),
    );
    let ignored = (s, node_creation_awaited(s));
    match ev {
        CreationEventView::Embedded(r) => if s.phase == CreationPhase::Embedding {
            match r {
                Err(e) => (finished, CreationRequestView::Finish(Err("Embedding failed: "@ + e))),
                Ok(n) => if n == 0 {
                    (finished, CreationRequestView::Finish(Err("Embedding failed: "@ + NO_EMBEDDING@)))
                } else if s.entry.force {
                    create
                } else {
                    (in_phase(s, CreationPhase::Searching), CreationRequestView::Search(0, s.entry.node_key))
                },
            }
        } else {
            ignored
        },
        CreationEventView::Searched(r) => if s.phase == CreationPhase::Searching {
            match r {
                Err(e) => (finished, CreationRequestView::Finish(Err("Entity resolution search failed: "@ + e))),
                Ok(h) => if close_hits(h).len() == 0 {
                    create
                } else {
                    (
                        NodeCreationView {
                            entry: s.entry,
                            candidates: close_hits(h),
                            found: Seq::empty(),
                            phase: CreationPhase::Neighbors,
                        },
                        CreationRequestView::Neighbors(close_hits(h)[0]),
                    )
                },
            }
        } else {
            ignored
        },
        CreationEventView::NeighborsFound(n) => if s.phase == CreationPhase::Neighbors {
            let f = s.found.push(with_neighbors(s.candidates[s.found.len() as int], n));
            if f.len() >= s.candidates.len() {
                (
                    NodeCreationView { entry: s.entry, candidates: s.candidates, found: f, phase: CreationPhase::Finished },
                    CreationRequestView::Finish(Ok(similar_answer(f))),
                )
            } else {
                (
                    NodeCreationView { entry: s.entry, candidates: s.candidates, found: f, phase: s.phase },
                    CreationRequestView::Neighbors(s.candidates[f.len() as int]),
                )
            }
        } else {
            ignored
        },
        CreationEventView::Created(r) => if s.phase == CreationPhase::Creating {
            match r {
                Ok(node) => (finished, CreationRequestView::Finish(Ok(marked(node)))),
                Err(e) => (finished, CreationRequestView::Finish(Err("Failed to create node: "@ + e))),
            }
        } else {
            ignored
        },
    }
}

fn neighbor_summary_exec(n: Option<(usize, usize)>) -> (j: Json)
    ensures
        j@ == neighbor_summary(
            match n {
                Some(p) => Some((p.0 as nat, p.1 as nat)),
                None => None,
            },
        ),
{
    match n {
        Some(p) => {
            let mut m: Vec<(String, Json)> = Vec::new();
            push_member(&mut m, "node_count", Json::Number(JsonNumber::PosInt(p.0 as u64)));
            push_member(&mut m, "edge_count", Json::Number(JsonNumber::PosInt(p.1 as u64)));
            let j = object_of(m);
            assert(j@->Object_0 =~= seq![
                ("node_count"@, index_json_view(p.0 as nat)),
                ("edge_count"@, index_json_view(p.1 as nat)),
            ]);
            j
        },
        None => Json::Null,
    }
}

fn with_neighbors_exec(hit: Json, n: Option<(usize, usize)>) -> (j: Json)
    ensures
        j@ == with_neighbors(
            hit@,
            match n {
                Some(p) => Some((p.0 as nat, p.1 as nat)),
                None => None,
            },
        ),
{
    match hit {
        Json::Object(mut m) => {
            proof {
                crate::json::lemma_object_view(m);
            }
            let summary = neighbor_summary_exec(n);
            insert_member(&mut m, owned("neighbors"), summary);
            object_of(m)
        },
        other => other,
    }
}

fn similar_answer_exec(candidates: Vec<Json>) -> (j: Json)
    ensures
        j@ == similar_answer(items_view(candidates@)),
{
    let a = array_of(candidates);
    similar_nodes_answer(a)
}

fn one_set(p: &Vec<(String, Json)>) -> (v: Vec<Vec<(String, Json)>>)
    ensures
        property_sets_view(v@) == seq![members_view(p@)],
{
    let mut v: Vec<Vec<(String, Json)>> = Vec::new();
    v.push(clone_members(p));
    assert(property_sets_view(v@) =~= seq![members_view(p@)]);
    v
}

impl NodeCreation {
    /// The start: the node's properties are embedded.
    pub fn start(entry: NodeEntry) -> (r: (NodeCreation, CreationRequest))
        ensures
            (r.0@, r.1@) == node_creation_start(entry@),
            node_creation_wf(r.0@),
    {
        let req = CreationRequest::Embed { sets: one_set(&entry.properties) };
        let s = NodeCreation { entry, candidates: Vec::new(), found: Vec::new(), phase: CreationPhase::Embedding };
        assert(s@.candidates =~= Seq::<JsonView>::empty());
        assert(s@.found =~= Seq::<JsonView>::empty());
        (s, req)
    }

    fn awaited(&self) -> (r: CreationRequest)
        requires
            node_creation_wf(self@),
        ensures
            r@ == node_creation_awaited(self@),
    {
        match self.phase {
            CreationPhase::Embedding => CreationRequest::Embed { sets: one_set(&self.entry.properties) },
            CreationPhase::Searching => CreationRequest::Search { index: 0, node_key: self.entry.node_key.clone() },
            CreationPhase::Neighbors => CreationRequest::Neighbors {
                candidate: self.candidates[self.found.len()].deep_clone(),
            },
            _ => CreationRequest::CreateNode {
                index: 0,
                node_key: self.entry.node_key.clone(),
                properties: clone_members(&self.entry.properties),
            },
        }
    }

    fn create(self) -> (r: (NodeCreation, CreationRequest))
        ensures
            (r.0@, r.1@) == (
                in_phase(self@, CreationPhase::Creating),
                CreationRequestView::CreateNode(0, self@.entry.node_key, self@.entry.properties),
            ),
    {
        let req = CreationRequest::CreateNode {
            index: 0,
            node_key: self.entry.node_key.clone(),
            properties: clone_members(&self.entry.properties),
        };
        let NodeCreation { entry, candidates, found, phase: _ } = self;
        (NodeCreation { entry, candidates, found, phase: CreationPhase::Creating }, req)
    }

    fn finished(self) -> (s: NodeCreation)
        ensures
            s@ == in_phase(self@, CreationPhase::Finished),
    {
        let NodeCreation { entry, candidates, found, phase: _ } = self;
        NodeCreation { entry, candidates, found, phase: CreationPhase::Finished }
    }

    /// One step: hands the outcome of the awaited request to the machine (see
    /// `node_creation_next`). Until it finishes, it awaits another event.
    pub fn step(self, ev: CreationEvent) -> (r: (NodeCreation, CreationRequest))
        requires
            node_creation_wf(self@),
        ensures
            (r.0@, r.1@) == node_creation_next(self@, ev@),
            !(r.1 is Finish) ==> node_creation_wf(r.0@),
    {
        let ghost s0 = self@;
        let ghost e0 = ev@;
        match ev {
            CreationEvent::Embedded(r) => {
                if self.phase != CreationPhase::Embedding {
                    let q = self.awaited();
                    return (self, q);
                }
                match r {
                    Err(e) => (self.finished(), CreationRequest::Finish(Err(prefixed("Embedding failed: ", e)))),
                    Ok(n) => if n == 0 {
                        (
                            self.finished(),
                            CreationRequest::Finish(Err(prefixed("Embedding failed: ", owned(NO_EMBEDDING)))),
                        )
                    } else if self.entry.force {
                        self.create()
                    } else {
                        let key = self.entry.node_key.clone();
                        let NodeCreation { entry, candidates, found, phase: _ } = self;
                        (
                            NodeCreation { entry, candidates, found, phase: CreationPhase::Searching },
                            CreationRequest::Search { index: 0, node_key: key },
                        )
                    },
                }
            },
            CreationEvent::Searched(r) => {
                if self.phase != CreationPhase::Searching {
                    let q = self.awaited();
                    return (self, q);
                }
                match r {
                    Err(e) => (
                        self.finished(),
                        CreationRequest::Finish(Err(prefixed("Entity resolution search failed: ", e))),
                    ),
                    Ok(h) => {
                        let close = close_hits_exec(&h);
                        if close.len() == 0 {
                            self.create()
                        } else {
                            let first = close[0].deep_clone();
                            let NodeCreation { entry, candidates: _, found: _, phase: _ } = self;
                            let s = NodeCreation {
                                entry,
                                candidates: close,
                                found: Vec::new(),
                                phase: CreationPhase::Neighbors,
                            };
                            assert(s@.found =~= Seq::<JsonView>::empty());
                            (s, CreationRequest::Neighbors { candidate: first })
                        }
                    },
                }
            },
            CreationEvent::NeighborsFound(n) => {
                if self.phase != CreationPhase::Neighbors {
                    let q = self.awaited();
                    return (self, q);
                }
                let NodeCreation { entry, candidates, mut found, phase } = self;
                let hit = candidates[found.len()].deep_clone();
                let c = with_neighbors_exec(hit, n);
                let ghost before = items_view(found@);
                found.push(c);
                assert(items_view(found@) =~= before.push(c@));
                if found.len() >= candidates.len() {
                    let answer = similar_answer_exec(clone_items(&found));
                    (
                        NodeCreation { entry, candidates, found, phase: CreationPhase::Finished },
                        CreationRequest::Finish(Ok(answer)),
                    )
                } else {
                    let next = candidates[found.len()].deep_clone();
                    (NodeCreation { entry, candidates, found, phase }, CreationRequest::Neighbors { candidate: next })
                }
            },
            CreationEvent::Created(r) => {
                if self.phase != CreationPhase::Creating {
                    let q = self.awaited();
                    return (self, q);
                }
                match r {
                    Ok(node) => (self.finished(), CreationRequest::Finish(Ok(mark_created(node)))),
                    Err(e) => (self.finished(), CreationRequest::Finish(Err(prefixed("Failed to create node: ", e)))),
                }
            },
        }
    }
}

// ---------------------------------------------------------------------------
// create_nodes
// ---------------------------------------------------------------------------

/// A batch of nodes: all embedded in one call, then one after another
/// resolved and, unless a close match exists, created; a failed creation is
/// recorded and the batch goes on.
#[derive(Debug)]
pub struct NodeBatch {
    entries: Vec<NodeEntry>,
    index: usize,
    results: Vec<Json>,
    phase: CreationPhase,
}

pub struct NodeBatchView {
    pub entries: Seq<NodeEntryView>,
    /// The node being handled.
    pub index: nat,
    /// The answers for the nodes before it.
    pub results: Seq<JsonView>,
    pub phase: CreationPhase,
}

impl View for NodeBatch {
    type V = NodeBatchView;

    closed spec fn view(&self) -> NodeBatchView {
        NodeBatchView {
            entries: entries_view(self.entries@),
            index: self.index as nat,
            results: items_view(self.results@),
            phase: self.phase,
        }
    }
}

/// The answers are one per item so far, each led by its item's index.
pub open spec fn answers_in_order(results: Seq<JsonView>) -> bool {
    forall|k: int|
        0 <= k < results.len() ==> (#[trigger] results[k]) is Object && results[k]->Object_0.len() > 0
            && results[k]->Object_0[0] == ("index"@, index_json_view(k as nat))
}

/// A batch that still awaits an event.
pub open spec fn node_batch_wf(s: NodeBatchView) -> bool {
    &&& s.index <= s.entries.len()
    &&& s.results.len() == s.index
    &&& answers_in_order(s.results)
    &&& s.phase == CreationPhase::Embedding ==> s.index == 0
    &&& s.phase == CreationPhase::Searching ==> s.index < s.entries.len() && !s.entries[s.index as int].force
    &&& (s.phase == CreationPhase::Searching || s.phase == CreationPhase::Creating) ==> s.index < s.entries.len()
    &&& s.phase != CreationPhase::Neighbors
    &&& s.phase != CreationPhase::Finished
}

/// The properties of each node, in order: what is embedded.
pub open spec fn entry_sets(es: Seq<NodeEntryView>) -> Seq<Seq<(Seq<char>, JsonView)>> {
    Seq::new(es.len(), |i: int| es[i].properties)
}

pub open spec fn node_batch_at(s: NodeBatchView, i: nat, results: Seq<JsonView>, phase: CreationPhase) -> NodeBatchView {
    NodeBatchView { entries: s.entries, index: i, results, phase }
}

/// Going on with node `i`: past the last node the batch answers with the list
/// of results; a forced node is created at once, any other is searched first.
pub open spec fn node_batch_visit(s: NodeBatchView, i: nat, results: Seq<JsonView>) -> (NodeBatchView, CreationRequestView) {
    if i >= s.entries.len() {
        (node_batch_at(s, i, results, CreationPhase::Finished), CreationRequestView::Finish(Ok(JsonView::Array(results))))
    } else if s.entries[i as int].force {
        (
            node_batch_at(s, i, results, CreationPhase::Creating),
            CreationRequestView::CreateNode(i, s.entries[i as int].node_key, s.entries[i as int].properties),
        )
    } else {
        (
            node_batch_at(s, i, results, CreationPhase::Searching),
            CreationRequestView::Search(i, s.entries[i as int].node_key),
        )
    }
}

pub open spec fn node_batch_start(entries: Seq<NodeEntryView>) -> (NodeBatchView, CreationRequestView) {
    (
        NodeBatchView { entries, index: 0, results: Seq::empty(), phase: CreationPhase::Embedding },
        CreationRequestView::Embed(entry_sets(entries)),
    )
}

pub open spec fn node_batch_awaited(s: NodeBatchView) -> CreationRequestView {
    match s.phase {
        CreationPhase::Embedding => CreationRequestView::Embed(entry_sets(s.entries)),
        CreationPhase::Searching => CreationRequestView::Search(s.index, s.entries[s.index as int].node_key),
        _ => CreationRequestView::CreateNode(
            s.index,
            s.entries[s.index as int].node_key,
            s.entries[s.index as int].properties,
        ),
    }
}

/// The next state and request once `ev` came in; an event that is not the one
/// awaited changes nothing.
pub open spec fn node_batch_next(s: NodeBatchView, ev: CreationEventView) -> (NodeBatchView, CreationRequestView) {
    let finished = node_batch_at(s, s.index, s.results, CreationPhase::Finished);
    let ignored = (s, node_batch_awaited(s));
    match ev {
        CreationEventView::Embedded(r) => if s.phase == CreationPhase::Embedding {
            match r {
                Err(e) => (finished, CreationRequestView::Finish(Err("Batch embedding failed: "@ + e))),
                Ok(n) => if n != s.entries.len() {
                    (finished, CreationRequestView::Finish(Err(count_mismatch(n, s.entries.len()))))
                } else {
                    node_batch_visit(s, 0, s.results)
                },
            }
        } else {
            ignored
        },
        CreationEventView::Searched(r) => if s.phase == CreationPhase::Searching {
            match r {
                Err(e) => (
                    finished,
                    CreationRequestView::Finish(
                        Err(item_label("nodes"@, s.index) + "entity resolution failed: "@ + e),
                    ),
                ),
                Ok(h) => if close_hits(h).len() > 0 {
                    node_batch_visit(s, s.index + 1, s.results.push(similar_item(s.index, close_hits(h))))
                } else {
                    (
                        node_batch_at(s, s.index, s.results, CreationPhase::Creating),
                        CreationRequestView::CreateNode(
                            s.index,
                            s.entries[s.index as int].node_key,
                            s.entries[s.index as int].properties,
                        ),
                    )
                },
            }
        } else {
            ignored
        },
        CreationEventView::Created(r) => if s.phase == CreationPhase::Creating {
            match r {
                Ok(node) => node_batch_visit(s, s.index + 1, s.results.push(created_node_item(s.index, node))),
                Err(e) => node_batch_visit(s, s.index + 1, s.results.push(failed_item(s.index, e))),
            }
        } else {
            ignored
        },
        CreationEventView::NeighborsFound(_) => ignored,
    }
}

fn entry_sets_exec(entries: &Vec<NodeEntry>) -> (v: Vec<Vec<(String, Json)>>)
    ensures
        property_sets_view(v@) == entry_sets(entries_view(entries@)),
{
    let ghost want = entry_sets(entries_view(entries@));
    let mut v: Vec<Vec<(String, Json)>> = Vec::new();
    let mut i: usize = 0;
    while i < entries.len()
        invariant
            i <= entries@.len(),
            want == entry_sets(entries_view(entries@)),
            property_sets_view(v@) == want.take(i as int),
        decreases entries.len() - i,
    {
        let ghost before = property_sets_view(v@);
        let c = clone_members(&entries[i].properties);
        assert(want[i as int] == members_view(entries@[i as int].properties@));
        v.push(c);
        assert(property_sets_view(v@) =~= before.push(members_view(c@)));
        assert(property_sets_view(v@) =~= want.take(i + 1));
        i = i + 1;
    }
    assert(want.take(entries.len() as int) =~= want);
    v
}

fn node_batch_visit_exec(entries: Vec<NodeEntry>, i: usize, results: Vec<Json>) -> (r: (NodeBatch, CreationRequest))
    requires
        i <= entries@.len(),
        results@.len() == i,
        answers_in_order(items_view(results@)),
    ensures
        (r.0@, r.1@) == node_batch_visit(
            NodeBatchView { entries: entries_view(entries@), index: 0, results: Seq::empty(), phase: CreationPhase::Embedding },
            i as nat,
            items_view(results@),
        ),
        !(r.1 is Finish) ==> node_batch_wf(r.0@),
{
    if i >= entries.len() {
        let answer = array_of(clone_items(&results));
        (NodeBatch { entries, index: i, results, phase: CreationPhase::Finished }, CreationRequest::Finish(Ok(answer)))
    } else if entries[i].force {
        let key = entries[i].node_key.clone();
        let props = clone_members(&entries[i].properties);
        (
            NodeBatch { entries, index: i, results, phase: CreationPhase::Creating },
            CreationRequest::CreateNode { index: i, node_key: key, properties: props },
        )
    } else {
        let key = entries[i].node_key.clone();
        (
            NodeBatch { entries, index: i, results, phase: CreationPhase::Searching },
            CreationRequest::Search { index: i, node_key: key },
        )
    }
}

fn push_result(results: &mut Vec<Json>, j: Json)
    requires
        answers_in_order(items_view(old(results)@)),
        j@ is Object,
        j@->Object_0.len() > 0,
        j@->Object_0[0] == ("index"@, index_json_view(old(results)@.len() as nat)),
    ensures
        items_view(final(results)@) == items_view(old(results)@).push(j@),
        final(results)@.len() == old(results)@.len() + 1,
        answers_in_order(items_view(final(results)@)),
{
    let ghost before = items_view(results@);
    results.push(j);
    assert(items_view(results@) =~= before.push(j@));
    assert forall|k: int| 0 <= k < before.len() + 1 implies (#[trigger] before.push(j@)[k]) is Object
        && before.push(j@)[k]->Object_0.len() > 0 && before.push(j@)[k]->Object_0[0] == (
        "index"@,
        index_json_view(k as nat),
    ) by {
        if k < before.len() {
            assert(before.push(j@)[k] == before[k]);
        }
    }
}

impl NodeBatch {
    /// The start: every node's properties are embedded in one call.
    pub fn start(entries: Vec<NodeEntry>) -> (r: (NodeBatch, CreationRequest))
        ensures
            (r.0@, r.1@) == node_batch_start(entries_view(entries@)),
            node_batch_wf(r.0@),
    {
        let sets = entry_sets_exec(&entries);
        let s = NodeBatch { entries, index: 0, results: Vec::new(), phase: CreationPhase::Embedding };
        assert(s@.results =~= Seq::<JsonView>::empty());
        (s, CreationRequest::Embed { sets })
    }

    fn awaited(&self) -> (r: CreationRequest)
        requires
            node_batch_wf(self@),
        ensures
            r@ == node_batch_awaited(self@),
    {
        match self.phase {
            CreationPhase::Embedding => CreationRequest::Embed { sets: entry_sets_exec(&self.entries) },
            CreationPhase::Searching => CreationRequest::Search {
                index: self.index,
                node_key: self.entries[self.index].node_key.clone(),
            },
            _ => CreationRequest::CreateNode {
                index: self.index,
                node_key: self.entries[self.index].node_key.clone(),
                properties: clone_members(&self.entries[self.index].properties),
            },
        }
    }

    /// One step: hands the outcome of the awaited request to the batch (see
    /// `node_batch_next`). Until it finishes, it awaits another event.
    pub fn step(self, ev: CreationEvent) -> (r: (NodeBatch, CreationRequest))
        requires
            node_batch_wf(self@),
        ensures
            (r.0@, r.1@) == node_batch_next(self@, ev@),
            !(r.1 is Finish) ==> node_batch_wf(r.0@),
    {
        let ghost s0 = self@;
        assert(s0.entries.len() == self.entries@.len());
        assert(s0.index == self.index && s0.phase == self.phase);
        let _n = self.entries.len();
        match ev {
            CreationEvent::Embedded(r) => {
                if self.phase != CreationPhase::Embedding {
                    let q = self.awaited();
                    return (self, q);
                }
                let NodeBatch { entries, index, results, phase: _ } = self;
                match r {
                    Err(e) => (
                        NodeBatch { entries, index, results, phase: CreationPhase::Finished },
                        CreationRequest::Finish(Err(prefixed("Batch embedding failed: ", e))),
                    ),
                    Ok(n) => match check_embedding_count(n, entries.len()) {
                        Err(e) => (
                            NodeBatch { entries, index, results, phase: CreationPhase::Finished },
                            CreationRequest::Finish(Err(e)),
                        ),
                        Ok(_) => node_batch_visit_exec(entries, 0, results),
                    },
                }
            },
            CreationEvent::Searched(r) => {
                if self.phase != CreationPhase::Searching {
                    let q = self.awaited();
                    return (self, q);
                }
                let NodeBatch { entries, index, mut results, phase: _ } = self;
                assert(items_view(results@).len() == results@.len());
                assert(results@.len() == index);
                match r {
                    Err(e) => {
                        let mut m = crate::tool_executor::item_label_exec("nodes", index);
                        crate::text::append_str(&mut m, "entity resolution failed: ");
                        append_string(&mut m, &e);
                        (
                            NodeBatch { entries, index, results, phase: CreationPhase::Finished },
                            CreationRequest::Finish(Err(m)),
                        )
                    },
                    Ok(h) => {
                        let close = close_hits_exec(&h);
                        if close.len() > 0 {
                            let item = node_similar_item(index, array_of(close));
                            push_result(&mut results, item);
                            node_batch_visit_exec(entries, index + 1, results)
                        } else {
                            let key = entries[index].node_key.clone();
                            let props = clone_members(&entries[index].properties);
                            (
                                NodeBatch { entries, index, results, phase: CreationPhase::Creating },
                                CreationRequest::CreateNode { index, node_key: key, properties: props },
                            )
                        }
                    },
                }
            },
            CreationEvent::Created(r) => {
                if self.phase != CreationPhase::Creating {
                    let q = self.awaited();
                    return (self, q);
                }
                let NodeBatch { entries, index, mut results, phase: _ } = self;
                assert(items_view(results@).len() == results@.len());
                assert(results@.len() == index);
                let item = match r {
                    Ok(node) => node_created_item(
                        index,
                        field_or_null_exec(&node, "node_data_id"),
                        field_or_null_exec(&node, "key"),
                        field_or_null_exec(&node, "properties"),
                    ),
                    Err(e) => item_failed(index, e.as_str()),
                };
                push_result(&mut results, item);
                node_batch_visit_exec(entries, index + 1, results)
            },
            CreationEvent::NeighborsFound(_) => {
                let q = self.awaited();
                (self, q)
            },
        }
    }
}

// ---------------------------------------------------------------------------
// create_edges
// ---------------------------------------------------------------------------

/// A batch of edges: each item is read just before its edge is made; a bad
/// item ends the batch with its error (the edges before it stay made), a
/// failed creation is recorded and the batch goes on.
#[derive(Debug)]
pub struct EdgeBatch {
    items: Vec<Json>,
    index: usize,
    results: Vec<Json>,
    phase: CreationPhase,
}

pub struct EdgeBatchView {
    pub items: Seq<JsonView>,
    pub index: nat,
    pub results: Seq<JsonView>,
    pub phase: CreationPhase,
}

impl View for EdgeBatch {
    type V = EdgeBatchView;

    closed spec fn view(&self) -> EdgeBatchView {
        EdgeBatchView {
            items: items_view(self.items@),
            index: self.index as nat,
            results: items_view(self.results@),
            phase: self.phase,
        }
    }
}

/// A batch that awaits the creation of an edge.
pub open spec fn edge_batch_wf(s: EdgeBatchView) -> bool {
    &&& s.phase == CreationPhase::Creating
    &&& s.index < s.items.len()
    &&& s.results.len() == s.index
    &&& answers_in_order(s.results)
}

pub open spec fn edge_batch_at(s: EdgeBatchView, i: nat, results: Seq<JsonView>, phase: CreationPhase) -> EdgeBatchView {
    EdgeBatchView { items: s.items, index: i, results, phase }
}

/// Going on with item `i`: past the last the batch answers with the list of
/// results; a bad item ends it with its error; a good one is created.
pub open spec fn edge_batch_visit(s: EdgeBatchView, i: nat, results: Seq<JsonView>, schema: GraphSchemaView) -> (
    EdgeBatchView,
    CreationRequestView,
) {
    if i >= s.items.len() {
        (edge_batch_at(s, i, results, CreationPhase::Finished), CreationRequestView::Finish(Ok(JsonView::Array(results))))
    } else {
        match edge_item(i, s.items[i as int], schema) {
            Err(e) => (edge_batch_at(s, i, results, CreationPhase::Finished), CreationRequestView::Finish(Err(e))),
            Ok(edge) => (edge_batch_at(s, i, results, CreationPhase::Creating), CreationRequestView::CreateEdge(i, edge)),
        }
    }
}

pub open spec fn edge_batch_start(items: Seq<JsonView>, schema: GraphSchemaView) -> (EdgeBatchView, CreationRequestView) {
    edge_batch_visit(
        EdgeBatchView { items, index: 0, results: Seq::empty(), phase: CreationPhase::Creating },
        0,
        Seq::empty(),
        schema,
    )
}

/// The next state and request once the awaited edge was created, or failed.
pub open spec fn edge_batch_next(s: EdgeBatchView, created: Result<JsonView, Seq<char>>, schema: GraphSchemaView) -> (
    EdgeBatchView,
    CreationRequestView,
) {
    match created {
        Ok(edge) => edge_batch_visit(s, s.index + 1, s.results.push(created_edge_item(s.index, edge)), schema),
        Err(e) => edge_batch_visit(s, s.index + 1, s.results.push(failed_item(s.index, e)), schema),
    }
}

fn edge_batch_visit_exec(items: Vec<Json>, i: usize, results: Vec<Json>, schema: &GraphSchema) -> (r: (
    EdgeBatch,
    CreationRequest,
))
    requires
        i <= items@.len(),
        results@.len() == i,
        answers_in_order(items_view(results@)),
    ensures
        (r.0@, r.1@) == edge_batch_visit(
            EdgeBatchView { items: items_view(items@), index: 0, results: Seq::empty(), phase: CreationPhase::Creating },
            i as nat,
            items_view(results@),
            schema@,
        ),
        !(r.1 is Finish) ==> edge_batch_wf(r.0@),
{
    if i >= items.len() {
        let answer = array_of(clone_items(&results));
        return (EdgeBatch { items, index: i, results, phase: CreationPhase::Finished }, CreationRequest::Finish(Ok(answer)));
    }
    match edge_item_exec(i, &items[i], schema) {
        Err(e) => (EdgeBatch { items, index: i, results, phase: CreationPhase::Finished }, CreationRequest::Finish(Err(e))),
        Ok(edge) => (
            EdgeBatch { items, index: i, results, phase: CreationPhase::Creating },
            CreationRequest::CreateEdge { index: i, edge },
        ),
    }
}

impl EdgeBatch {
    /// The start: the first item is read (see `edge_batch_start`).
    pub fn start(items: Vec<Json>, schema: &GraphSchema) -> (r: (EdgeBatch, CreationRequest))
        ensures
            (r.0@, r.1@) == edge_batch_start(items_view(items@), schema@),
            !(r.1 is Finish) ==> edge_batch_wf(r.0@),
    {
        let results: Vec<Json> = Vec::new();
        assert(items_view(results@) =~= Seq::<JsonView>::empty());
        edge_batch_visit_exec(items, 0, results, schema)
    }

    /// One step: hands the outcome of the awaited creation to the batch (see
    /// `edge_batch_next`). Until it finishes, it awaits another creation.
    pub fn step(self, created: Result<Json, String>, schema: &GraphSchema) -> (r: (EdgeBatch, CreationRequest))
        requires
            edge_batch_wf(self@),
        ensures
            (r.0@, r.1@) == edge_batch_next(self@, json_result_view(created), schema@),
            !(r.1 is Finish) ==> edge_batch_wf(r.0@),
    {
        assert(self@.items.len() == self.items@.len());
        let _n = self.items.len();
        let EdgeBatch { items, index, mut results, phase: _ } = self;
        assert(items_view(results@).len() == results@.len());
        assert(results@.len() == index);
        let item = match created {
            Ok(edge) => edge_created_item(
                index,
                field_or_null_exec(&edge, "key"),
                field_or_null_exec(&edge, "from_node_data_id"),
                field_or_null_exec(&edge, "to_node_data_id"),
            ),
            Err(e) => item_failed(index, e.as_str()),
        };
        push_result(&mut results, item);
        edge_batch_visit_exec(items, index + 1, results, schema)
    }
}

// ---------------------------------------------------------------------------
// Laws of the batches
// ---------------------------------------------------------------------------

/// A node batch answers every node, in order, each answer led by the node's
/// index; a forced node is never searched; until it finishes, the batch
/// awaits another event.
pub proof fn law_node_batch_answers_every_node(s: NodeBatchView, ev: CreationEventView)
    requires
        node_batch_wf(s),
    ensures
        ({
            let (s2, r) = node_batch_next(s, ev);
            &&& r matches CreationRequestView::Finish(Ok(JsonView::Array(a))) ==> a.len() == s.entries.len()
                && answers_in_order(a)
            &&& r matches CreationRequestView::Search(i, _) ==> i < s.entries.len() && !s.entries[i as int].force
            &&& !(r is Finish) ==> node_batch_wf(s2)
        }),
{
}

/// An edge batch that runs through answers every item, in order, each answer
/// led by the item's index; until it finishes, it awaits another creation.
pub proof fn law_edge_batch_answers_every_item(
    s: EdgeBatchView,
    created: Result<JsonView, Seq<char>>,
    schema: GraphSchemaView,
)
    requires
        edge_batch_wf(s),
    ensures
        ({
            let (s2, r) = edge_batch_next(s, created, schema);
            &&& r matches CreationRequestView::Finish(Ok(JsonView::Array(a))) ==> a.len() == s.items.len()
                && answers_in_order(a)
            &&& !(r is Finish) ==> edge_batch_wf(s2)
        }),
{
}

} // verus!
