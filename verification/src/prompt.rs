//! The system prompt of the agent, built from the graph's current schema.
use vstd::prelude::*;
use crate::graph::{GraphSchema, GraphSchemaView, TypeSchema, TypeSchemaView};
use crate::json::flatten_back;
use crate::text::{append_str, append_string, occurs_at};

verus! {

pub const IDENTITY: &'static str = "You are a knowledge assistant. You help users organize, explore, and make sense of \
         their information by storing it in a structured knowledge base.\n\n\
         **Communication style:**\n\
         - Write for domain experts who are not necessarily technical.\n\
         - Avoid graph jargon (nodes, edges, schemas, keys). Talk about \"types\", \
         \"connections\", \"details\", \"categories\".\n\
         - Be concise and action-oriented. The user wants results, not plans.\n\
         - When you describe what you found, use bullet points, not long paragraphs.\n\n";

pub const CATEGORIES_HEADING: &'static str = "## Current Categories\n\n";

pub const NO_CATEGORIES: &'static str = "No categories have been defined yet. You will create them during extraction.\n\n";

pub const ENTITY_TYPES_HEADING: &'static str = "**Entity types:**\n";

pub const CONNECTION_TYPES_HEADING: &'static str = "**Connection types:**\n";

pub const STORE_HEADING: &'static str = "## How to Store Information\n\n";

pub const STORE_WORKFLOW: &'static str = "When the user shares information or a document, follow these phases **in order**.\n\n\
         ### Phase 1 — Understand & Propose\n\
         Analyse the content. Respond with:\n\
         - A short summary of the main entities and connections you found.\n\
         - A list of any **new** categories you would create (entity types AND connection \
         types). For each, give a name and one-sentence description.\n\
         - Ask the user to confirm or adjust.\n\n\
         **Skip this phase** if the user explicitly says \"just extract it\" / \"go ahead\", \
         or if every category you need already exists.\n\n\
         ### Phase 2 — Create Categories\n\
         Create all the categories you need **before** storing any data.\n\
         - Use `create_schema` for entity types, `create_edge_schema` for connection types.\n\
         - Each tool returns a **key** (e.g. `aBc12xYz`). You **must** use these keys in \
         all subsequent tool calls — never use the human-readable label as a key.\n\
         - Reuse existing categories when they fit. Only create genuinely new ones.\n\
         - Do **not** proceed to Phase 3 until every category you need has a key.\n\n\
         ### Phase 3 — Store Entities\n\
         Use `create_nodes` (batch, up to 50) to create all entities at once.\n\
         - Use the schema **keys** from Phase 2.\n\
         - The system checks for duplicates automatically. Some entries may come back as \
         \"not created\" with similar existing entries. Use `update_node` to merge new \
         details into the existing entry instead of forcing a duplicate.\n\
         - Note down each `node_data_id` returned — you need them for edges.\n\n\
         ### Phase 4 — Connect Entities\n\
         Use `create_edges` (batch, up to 50) to create all connections at once.\n\
         - Use edge schema **keys** from Phase 2.\n\
         - Use `node_data_id` values from Phase 3 (or from existing nodes).\n\
         - Only reference nodes that were successfully created or already existed.\n\
         - Connections are automatically merged if they already exist.\n\n\
         ### Phase 5 — Done\n\
         Call `done` with a brief, friendly summary of what was stored.\n\n";

pub const ANSWER_HEADING: &'static str = "## How to Answer Questions\n\n";

pub const ANSWER_WORKFLOW: &'static str = "When the user asks a question:\n\
         1. Search the knowledge base with `search_nodes`.\n\
         2. Explore connections with `get_neighbors` or `find_paths` if needed.\n\
         3. Answer based on what you find. If nothing relevant is stored, say so.\n\
         4. Call `done` when finished.\n\n";

pub const RULES_HEADING: &'static str = "## Rules\n\n";

pub const RULES: &'static str = "- **Keys vs labels.** Tools require the 8-character schema key (like `aBc12xYz`), \
         never the human-readable label. The key is returned when you create a category.\n\
         - **Human-readable property names.** Use natural names: \"Founded Date\" not \
         \"founded_date\", \"Full Name\" not \"full_name\".\n\
         - **Extract thoroughly.** Don't skip details. Every relevant fact should be stored.\n\
         - **Free-form details.** You decide what details to store on each entity — include \
         all relevant information as key-value pairs.\n\
         - **Batch first.** Always prefer `create_nodes` / `create_edges` over the singular \
         `create_node` / `create_edge`. The singular tools are only for one-off additions.\n";

/// The line that presents a type: `- {label} (key: `{key}`): {description}`.
pub open spec fn type_line(t: TypeSchemaView) -> Seq<char> {
    "- "@ + t.label + " (key: `"@ + t.key + "`): "@ + t.description + "\n"@
}

pub open spec fn type_lines(ts: Seq<TypeSchemaView>) -> Seq<char> {
    flatten_back(Seq::new(ts.len(), |i: int| type_line(ts[i])))
}

/// The section that lists the current node and edge types.
pub open spec fn categories_section(s: GraphSchemaView) -> Seq<char> {
    if s.nodes.len() == 0 && s.edges.len() == 0 {
        NO_CATEGORIES@
    } else {
        (if s.nodes.len() > 0 {
            ENTITY_TYPES_HEADING@ + type_lines(s.nodes) + "\n"@
        } else {
            Seq::empty()
        }) + (if s.edges.len() > 0 {
            CONNECTION_TYPES_HEADING@ + type_lines(s.edges) + "\n"@
        } else {
            Seq::empty()
        })
    }
}

/// The agent's system prompt for a graph with schema `s`.
pub open spec fn system_prompt(s: GraphSchemaView) -> Seq<char> {
    IDENTITY@ + CATEGORIES_HEADING@ + categories_section(s) + STORE_HEADING@ + STORE_WORKFLOW@
        + ANSWER_HEADING@ + ANSWER_WORKFLOW@ + RULES_HEADING@ + RULES@
}

fn push_type_lines(prompt: &mut String, ts: &Vec<TypeSchema>)
    ensures
        final(prompt)@ == old(prompt)@ + type_lines(Seq::new(ts@.len(), |i: int| ts@[i]@)),
{
    let ghost tv = Seq::new(ts@.len(), |i: int| ts@[i]@);
    let ghost lines = Seq::new(tv.len(), |i: int| type_line(tv[i]));
    let ghost start = prompt@;
    let mut i: usize = 0;
    while i < ts.len()
        invariant
            tv == Seq::new(ts@.len(), |i: int| ts@[i]@),
            lines == Seq::new(tv.len(), |i: int| type_line(tv[i])),
            i <= ts.len(),
            prompt@ == start + flatten_back(lines.take(i as int)),
        decreases ts.len() - i,
    {
        let t = &ts[i];
        append_str(prompt, "- ");
        append_string(prompt, &t.label);
        append_str(prompt, " (key: `");
        append_string(prompt, &t.key);
        append_str(prompt, "`): ");
        append_string(prompt, &t.description);
        append_str(prompt, "\n");
        assert(lines.take(i + 1).drop_last() =~= lines.take(i as int));
        assert(prompt@ =~= start + flatten_back(lines.take(i + 1)));
        i = i + 1;
    }
    assert(lines.take(ts.len() as int) =~= lines);
}

/// The agent's system prompt: who it is, the graph's current types, and how to
/// store information and answer questions.
pub fn build_system_prompt(schema: &GraphSchema) -> (prompt: String)
    ensures
        prompt@ == system_prompt(schema@),
{
    let mut prompt = String::new();
    append_str(&mut prompt, IDENTITY);
    append_str(&mut prompt, CATEGORIES_HEADING);
    let ghost before = prompt@;
    if schema.nodes.len() == 0 && schema.edges.len() == 0 {
        append_str(&mut prompt, NO_CATEGORIES);
    } else {
        if schema.nodes.len() > 0 {
            append_str(&mut prompt, ENTITY_TYPES_HEADING);
            push_type_lines(&mut prompt, &schema.nodes);
            append_str(&mut prompt, "\n");
        }
        let ghost mid = prompt@;
        if schema.edges.len() > 0 {
            append_str(&mut prompt, CONNECTION_TYPES_HEADING);
            push_type_lines(&mut prompt, &schema.edges);
            append_str(&mut prompt, "\n");
        }
        assert(prompt@ =~= before + categories_section(schema@));
    }
    assert(prompt@ =~= before + categories_section(schema@));
    append_str(&mut prompt, STORE_HEADING);
    append_str(&mut prompt, STORE_WORKFLOW);
    append_str(&mut prompt, ANSWER_HEADING);
    append_str(&mut prompt, ANSWER_WORKFLOW);
    append_str(&mut prompt, RULES_HEADING);
    append_str(&mut prompt, RULES);
    assert(prompt@ =~= system_prompt(schema@));
    prompt
}

/// `x` occurs somewhere in `p`.
pub open spec fn occurs_in(p: Seq<char>, x: Seq<char>) -> bool {
    exists|i: int| #[trigger] occurs_at(p, x, i)
}

/// A text that occurs in `x` occurs, shifted, in `a + x + b`.
pub proof fn lemma_occurs_in_context(a: Seq<char>, x: Seq<char>, b: Seq<char>, pat: Seq<char>, i: int)
    requires
        occurs_at(x, pat, i),
    ensures
        occurs_at(a + x + b, pat, a.len() + i),
{
    assert((a + x + b).subrange(a.len() + i, a.len() + i + pat.len()) =~= x.subrange(i, i + pat.len()));
}

/// Each part of a concatenation occurs in it.
pub proof fn lemma_part_occurs(ls: Seq<Seq<char>>, k: int) -> (off: int)
    requires
        0 <= k < ls.len(),
    ensures
        occurs_at(flatten_back(ls), ls[k], off),
    decreases ls.len(),
{
    let prev = flatten_back(ls.drop_last());
    if k == ls.len() - 1 {
        assert(ls[k].subrange(0, ls[k].len() as int) =~= ls[k]);
        lemma_occurs_in_context(prev, ls[k], Seq::empty(), ls[k], 0);
        assert(prev + ls[k] + Seq::<char>::empty() =~= flatten_back(ls));
        prev.len() as int
    } else {
        assert(ls.drop_last()[k] == ls[k]);
        let o = lemma_part_occurs(ls.drop_last(), k);
        lemma_occurs_in_context(Seq::empty(), prev, ls.last(), ls[k], o);
        assert(Seq::<char>::empty() + prev + ls.last() =~= flatten_back(ls));
        o
    }
}

proof fn lemma_type_line_occurs(heading: Seq<char>, ts: Seq<TypeSchemaView>, k: int) -> (off: int)
    requires
        0 <= k < ts.len(),
    ensures
        occurs_at(heading + type_lines(ts) + "\n"@, type_line(ts[k]), off),
{
    let ls = Seq::new(ts.len(), |i: int| type_line(ts[i]));
    let o = lemma_part_occurs(ls, k);
    lemma_occurs_in_context(heading, type_lines(ts), "\n"@, type_line(ts[k]), o);
    heading.len() + o
}

/// The system prompt presents every type of the schema, each on a line of its
/// own that gives its label, key and description, and announces the
/// connection types whenever there are some.
pub proof fn law_prompt_presents_every_type(s: GraphSchemaView)
    ensures
        forall|k: int|
            0 <= k < s.nodes.len() ==> occurs_in(
                system_prompt(s),
                "- "@ + (#[trigger] s.nodes[k]).label + " (key: `"@ + s.nodes[k].key + "`): "@
                    + s.nodes[k].description + "\n"@,
            ),
        forall|k: int|
            0 <= k < s.edges.len() ==> occurs_in(
                system_prompt(s),
                "- "@ + (#[trigger] s.edges[k]).label + " (key: `"@ + s.edges[k].key + "`): "@
                    + s.edges[k].description + "\n"@,
            ),
        s.edges.len() > 0 ==> occurs_in(system_prompt(s), "**Connection types:**\n"@),
{
    reveal_strlit("**Connection types:**\n");
    let pre = IDENTITY@ + CATEGORIES_HEADING@;
    let post = STORE_HEADING@ + STORE_WORKFLOW@ + ANSWER_HEADING@ + ANSWER_WORKFLOW@ + RULES_HEADING@ + RULES@;
    let cat = categories_section(s);
    assert(system_prompt(s) =~= pre + cat + post);
    let ns = if s.nodes.len() > 0 {
        ENTITY_TYPES_HEADING@ + type_lines(s.nodes) + "\n"@
    } else {
        Seq::empty()
    };
    let es = if s.edges.len() > 0 {
        CONNECTION_TYPES_HEADING@ + type_lines(s.edges) + "\n"@
    } else {
        Seq::empty()
    };
    if s.nodes.len() > 0 || s.edges.len() > 0 {
        assert(cat == ns + es);
    }
    assert forall|k: int| 0 <= k < s.nodes.len() implies occurs_in(
        system_prompt(s),
        "- "@ + (#[trigger] s.nodes[k]).label + " (key: `"@ + s.nodes[k].key + "`): "@
            + s.nodes[k].description + "\n"@,
    ) by {
        let line = type_line(s.nodes[k]);
        let o = lemma_type_line_occurs(ENTITY_TYPES_HEADING@, s.nodes, k);
        lemma_occurs_in_context(Seq::empty(), ns, es, line, o);
        assert(Seq::<char>::empty() + ns + es =~= cat);
        lemma_occurs_in_context(pre, cat, post, line, o);
        assert(occurs_at(system_prompt(s), line, pre.len() + o));
    }
    assert forall|k: int| 0 <= k < s.edges.len() implies occurs_in(
        system_prompt(s),
        "- "@ + (#[trigger] s.edges[k]).label + " (key: `"@ + s.edges[k].key + "`): "@
            + s.edges[k].description + "\n"@,
    ) by {
        let line = type_line(s.edges[k]);
        let o = lemma_type_line_occurs(CONNECTION_TYPES_HEADING@, s.edges, k);
        lemma_occurs_in_context(ns, es, Seq::empty(), line, o);
        assert(ns + es + Seq::<char>::empty() =~= cat);
        lemma_occurs_in_context(pre, cat, post, line, ns.len() + o);
        assert(occurs_at(system_prompt(s), line, pre.len() + ns.len() + o));
    }
    if s.edges.len() > 0 {
        let h = CONNECTION_TYPES_HEADING@;
        assert(h == "**Connection types:**\n"@);
        assert(h.subrange(0, h.len() as int) =~= h);
        lemma_occurs_in_context(Seq::empty(), h, type_lines(s.edges) + "\n"@, h, 0);
        assert(Seq::<char>::empty() + h + (type_lines(s.edges) + "\n"@) =~= es);
        lemma_occurs_in_context(ns, es, Seq::empty(), h, 0);
        assert(ns + es + Seq::<char>::empty() =~= cat);
        lemma_occurs_in_context(pre, cat, post, h, ns.len() as int);
        assert(occurs_at(system_prompt(s), h, (pre.len() + ns.len()) as int));
    }
}

} // verus!
