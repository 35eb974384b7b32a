//! The agent's decisions. The agent works through the parts of a user message:
//! for each part it asks the model, runs the tools the model calls, reloads the
//! schema when a tool changed it, and stops when the model answers without tool
//! calls, when the `done` tool succeeds, or at the iteration limit. A multi-part
//! document ends with a summary turn. The caller performs each request (model call,
//! tool run, schema reload) and hands back its outcome; every step also yields the
//! events to stream to the client and the messages to store, in order.
use vstd::prelude::*;
use crate::graph::{GraphSchema, GraphSchemaView};
use crate::messages::{
    assistant_view, calls_view, duplicate_calls, duplicate_messages, messages_view,
    opt_calls_view, system_view, tool_view, user_view, Message, MessageView, SessionMessageRole,
    ToolCall, ToolCallView,
};
use crate::chunking::{doc_prefix, find_first, lemma_find_first, msg_separator, parse_document_spec};
use crate::text::occurs_at;
use crate::prompt::{build_system_prompt, system_prompt};
use crate::text::{
    append_str, append_string, clone_opt, decimal, decimal_string, opt_view, owned, strings_view,
};

verus! {

/// The most model calls with tool use over one user message.
pub const MAX_TOOL_ITERATIONS: usize = 200;

pub const LIMIT_REACHED: &'static str = "Maximum tool call limit reached.";

pub const TASK_COMPLETED: &'static str = "Task completed.";

pub const PROCESSING_COMPLETE: &'static str = "Document processing complete.";

pub const FINALISING: &'static str = "Finalising \u{2014} preparing summary\u{2026}";

pub const SUMMARY_REQUEST: &'static str = "All parts of the document have been processed. Provide a concise summary of everything you extracted and stored in the graph.";

/// An event streamed to the client.
#[derive(Debug)]
pub enum AgentEvent {
    Text { content: String },
    ToolCall { tool_call_id: String, name: String, arguments: String },
    ToolResult { tool_call_id: String, content: String },
    Done { summary: String },
    Error { message: String },
    Progress { content: String },
}

/// A message to store in the session.
#[derive(Debug)]
pub struct NewSessionMessage {
    pub role: SessionMessageRole,
    pub content: String,
    pub tool_calls: Option<String>,
    pub tool_call_id: Option<String>,
    pub document_id: Option<String>,
    pub document_name: Option<String>,
    pub chunk_index: Option<i32>,
}

/// Something to do right away, in order.
#[derive(Debug)]
pub enum Effect {
    Send(AgentEvent),
    Persist(Vec<NewSessionMessage>),
}

/// What the caller must do next and report back.
#[derive(Debug)]
pub enum AgentRequest {
    /// Call the model with these messages, offering the tools when `with_tools`.
    CallModel { messages: Vec<Message>, with_tools: bool },
    /// Run this tool call.
    RunTool { call: ToolCall },
    /// Reload the graph's schema.
    ReloadSchema,
    /// Nothing more: the turn is over.
    Finish,
}

/// The model's answer: its text, its tool calls, and those calls as JSON text.
#[derive(Debug)]
pub struct ModelReply {
    pub content: Option<String>,
    pub tool_calls: Vec<ToolCall>,
    pub tool_calls_json: Option<String>,
}

/// The outcome of a tool run.
#[derive(Debug)]
pub struct ToolResult {
    pub content: String,
    pub schema_changed: bool,
    pub is_done: bool,
}

/// The outcome of a request.
#[derive(Debug)]
pub enum AgentInput {
    Reply(ModelReply),
    ToolDone(ToolResult),
    SchemaReloaded(GraphSchema),
}

#[derive(Clone, Copy, PartialEq, Eq, Debug, Structural)]
pub enum AgentPhase {
    AwaitModel,
    AwaitTool,
    AwaitSchema,
    AwaitSummary,
    Finished,
}

/// The agent's state over one user message.
#[derive(Debug)]
pub struct AgentLoop {
    user_message: String,
    document_id: Option<String>,
    messages: Vec<Message>,
    chunks: Vec<String>,
    chunk_idx: usize,
    iteration: usize,
    pending: Vec<NewSessionMessage>,
    calls: Vec<ToolCall>,
    call_idx: usize,
    schema_changed: bool,
    phase: AgentPhase,
}

// ---------------------------------------------------------------------------
// Views
// ---------------------------------------------------------------------------

pub enum EventView {
    Text(Seq<char>),
    ToolCall(Seq<char>, Seq<char>, Seq<char>),
    ToolResult(Seq<char>, Seq<char>),
    Done(Seq<char>),
    Error(Seq<char>),
    Progress(Seq<char>),
}

pub struct RecordView {
    pub role: SessionMessageRole,
    pub content: Seq<char>,
    pub tool_calls: Option<Seq<char>>,
    pub tool_call_id: Option<Seq<char>>,
    pub document_id: Option<Seq<char>>,
    pub document_name: Option<Seq<char>>,
    pub chunk_index: Option<i32>,
}

pub enum EffectView {
    Send(EventView),
    Persist(Seq<RecordView>),
}

pub enum RequestView {
    CallModel(Seq<MessageView>, bool),
    RunTool(ToolCallView),
    ReloadSchema,
    Finish,
}

pub struct ReplyView {
    pub content: Option<Seq<char>>,
    pub tool_calls: Seq<ToolCallView>,
    pub tool_calls_json: Option<Seq<char>>,
}

pub struct OutcomeView {
    pub content: Seq<char>,
    pub schema_changed: bool,
    pub is_done: bool,
}

pub enum InputView {
    Reply(ReplyView),
    ToolDone(OutcomeView),
    SchemaReloaded(GraphSchemaView),
}

pub struct StateView {
    pub user_message: Seq<char>,
    pub document_id: Option<Seq<char>>,
    pub messages: Seq<MessageView>,
    pub chunks: Seq<Seq<char>>,
    pub chunk_idx: nat,
    pub iteration: nat,
    pub pending: Seq<RecordView>,
    pub calls: Seq<ToolCallView>,
    pub call_idx: nat,
    pub schema_changed: bool,
    pub phase: AgentPhase,
}

impl View for AgentEvent {
    type V = EventView;

    open spec fn view(&self) -> EventView {
        match self {
            AgentEvent::Text { content } => EventView::Text(content@),
            AgentEvent::ToolCall { tool_call_id, name, arguments } => EventView::ToolCall(
                tool_call_id@,
                name@,
                arguments@,
            ),
            AgentEvent::ToolResult { tool_call_id, content } => EventView::ToolResult(
                tool_call_id@,
                content@,
            ),
            AgentEvent::Done { summary } => EventView::Done(summary@),
            AgentEvent::Error { message } => EventView::Error(message@),
            AgentEvent::Progress { content } => EventView::Progress(content@),
        }
    }
}

impl View for NewSessionMessage {
    type V = RecordView;

    open spec fn view(&self) -> RecordView {
        RecordView {
            role: self.role,
            content: self.content@,
            tool_calls: opt_view(self.tool_calls),
            tool_call_id: opt_view(self.tool_call_id),
            document_id: opt_view(self.document_id),
            document_name: opt_view(self.document_name),
            chunk_index: self.chunk_index,
        }
    }
}

pub open spec fn records_view(v: Seq<NewSessionMessage>) -> Seq<RecordView> {
    Seq::new(v.len(), |i: int| v[i]@)
}

impl View for Effect {
    type V = EffectView;

    open spec fn view(&self) -> EffectView {
        match self {
            Effect::Send(e) => EffectView::Send(e@),
            Effect::Persist(v) => EffectView::Persist(records_view(v@)),
        }
    }
}

pub open spec fn effects_view(v: Seq<Effect>) -> Seq<EffectView> {
    Seq::new(v.len(), |i: int| v[i]@)
}

impl View for AgentRequest {
    type V = RequestView;

    open spec fn view(&self) -> RequestView {
        match self {
            AgentRequest::CallModel { messages, with_tools } => RequestView::CallModel(
                messages_view(messages@),
                *with_tools,
            ),
            AgentRequest::RunTool { call } => RequestView::RunTool(call@),
            AgentRequest::ReloadSchema => RequestView::ReloadSchema,
            AgentRequest::Finish => RequestView::Finish,
        }
    }
}

impl View for ModelReply {
    type V = ReplyView;

    open spec fn view(&self) -> ReplyView {
        ReplyView {
            content: opt_view(self.content),
            tool_calls: calls_view(self.tool_calls@),
            tool_calls_json: opt_view(self.tool_calls_json),
        }
    }
}

impl View for ToolResult {
    type V = OutcomeView;

    open spec fn view(&self) -> OutcomeView {
        OutcomeView {
            content: self.content@,
            schema_changed: self.schema_changed,
            is_done: self.is_done,
        }
    }
}

impl View for AgentInput {
    type V = InputView;

    open spec fn view(&self) -> InputView {
        match self {
            AgentInput::Reply(r) => InputView::Reply(r@),
            AgentInput::ToolDone(o) => InputView::ToolDone(o@),
            AgentInput::SchemaReloaded(s) => InputView::SchemaReloaded(s@),
        }
    }
}

impl View for AgentLoop {
    type V = StateView;

    closed spec fn view(&self) -> StateView {
        StateView {
            user_message: self.user_message@,
            document_id: opt_view(self.document_id),
            messages: messages_view(self.messages@),
            chunks: strings_view(self.chunks@),
            chunk_idx: self.chunk_idx as nat,
            iteration: self.iteration as nat,
            pending: records_view(self.pending@),
            calls: calls_view(self.calls@),
            call_idx: self.call_idx as nat,
            schema_changed: self.schema_changed,
            phase: self.phase,
        }
    }
}

// ---------------------------------------------------------------------------
// The decisions
// ---------------------------------------------------------------------------

/// What happens next: the new state, the effects in order, and the request.
pub type Outcome = (StateView, Seq<EffectView>, RequestView);

pub open spec fn is_multi(s: StateView) -> bool {
    s.chunks.len() > 1
}

/// `i32::try_from(n).unwrap_or_default()`.
pub open spec fn part_number(n: nat) -> i32 {
    if n <= i32::MAX {
        n as i32
    } else {
        0
    }
}

pub open spec fn progress_text(total: nat, part: nat) -> Seq<char> {
    "Document split into "@ + decimal(total) + " parts \u{2014} extracting part "@ + decimal(
        part,
    ) + "\u{2026}"@
}

pub open spec fn user_record(
    content: Seq<char>,
    document_id: Option<Seq<char>>,
    chunk_index: Option<i32>,
) -> RecordView {
    RecordView {
        role: SessionMessageRole::User,
        content,
        tool_calls: None,
        tool_call_id: None,
        document_id,
        document_name: None,
        chunk_index,
    }
}

pub open spec fn assistant_record(content: Seq<char>, tool_calls: Option<Seq<char>>) -> RecordView {
    RecordView {
        role: SessionMessageRole::Assistant,
        content,
        tool_calls,
        tool_call_id: None,
        document_id: None,
        document_name: None,
        chunk_index: None,
    }
}

pub open spec fn tool_record(content: Seq<char>, tool_call_id: Seq<char>) -> RecordView {
    RecordView {
        role: SessionMessageRole::Tool,
        content,
        tool_calls: None,
        tool_call_id: Some(tool_call_id),
        document_id: None,
        document_name: None,
        chunk_index: None,
    }
}

/// Storing a batch; an empty batch is not sent.
pub open spec fn persist_effects(batch: Seq<RecordView>) -> Seq<EffectView> {
    if batch.len() == 0 {
        Seq::empty()
    } else {
        seq![EffectView::Persist(batch)]
    }
}

/// The user messages stored when part `i` starts: a single message is stored as
/// the user's own words when a document came with it; of a multi-part document,
/// the user's words first, then each part with its number.
pub open spec fn user_part_effects(s: StateView, i: nat) -> Seq<EffectView> {
    let chunk = s.chunks[i as int];
    if !is_multi(s) {
        seq![
            EffectView::Persist(
                seq![
                    user_record(
                        if s.document_id is Some {
                            s.user_message
                        } else {
                            chunk
                        },
                        s.document_id,
                        None,
                    ),
                ],
            ),
        ]
    } else if i == 0 {
        seq![
            EffectView::Persist(seq![user_record(s.user_message, s.document_id, None)]),
            EffectView::Persist(
                seq![user_record(chunk, s.document_id, Some(part_number(i + 1)))],
            ),
        ]
    } else {
        seq![
            EffectView::Persist(
                seq![user_record(chunk, s.document_id, Some(part_number(i + 1)))],
            ),
        ]
    }
}

pub open spec fn with_effects(pre: Seq<EffectView>, o: Outcome) -> Outcome {
    (o.0, pre + o.1, o.2)
}

/// The head of the tool loop: at the limit the part ends with an error event;
/// otherwise the model is called with the history and the tools.
pub open spec fn loop_top(s: StateView) -> Outcome
    decreases s.chunks.len() - s.chunk_idx, 1nat,
{
    if s.iteration >= MAX_TOOL_ITERATIONS {
        with_effects(seq![EffectView::Send(EventView::Error(LIMIT_REACHED@))], end_part(s))
    } else {
        (
            StateView { phase: AgentPhase::AwaitModel, ..s },
            Seq::empty(),
            RequestView::CallModel(s.messages, true),
        )
    }
}

/// The end of a part: its messages are stored, then the next part starts, or
/// the summary turn of a multi-part document, or the turn is over.
pub open spec fn end_part(s: StateView) -> Outcome
    decreases s.chunks.len() - s.chunk_idx, 0nat,
{
    let stored = persist_effects(s.pending);
    let s1 = StateView { pending: Seq::empty(), chunk_idx: s.chunk_idx + 1, ..s };
    if s1.chunk_idx < s.chunks.len() {
        with_effects(stored, start_part(s1))
    } else if is_multi(s) {
        let s2 = StateView {
            messages: s1.messages.push(user_view(SUMMARY_REQUEST@)),
            phase: AgentPhase::AwaitSummary,
            ..s1
        };
        (
            s2,
            stored + seq![EffectView::Send(EventView::Progress(FINALISING@))],
            RequestView::CallModel(s2.messages, false),
        )
    } else {
        (StateView { phase: AgentPhase::Finished, ..s1 }, stored, RequestView::Finish)
    }
}

/// The start of part `s.chunk_idx`: progress for a multi-part document, the part
/// joins the history, the user messages are stored, and the tool loop begins.
pub open spec fn start_part(s: StateView) -> Outcome
    decreases s.chunks.len() - s.chunk_idx, 2nat,
{
    if s.chunk_idx >= s.chunks.len() {
        (StateView { phase: AgentPhase::Finished, ..s }, Seq::empty(), RequestView::Finish)
    } else {
        let i = s.chunk_idx;
        let progress = if is_multi(s) {
            seq![EffectView::Send(EventView::Progress(progress_text(s.chunks.len(), i + 1)))]
        } else {
            Seq::empty()
        };
        let s1 = StateView { messages: s.messages.push(user_view(s.chunks[i as int])), ..s };
        with_effects(progress + user_part_effects(s, i), loop_top(s1))
    }
}

pub open spec fn text_effects(s: StateView, content: Option<Seq<char>>) -> Seq<EffectView> {
    match content {
        Some(c) => if !is_multi(s) && c.len() > 0 {
            seq![EffectView::Send(EventView::Text(c))]
        } else {
            Seq::empty()
        },
        None => Seq::empty(),
    }
}

pub open spec fn or_empty(o: Option<Seq<char>>) -> Seq<char> {
    match o {
        Some(c) => c,
        None => Seq::empty(),
    }
}

pub open spec fn or_default(o: Option<Seq<char>>, d: Seq<char>) -> Seq<char> {
    match o {
        Some(c) => c,
        None => d,
    }
}

/// The model answered: without tool calls the part is over (a single message
/// also ends with a done event); with tool calls, the first one is run.
pub open spec fn on_reply(s: StateView, r: ReplyView) -> Outcome {
    let text = text_effects(s, r.content);
    if r.tool_calls.len() == 0 {
        let content = or_empty(r.content);
        let s1 = StateView {
            messages: s.messages.push(assistant_view(Some(content), None)),
            pending: s.pending.push(assistant_record(content, None)),
            ..s
        };
        let done = if !is_multi(s) {
            seq![EffectView::Send(EventView::Done(or_default(r.content, TASK_COMPLETED@)))]
        } else {
            Seq::empty()
        };
        with_effects(text + done, end_part(s1))
    } else {
        let first = r.tool_calls[0];
        (
            StateView {
                messages: s.messages.push(assistant_view(r.content, Some(r.tool_calls))),
                pending: s.pending.push(assistant_record(or_empty(r.content), r.tool_calls_json)),
                calls: r.tool_calls,
                call_idx: 0,
                schema_changed: false,
                phase: AgentPhase::AwaitTool,
                ..s
            },
            text + seq![EffectView::Send(EventView::ToolCall(first.id, first.name, first.arguments))],
            RequestView::RunTool(first),
        )
    }
}

/// A tool ran: its result is streamed and recorded; `done` ends the turn;
/// otherwise the next call runs, or the schema is reloaded, or the loop goes on.
pub open spec fn on_tool(s: StateView, t: OutcomeView) -> Outcome {
    let c = s.calls[s.call_idx as int];
    let shown = seq![EffectView::Send(EventView::ToolResult(c.id, t.content))];
    let s1 = StateView {
        messages: s.messages.push(tool_view(c.id, t.content)),
        pending: s.pending.push(tool_record(t.content, c.id)),
        schema_changed: s.schema_changed || t.schema_changed,
        ..s
    };
    if t.is_done {
        (
            StateView { pending: Seq::empty(), phase: AgentPhase::Finished, ..s1 },
            shown + seq![
                EffectView::Persist(s1.pending),
                EffectView::Send(EventView::Done(t.content)),
            ],
            RequestView::Finish,
        )
    } else if s.call_idx + 1 < s.calls.len() {
        let next = s.calls[(s.call_idx + 1) as int];
        (
            StateView { call_idx: s.call_idx + 1, ..s1 },
            shown + seq![EffectView::Send(EventView::ToolCall(next.id, next.name, next.arguments))],
            RequestView::RunTool(next),
        )
    } else if s1.schema_changed {
        (StateView { phase: AgentPhase::AwaitSchema, ..s1 }, shown, RequestView::ReloadSchema)
    } else {
        with_effects(shown, loop_top(StateView { iteration: s.iteration + 1, ..s1 }))
    }
}

/// The schema was reloaded: the system prompt is rebuilt from it.
pub open spec fn on_schema(s: StateView, g: GraphSchemaView) -> Outcome {
    let sys = system_view(system_prompt(g));
    let messages = if s.messages.len() > 0 {
        s.messages.update(0, sys)
    } else {
        seq![sys] + s.messages
    };
    loop_top(StateView { messages, iteration: s.iteration + 1, ..s })
}

/// The summary of a multi-part document: streamed, stored, and the turn is over.
pub open spec fn on_summary(s: StateView, r: ReplyView) -> Outcome {
    let summary = or_default(r.content, PROCESSING_COMPLETE@);
    (
        StateView { phase: AgentPhase::Finished, pending: Seq::empty(), ..s },
        seq![
            EffectView::Send(EventView::Text(summary)),
            EffectView::Send(EventView::Done(summary)),
            EffectView::Persist(seq![assistant_record(summary, None)]),
        ] + persist_effects(s.pending),
        RequestView::Finish,
    )
}

/// The request that a state waits on.
pub open spec fn awaited(s: StateView) -> RequestView {
    match s.phase {
        AgentPhase::AwaitModel => RequestView::CallModel(s.messages, true),
        AgentPhase::AwaitSummary => RequestView::CallModel(s.messages, false),
        AgentPhase::AwaitTool => RequestView::RunTool(s.calls[s.call_idx as int]),
        AgentPhase::AwaitSchema => RequestView::ReloadSchema,
        AgentPhase::Finished => RequestView::Finish,
    }
}

/// One step: the outcome of the awaited request moves the agent on; any other
/// input changes nothing.
pub open spec fn agent_next(s: StateView, input: InputView) -> Outcome {
    match (s.phase, input) {
        (AgentPhase::AwaitModel, InputView::Reply(r)) => on_reply(s, r),
        (AgentPhase::AwaitSummary, InputView::Reply(r)) => on_summary(s, r),
        (AgentPhase::AwaitTool, InputView::ToolDone(t)) => on_tool(s, t),
        (AgentPhase::AwaitSchema, InputView::SchemaReloaded(g)) => on_schema(s, g),
        _ => (s, Seq::empty(), awaited(s)),
    }
}

/// The state at the start of a turn, before its first part.
pub open spec fn initial_state(
    user_message: Seq<char>,
    document_id: Option<Seq<char>>,
    history: Seq<MessageView>,
    chunks: Seq<Seq<char>>,
) -> StateView {
    StateView {
        user_message,
        document_id,
        messages: history,
        chunks,
        chunk_idx: 0,
        iteration: 0,
        pending: Seq::empty(),
        calls: Seq::empty(),
        call_idx: 0,
        schema_changed: false,
        phase: AgentPhase::AwaitModel,
    }
}

/// The states the agent can be in between steps.
pub open spec fn agent_inv(s: StateView) -> bool {
    &&& s.iteration <= MAX_TOOL_ITERATIONS
    &&& s.chunk_idx <= s.chunks.len()
    &&& (s.phase == AgentPhase::AwaitModel || s.phase == AgentPhase::AwaitTool || s.phase
        == AgentPhase::AwaitSchema) ==> s.iteration < MAX_TOOL_ITERATIONS && s.chunk_idx
        < s.chunks.len()
    &&& s.phase == AgentPhase::AwaitTool ==> s.call_idx < s.calls.len()
}

// ---------------------------------------------------------------------------
// Laws of the decisions
// ---------------------------------------------------------------------------

/// Effects whose stored batches are never empty and that stream no intermediate
/// text when `multi` (the message has several parts).
pub open spec fn effects_ok(e: Seq<EffectView>, multi: bool) -> bool {
    forall|i: int|
        0 <= i < e.len() ==> match #[trigger] e[i] {
            EffectView::Persist(b) => b.len() > 0,
            EffectView::Send(EventView::Text(_)) => !multi,
            _ => true,
        }
}

pub proof fn lemma_effects_concat(a: Seq<EffectView>, b: Seq<EffectView>, multi: bool)
    requires
        effects_ok(a, multi),
        effects_ok(b, multi),
    ensures
        effects_ok(a + b, multi),
{
    assert forall|i: int| 0 <= i < (a + b).len() implies match #[trigger] (a + b)[i] {
        EffectView::Persist(b) => b.len() > 0,
        EffectView::Send(EventView::Text(_)) => !multi,
        _ => true,
    } by {
        if i < a.len() {
            assert((a + b)[i] == a[i]);
        } else {
            assert((a + b)[i] == b[i - a.len()]);
        }
    }
}

pub open spec fn base_ok(s: StateView) -> bool {
    &&& s.iteration <= MAX_TOOL_ITERATIONS
    &&& s.chunk_idx <= s.chunks.len()
}

/// The shared paths keep the invariant, and their effects store only
/// non-empty batches and stream no text for a multi-part message.
pub proof fn lemma_loop_top(s: StateView)
    requires
        base_ok(s),
        s.chunk_idx < s.chunks.len(),
    ensures
        agent_inv(loop_top(s).0),
        effects_ok(loop_top(s).1, is_multi(s)),
        loop_top(s).0.chunks == s.chunks,
    decreases s.chunks.len() - s.chunk_idx, 1nat,
{
    if s.iteration >= MAX_TOOL_ITERATIONS {
        lemma_end_part(s);
        let pre = seq![EffectView::Send(EventView::Error(LIMIT_REACHED@))];
        lemma_effects_concat(pre, end_part(s).1, is_multi(s));
    }
}

pub proof fn lemma_end_part(s: StateView)
    requires
        base_ok(s),
        s.chunk_idx < s.chunks.len(),
    ensures
        agent_inv(end_part(s).0),
        effects_ok(end_part(s).1, is_multi(s)),
        end_part(s).0.chunks == s.chunks,
    decreases s.chunks.len() - s.chunk_idx, 0nat,
{
    let stored = persist_effects(s.pending);
    let s1 = StateView { pending: Seq::empty(), chunk_idx: s.chunk_idx + 1, ..s };
    if s1.chunk_idx < s.chunks.len() {
        lemma_start_part(s1);
        lemma_effects_concat(stored, start_part(s1).1, is_multi(s));
    } else if is_multi(s) {
        lemma_effects_concat(
            stored,
            seq![EffectView::Send(EventView::Progress(FINALISING@))],
            is_multi(s),
        );
    }
}

pub proof fn lemma_start_part(s: StateView)
    requires
        base_ok(s),
    ensures
        agent_inv(start_part(s).0),
        effects_ok(start_part(s).1, is_multi(s)),
        start_part(s).0.chunks == s.chunks,
    decreases s.chunks.len() - s.chunk_idx, 2nat,
{
    if s.chunk_idx < s.chunks.len() {
        let i = s.chunk_idx;
        let progress = if is_multi(s) {
            seq![EffectView::Send(EventView::Progress(progress_text(s.chunks.len(), i + 1)))]
        } else {
            Seq::empty()
        };
        let s1 = StateView { messages: s.messages.push(user_view(s.chunks[i as int])), ..s };
        lemma_loop_top(s1);
        assert(effects_ok(progress, is_multi(s)));
        assert(effects_ok(user_part_effects(s, i), is_multi(s)));
        lemma_effects_concat(progress, user_part_effects(s, i), is_multi(s));
        lemma_effects_concat(progress + user_part_effects(s, i), loop_top(s1).1, is_multi(s));
    }
}

/// Every step keeps the agent within its invariant: in particular the model is
/// never called with tools once `MAX_TOOL_ITERATIONS` iterations have run, and a
/// tool is only run for a call the model made.
pub proof fn law_step_keeps_invariant(s: StateView, input: InputView)
    requires
        agent_inv(s),
    ensures
        agent_inv(agent_next(s, input).0),
        agent_next(s, input).0.chunks == s.chunks,
{
    match (s.phase, input) {
        (AgentPhase::AwaitModel, InputView::Reply(r)) => {
            if r.tool_calls.len() == 0 {
                let content = or_empty(r.content);
                let s1 = StateView {
                    messages: s.messages.push(assistant_view(Some(content), None)),
                    pending: s.pending.push(assistant_record(content, None)),
                    ..s
                };
                lemma_end_part(s1);
            }
        },
        (AgentPhase::AwaitTool, InputView::ToolDone(t)) => {
            let c = s.calls[s.call_idx as int];
            let s1 = StateView {
                messages: s.messages.push(tool_view(c.id, t.content)),
                pending: s.pending.push(tool_record(t.content, c.id)),
                schema_changed: s.schema_changed || t.schema_changed,
                ..s
            };
            if !t.is_done && s.call_idx + 1 >= s.calls.len() && !s1.schema_changed {
                lemma_loop_top(StateView { iteration: s.iteration + 1, ..s1 });
            }
        },
        (AgentPhase::AwaitSchema, InputView::SchemaReloaded(g)) => {
            let sys = system_view(system_prompt(g));
            let messages = if s.messages.len() > 0 {
                s.messages.update(0, sys)
            } else {
                seq![sys] + s.messages
            };
            lemma_loop_top(StateView { messages, iteration: s.iteration + 1, ..s });
        },
        _ => {},
    }
}

/// Every step stores only non-empty batches, and a message split into several
/// parts streams no intermediate model text (only the final summary).
pub proof fn law_step_effects(s: StateView, input: InputView)
    requires
        agent_inv(s),
        s.phase != AgentPhase::AwaitSummary,
    ensures
        effects_ok(agent_next(s, input).1, is_multi(s)),
{
    match (s.phase, input) {
        (AgentPhase::AwaitModel, InputView::Reply(r)) => {
            let text = text_effects(s, r.content);
            if r.tool_calls.len() == 0 {
                let content = or_empty(r.content);
                let s1 = StateView {
                    messages: s.messages.push(assistant_view(Some(content), None)),
                    pending: s.pending.push(assistant_record(content, None)),
                    ..s
                };
                let done = if !is_multi(s) {
                    seq![EffectView::Send(EventView::Done(or_default(r.content, TASK_COMPLETED@)))]
                } else {
                    Seq::empty()
                };
                lemma_end_part(s1);
                lemma_effects_concat(text, done, is_multi(s));
                lemma_effects_concat(text + done, end_part(s1).1, is_multi(s));
            } else {
                let first = r.tool_calls[0];
                lemma_effects_concat(
                    text,
                    seq![EffectView::Send(EventView::ToolCall(first.id, first.name, first.arguments))],
                    is_multi(s),
                );
            }
        },
        (AgentPhase::AwaitTool, InputView::ToolDone(t)) => {
            let c = s.calls[s.call_idx as int];
            let shown = seq![EffectView::Send(EventView::ToolResult(c.id, t.content))];
            let s1 = StateView {
                messages: s.messages.push(tool_view(c.id, t.content)),
                pending: s.pending.push(tool_record(t.content, c.id)),
                schema_changed: s.schema_changed || t.schema_changed,
                ..s
            };
            if !t.is_done && s.call_idx + 1 >= s.calls.len() && !s1.schema_changed {
                let s2 = StateView { iteration: s.iteration + 1, ..s1 };
                lemma_loop_top(s2);
                lemma_effects_concat(shown, loop_top(s2).1, is_multi(s));
            }
        },
        (AgentPhase::AwaitSchema, InputView::SchemaReloaded(g)) => {
            let sys = system_view(system_prompt(g));
            let messages = if s.messages.len() > 0 {
                s.messages.update(0, sys)
            } else {
                seq![sys] + s.messages
            };
            lemma_loop_top(StateView { messages, iteration: s.iteration + 1, ..s });
        },
        _ => {},
    }
}

/// Once finished, the agent stays finished and does nothing more.
pub proof fn law_finished_is_final(s: StateView, input: InputView)
    requires
        s.phase == AgentPhase::Finished,
    ensures
        agent_next(s, input) == (s, Seq::<EffectView>::empty(), RequestView::Finish),
{
}

/// When the `done` tool succeeds, the turn ends: everything recorded so far,
/// the tool's answer included, is stored, then the done event closes the stream.
pub proof fn law_done_tool_ends_turn(s: StateView, t: OutcomeView)
    requires
        s.phase == AgentPhase::AwaitTool,
        t.is_done,
    ensures
        ({
            let (s2, e, r) = agent_next(s, InputView::ToolDone(t));
            &&& r == RequestView::Finish
            &&& s2.phase == AgentPhase::Finished
            &&& e.len() == 3
            &&& e[1] == EffectView::Persist(
                s.pending.push(tool_record(t.content, s.calls[s.call_idx as int].id)),
            )
            &&& e[2] == EffectView::Send(EventView::Done(t.content))
        }),
{
}

/// The model is always called with the agent's whole current history.
pub proof fn law_model_sees_history(s: StateView, input: InputView)
    requires
        agent_inv(s),
    ensures
        agent_next(s, input).2 matches RequestView::CallModel(ms, _) ==> ms == agent_next(
            s,
            input,
        ).0.messages,
{
    lemma_requests_follow_state(s, input);
}

proof fn lemma_requests_follow_state(s: StateView, input: InputView)
    requires
        agent_inv(s),
    ensures
        agent_next(s, input).2 matches RequestView::CallModel(ms, _) ==> ms == agent_next(
            s,
            input,
        ).0.messages,
{
    match (s.phase, input) {
        (AgentPhase::AwaitModel, InputView::Reply(r)) => {
            if r.tool_calls.len() == 0 {
                let content = or_empty(r.content);
                let s1 = StateView {
                    messages: s.messages.push(assistant_view(Some(content), None)),
                    pending: s.pending.push(assistant_record(content, None)),
                    ..s
                };
                lemma_calls_follow_end_part(s1);
            }
        },
        (AgentPhase::AwaitTool, InputView::ToolDone(t)) => {
            let c = s.calls[s.call_idx as int];
            let s1 = StateView {
                messages: s.messages.push(tool_view(c.id, t.content)),
                pending: s.pending.push(tool_record(t.content, c.id)),
                schema_changed: s.schema_changed || t.schema_changed,
                ..s
            };
            lemma_calls_follow_loop_top(StateView { iteration: s.iteration + 1, ..s1 });
        },
        (AgentPhase::AwaitSchema, InputView::SchemaReloaded(g)) => {
            let sys = system_view(system_prompt(g));
            let messages = if s.messages.len() > 0 {
                s.messages.update(0, sys)
            } else {
                seq![sys] + s.messages
            };
            lemma_calls_follow_loop_top(StateView { messages, iteration: s.iteration + 1, ..s });
        },
        _ => {},
    }
}

proof fn lemma_calls_follow_loop_top(s: StateView)
    ensures
        loop_top(s).2 matches RequestView::CallModel(ms, _) ==> ms == loop_top(s).0.messages,
    decreases s.chunks.len() - s.chunk_idx, 1nat,
{
    if s.iteration >= MAX_TOOL_ITERATIONS {
        lemma_calls_follow_end_part(s);
    }
}

proof fn lemma_calls_follow_end_part(s: StateView)
    ensures
        end_part(s).2 matches RequestView::CallModel(ms, _) ==> ms == end_part(s).0.messages,
    decreases s.chunks.len() - s.chunk_idx, 0nat,
{
    let s1 = StateView { pending: Seq::empty(), chunk_idx: s.chunk_idx + 1, ..s };
    if s1.chunk_idx < s.chunks.len() {
        lemma_calls_follow_start_part(s1);
    }
}

proof fn lemma_calls_follow_start_part(s: StateView)
    ensures
        start_part(s).2 matches RequestView::CallModel(ms, _) ==> ms == start_part(s).0.messages,
    decreases s.chunks.len() - s.chunk_idx, 2nat,
{
    if s.chunk_idx < s.chunks.len() {
        let s1 = StateView { messages: s.messages.push(user_view(s.chunks[s.chunk_idx as int])), ..s };
        lemma_calls_follow_loop_top(s1);
    }
}


// ---------------------------------------------------------------------------
// The message that is worked through
// ---------------------------------------------------------------------------

pub const DOCUMENT_HEADER: &'static str = "[Document content]\n";

pub const USER_HEADER: &'static str = "\n\n[User message]\n";

/// The message that the agent works through: the user's words alone, or the
/// attached document's content under its header, followed (when the user
/// wrote anything) by the user's words under theirs.
pub open spec fn effective_message(user_message: Seq<char>, document: Option<Seq<char>>) -> Seq<char> {
    match document {
        None => user_message,
        Some(d) => if user_message.len() == 0 {
            DOCUMENT_HEADER@ + d
        } else {
            DOCUMENT_HEADER@ + d + USER_HEADER@ + user_message
        },
    }
}

/// Reading a combined message back gives what it was made of: the document,
/// and the user's words when there were any. This holds of every document in
/// which the separator first occurs where it is appended to it (one that
/// already holds it would be cut there).
pub proof fn law_parse_undoes_effective_message(d: Seq<char>, m: Seq<char>)
    requires
        find_first(d + msg_separator(), msg_separator()) == Some(d.len() as int),
    ensures
        parse_document_spec(effective_message(m, Some(d))) == (
            Some(d),
            if m.len() == 0 {
                None::<Seq<char>>
            } else {
                Some(m)
            },
        ),
{
    let sep = msg_separator();
    let p = doc_prefix();
    reveal_strlit("[Document content]\n");
    reveal_strlit("\n\n[User message]\n");
    assert(DOCUMENT_HEADER@ == p);
    assert(USER_HEADER@ == sep);
    lemma_find_first(d + sep, sep);
    let e = effective_message(m, Some(d));
    let rest = if m.len() == 0 { d } else { d + sep + m };
    assert(e == p + rest);
    assert(e.take(p.len() as int) =~= p);
    assert(e.skip(p.len() as int) =~= rest);
    assert forall|j: int| 0 <= j < d.len() implies !occurs_at(rest, sep, j) by {
        assert(!occurs_at(d + sep, sep, j));
        if occurs_at(rest, sep, j) {
            if j + sep.len() <= d.len() + sep.len() && m.len() > 0 {
                assert(rest.subrange(j, j + sep.len()) =~= (d + sep).subrange(j, j + sep.len()));
            }
            if m.len() == 0 {
                assert(rest.subrange(j, j + sep.len()) =~= (d + sep).subrange(j, j + sep.len()));
            }
        }
    }
    lemma_find_first(rest, sep);
    if m.len() == 0 {
        assert forall|j: int| !occurs_at(rest, sep, j) by {
            if 0 <= j < d.len() {
            }
        }
    } else {
        assert(rest.subrange(d.len() as int, (d.len() + sep.len()) as int) =~= sep);
        assert(occurs_at(rest, sep, d.len() as int));
        assert(rest.take(d.len() as int) =~= d);
        assert(rest.skip((d.len() + sep.len()) as int) =~= m);
    }
}

/// The message that the agent works through (see `effective_message`);
/// `document_content` is the attached document's content, if any.
pub fn build_effective_message(user_message: &str, document_content: Option<&str>) -> (m: String)
    ensures
        m@ == effective_message(
            user_message@,
            match document_content {
                Some(d) => Some(d@),
                None => None,
            },
        ),
{
    match document_content {
        None => owned(user_message),
        Some(d) => {
            let mut m = owned(DOCUMENT_HEADER);
            append_str(&mut m, d);
            if !user_message.is_empty() {
                append_str(&mut m, USER_HEADER);
                append_str(&mut m, user_message);
            }
            m
        },
    }
}

// ---------------------------------------------------------------------------
// Running the decisions
// ---------------------------------------------------------------------------

fn push_send(effects: &mut Vec<Effect>, e: AgentEvent)
    ensures
        effects_view(final(effects)@) == effects_view(old(effects)@).push(EffectView::Send(e@)),
{
    let ghost before = effects_view(effects@);
    let ghost ev = e@;
    effects.push(Effect::Send(e));
    assert(effects_view(effects@) =~= before.push(EffectView::Send(ev)));
}

fn push_persist(effects: &mut Vec<Effect>, batch: Vec<NewSessionMessage>)
    ensures
        effects_view(final(effects)@) == effects_view(old(effects)@).push(
            EffectView::Persist(records_view(batch@)),
        ),
{
    let ghost before = effects_view(effects@);
    let ghost bv = records_view(batch@);
    effects.push(Effect::Persist(batch));
    assert(effects_view(effects@) =~= before.push(EffectView::Persist(bv)));
}

fn persist_if_any(effects: &mut Vec<Effect>, batch: Vec<NewSessionMessage>)
    ensures
        effects_view(final(effects)@) == effects_view(old(effects)@) + persist_effects(
            records_view(batch@),
        ),
{
    if batch.len() > 0 {
        let ghost before = effects_view(effects@);
        let ghost bv = records_view(batch@);
        push_persist(effects, batch);
        assert(persist_effects(bv) =~= seq![EffectView::Persist(bv)]);
        assert(effects_view(effects@) =~= before + persist_effects(bv));
    } else {
        assert(records_view(batch@) =~= Seq::<RecordView>::empty());
        assert(effects_view(effects@) =~= effects_view(effects@) + Seq::<EffectView>::empty());
    }
}

fn single_batch(r: NewSessionMessage) -> (v: Vec<NewSessionMessage>)
    ensures
        records_view(v@) == seq![r@],
{
    let ghost rv = r@;
    let mut v: Vec<NewSessionMessage> = Vec::new();
    v.push(r);
    assert(records_view(v@) =~= seq![rv]);
    v
}

fn push_message(v: &mut Vec<Message>, m: Message)
    ensures
        messages_view(final(v)@) == messages_view(old(v)@).push(m@),
{
    let ghost before = messages_view(v@);
    let ghost mv = m@;
    v.push(m);
    assert(messages_view(v@) =~= before.push(mv));
}

fn push_record(v: &mut Vec<NewSessionMessage>, r: NewSessionMessage)
    ensures
        records_view(final(v)@) == records_view(old(v)@).push(r@),
{
    let ghost before = records_view(v@);
    let ghost rv = r@;
    v.push(r);
    assert(records_view(v@) =~= before.push(rv));
}

fn user_record_exec(content: String, document_id: Option<String>, chunk_index: Option<i32>) -> (r:
    NewSessionMessage)
    ensures
        r@ == user_record(content@, opt_view(document_id), chunk_index),
{
    NewSessionMessage {
        role: SessionMessageRole::User,
        content,
        tool_calls: None,
        tool_call_id: None,
        document_id,
        document_name: None,
        chunk_index,
    }
}

fn assistant_record_exec(content: String, tool_calls: Option<String>) -> (r: NewSessionMessage)
    ensures
        r@ == assistant_record(content@, opt_view(tool_calls)),
{
    NewSessionMessage {
        role: SessionMessageRole::Assistant,
        content,
        tool_calls,
        tool_call_id: None,
        document_id: None,
        document_name: None,
        chunk_index: None,
    }
}

fn tool_record_exec(content: String, tool_call_id: String) -> (r: NewSessionMessage)
    ensures
        r@ == tool_record(content@, tool_call_id@),
{
    NewSessionMessage {
        role: SessionMessageRole::Tool,
        content,
        tool_calls: None,
        tool_call_id: Some(tool_call_id),
        document_id: None,
        document_name: None,
        chunk_index: None,
    }
}

/// The progress line shown when part `part` of `total` starts.
pub fn progress_message(total: usize, part: usize) -> (s: String)
    ensures
        s@ == progress_text(total as nat, part as nat),
{
    let mut s = owned("Document split into ");
    let t = decimal_string(total);
    append_string(&mut s, &t);
    append_str(&mut s, " parts \u{2014} extracting part ");
    let p = decimal_string(part);
    append_string(&mut s, &p);
    append_str(&mut s, "\u{2026}");
    s
}

/// The stored number of a part: `n` when it fits an `i32`, else 0.
pub fn part_number_exec(n: usize) -> (r: i32)
    ensures
        r == part_number(n as nat),
{
    if n <= 2147483647usize {
        n as i32
    } else {
        0
    }
}

fn tool_call_event(c: &ToolCall) -> (e: AgentEvent)
    ensures
        e@ == EventView::ToolCall(c@.id, c@.name, c@.arguments),
{
    AgentEvent::ToolCall {
        tool_call_id: c.id.clone(),
        name: c.function.name.clone(),
        arguments: c.function.arguments.clone(),
    }
}

impl AgentLoop {
    /// The start of a turn: the first part begins (see `start_part`).
    pub fn start(
        user_message: String,
        document_id: Option<String>,
        history: Vec<Message>,
        chunks: Vec<String>,
    ) -> (r: (AgentLoop, Vec<Effect>, AgentRequest))
        ensures
            ({
                let o = start_part(
                    initial_state(
                        user_message@,
                        opt_view(document_id),
                        messages_view(history@),
                        strings_view(chunks@),
                    ),
                );
                &&& r.0@ == o.0
                &&& effects_view(r.1@) == o.1
                &&& r.2@ == o.2
            }),
            agent_inv(r.0@),
    {
        let s = AgentLoop {
            user_message,
            document_id,
            messages: history,
            chunks,
            chunk_idx: 0,
            iteration: 0,
            pending: Vec::new(),
            calls: Vec::new(),
            call_idx: 0,
            schema_changed: false,
            phase: AgentPhase::AwaitModel,
        };
        assert(s@.pending =~= Seq::<RecordView>::empty());
        assert(s@.calls =~= Seq::<ToolCallView>::empty());
        assert(s@ == initial_state(
            s.user_message@,
            opt_view(s.document_id),
            messages_view(s.messages@),
            strings_view(s.chunks@),
        ));
        let mut effects: Vec<Effect> = Vec::new();
        proof {
            lemma_start_part(s@);
        }
        let (s2, req) = s.start_part_exec(&mut effects);
        assert(effects_view(effects@) =~= start_part(s@).1);
        (s2, effects, req)
    }

    /// One step: hands the outcome of the awaited request to the agent (see
    /// `agent_next`).
    pub fn step(self, input: AgentInput) -> (r: (AgentLoop, Vec<Effect>, AgentRequest))
        requires
            agent_inv(self@),
        ensures
            r.0@ == agent_next(self@, input@).0,
            effects_view(r.1@) == agent_next(self@, input@).1,
            r.2@ == agent_next(self@, input@).2,
            agent_inv(r.0@),
    {
        proof {
            law_step_keeps_invariant(self@, input@);
        }
        let ghost s0 = self@;
        let mut effects: Vec<Effect> = Vec::new();
        let ghost e0 = effects_view(effects@);
        assert(e0 =~= Seq::<EffectView>::empty());
        let (s, req) = match input {
            AgentInput::Reply(r) => {
                if self.phase == AgentPhase::AwaitModel {
                    self.on_reply_exec(r, &mut effects)
                } else if self.phase == AgentPhase::AwaitSummary {
                    self.on_summary_exec(r, &mut effects)
                } else {
                    let req = self.awaited_request();
                    (self, req)
                }
            },
            AgentInput::ToolDone(t) => {
                if self.phase == AgentPhase::AwaitTool {
                    self.on_tool_exec(t, &mut effects)
                } else {
                    let req = self.awaited_request();
                    (self, req)
                }
            },
            AgentInput::SchemaReloaded(g) => {
                if self.phase == AgentPhase::AwaitSchema {
                    self.on_schema_exec(g, &mut effects)
                } else {
                    let req = self.awaited_request();
                    (self, req)
                }
            },
        };
        assert(effects_view(effects@) =~= agent_next(s0, input@).1);
        (s, effects, req)
    }

    /// Where the agent stands.
    pub fn phase(&self) -> (p: AgentPhase)
        ensures
            p == self@.phase,
    {
        self.phase
    }

    /// How many model calls with tools have been answered so far.
    pub fn iteration(&self) -> (n: usize)
        ensures
            n == self@.iteration,
    {
        self.iteration
    }

    fn awaited_request(&self) -> (r: AgentRequest)
        requires
            agent_inv(self@),
        ensures
            r@ == awaited(self@),
    {
        match self.phase {
            AgentPhase::AwaitModel => AgentRequest::CallModel {
                messages: duplicate_messages(&self.messages),
                with_tools: true,
            },
            AgentPhase::AwaitSummary => AgentRequest::CallModel {
                messages: duplicate_messages(&self.messages),
                with_tools: false,
            },
            AgentPhase::AwaitTool => AgentRequest::RunTool {
                call: self.calls[self.call_idx].duplicate(),
            },
            AgentPhase::AwaitSchema => AgentRequest::ReloadSchema,
            AgentPhase::Finished => AgentRequest::Finish,
        }
    }

    fn loop_top_exec(self, effects: &mut Vec<Effect>) -> (r: (AgentLoop, AgentRequest))
        requires
            self.chunk_idx < self.chunks.len(),
        ensures
            r.0@ == loop_top(self@).0,
            effects_view(final(effects)@) == effects_view(old(effects)@) + loop_top(self@).1,
            r.1@ == loop_top(self@).2,
        decreases self.chunks.len() - self.chunk_idx, 1nat,
    {
        let ghost s0 = self@;
        let ghost e0 = effects_view(effects@);
        let mut s = self;
        if s.iteration >= MAX_TOOL_ITERATIONS {
            push_send(effects, AgentEvent::Error { message: owned(LIMIT_REACHED) });
            let ghost e1 = effects_view(effects@);
            let (s2, req) = s.end_part_exec(effects);
            assert(effects_view(effects@) =~= e0 + loop_top(s0).1);
            (s2, req)
        } else {
            s.phase = AgentPhase::AwaitModel;
            let msgs = duplicate_messages(&s.messages);
            assert(effects_view(effects@) =~= e0 + loop_top(s0).1);
            (s, AgentRequest::CallModel { messages: msgs, with_tools: true })
        }
    }

    fn end_part_exec(self, effects: &mut Vec<Effect>) -> (r: (AgentLoop, AgentRequest))
        requires
            self.chunk_idx < self.chunks.len(),
        ensures
            r.0@ == end_part(self@).0,
            effects_view(final(effects)@) == effects_view(old(effects)@) + end_part(self@).1,
            r.1@ == end_part(self@).2,
        decreases self.chunks.len() - self.chunk_idx, 0nat,
    {
        let ghost s0 = self@;
        let ghost e0 = effects_view(effects@);
        let mut s = self;
        let mut batch: Vec<NewSessionMessage> = Vec::new();
        std::mem::swap(&mut batch, &mut s.pending);
        persist_if_any(effects, batch);
        let ghost e1 = effects_view(effects@);
        s.chunk_idx = s.chunk_idx + 1;
        assert(s@.pending =~= Seq::<RecordView>::empty());
        assert(s@ == StateView { pending: Seq::empty(), chunk_idx: s0.chunk_idx + 1, ..s0 });
        if s.chunk_idx < s.chunks.len() {
            let (s2, req) = s.start_part_exec(effects);
            assert(effects_view(effects@) =~= e0 + end_part(s0).1);
            (s2, req)
        } else if s.chunks.len() > 1 {
            push_message(&mut s.messages, Message::user(SUMMARY_REQUEST));
            s.phase = AgentPhase::AwaitSummary;
            push_send(effects, AgentEvent::Progress { content: owned(FINALISING) });
            let msgs = duplicate_messages(&s.messages);
            assert(effects_view(effects@) =~= e0 + end_part(s0).1);
            (s, AgentRequest::CallModel { messages: msgs, with_tools: false })
        } else {
            s.phase = AgentPhase::Finished;
            assert(effects_view(effects@) =~= e0 + end_part(s0).1);
            (s, AgentRequest::Finish)
        }
    }

    fn start_part_exec(self, effects: &mut Vec<Effect>) -> (r: (AgentLoop, AgentRequest))
        requires
            self.chunk_idx <= self.chunks.len(),
        ensures
            r.0@ == start_part(self@).0,
            effects_view(final(effects)@) == effects_view(old(effects)@) + start_part(self@).1,
            r.1@ == start_part(self@).2,
        decreases self.chunks.len() - self.chunk_idx, 2nat,
    {
        let ghost s0 = self@;
        let ghost e0 = effects_view(effects@);
        let mut s = self;
        if s.chunk_idx >= s.chunks.len() {
            s.phase = AgentPhase::Finished;
            assert(effects_view(effects@) =~= e0 + start_part(s0).1);
            return (s, AgentRequest::Finish);
        }
        let i = s.chunk_idx;
        let total = s.chunks.len();
        let multi = total > 1;
        if multi {
            let text = progress_message(total, i + 1);
            push_send(effects, AgentEvent::Progress { content: text });
        }
        let ghost e1 = effects_view(effects@);
        let m = Message::user(s.chunks[i].as_str());
        push_message(&mut s.messages, m);
        if !multi {
            let content = if s.document_id.is_some() {
                s.user_message.clone()
            } else {
                s.chunks[i].clone()
            };
            let rec = user_record_exec(content, clone_opt(&s.document_id), None);
            push_persist(effects, single_batch(rec));
        } else if i == 0 {
            let rec = user_record_exec(s.user_message.clone(), clone_opt(&s.document_id), None);
            push_persist(effects, single_batch(rec));
            let part = user_record_exec(
                s.chunks[i].clone(),
                clone_opt(&s.document_id),
                Some(part_number_exec(i + 1)),
            );
            push_persist(effects, single_batch(part));
        } else {
            let part = user_record_exec(
                s.chunks[i].clone(),
                clone_opt(&s.document_id),
                Some(part_number_exec(i + 1)),
            );
            push_persist(effects, single_batch(part));
        }
        let ghost e2 = effects_view(effects@);
        assert(s@ == StateView {
            messages: s0.messages.push(user_view(s0.chunks[i as int])),
            ..s0
        });
        assert(e2 =~= e1 + user_part_effects(s0, i as nat));
        let (s2, req) = s.loop_top_exec(effects);
        assert(effects_view(effects@) =~= e0 + start_part(s0).1);
        (s2, req)
    }

    fn on_reply_exec(self, reply: ModelReply, effects: &mut Vec<Effect>) -> (r: (AgentLoop, AgentRequest))
        requires
            agent_inv(self@),
            self@.phase == AgentPhase::AwaitModel,
        ensures
            r.0@ == on_reply(self@, reply@).0,
            effects_view(final(effects)@) == effects_view(old(effects)@) + on_reply(self@, reply@).1,
            r.1@ == on_reply(self@, reply@).2,
    {
        let ghost s0 = self@;
        let ghost rv = reply@;
        let ghost e0 = effects_view(effects@);
        let mut s = self;
        let multi = s.chunks.len() > 1;
        let ModelReply { content, tool_calls, tool_calls_json } = reply;
        match &content {
            Some(c) => {
                if !multi && !c.as_str().is_empty() {
                    push_send(effects, AgentEvent::Text { content: c.clone() });
                }
            },
            None => {},
        }
        let ghost e1 = effects_view(effects@);
        assert(e1 =~= e0 + text_effects(s0, rv.content));
        let text = match &content {
            Some(c) => c.clone(),
            None => String::new(),
        };
        if tool_calls.len() == 0 {
            push_message(&mut s.messages, Message::assistant(Some(text.clone()), None));
            push_record(&mut s.pending, assistant_record_exec(text, None));
            if !multi {
                let summary = match &content {
                    Some(c) => c.clone(),
                    None => owned(TASK_COMPLETED),
                };
                push_send(effects, AgentEvent::Done { summary });
            }
            let (s2, req) = s.end_part_exec(effects);
            assert(effects_view(effects@) =~= e0 + on_reply(s0, rv).1);
            (s2, req)
        } else {
            let first = tool_calls[0].duplicate();
            push_message(&mut s.messages, Message::assistant(content, Some(duplicate_calls(&tool_calls))));
            push_record(&mut s.pending, assistant_record_exec(text, tool_calls_json));
            s.calls = tool_calls;
            s.call_idx = 0;
            s.schema_changed = false;
            s.phase = AgentPhase::AwaitTool;
            push_send(effects, tool_call_event(&first));
            assert(effects_view(effects@) =~= e0 + on_reply(s0, rv).1);
            (s, AgentRequest::RunTool { call: first })
        }
    }

    fn on_tool_exec(self, outcome: ToolResult, effects: &mut Vec<Effect>) -> (r: (AgentLoop, AgentRequest))
        requires
            agent_inv(self@),
            self@.phase == AgentPhase::AwaitTool,
        ensures
            r.0@ == on_tool(self@, outcome@).0,
            effects_view(final(effects)@) == effects_view(old(effects)@) + on_tool(self@, outcome@).1,
            r.1@ == on_tool(self@, outcome@).2,
    {
        let ghost s0 = self@;
        let ghost tv = outcome@;
        let ghost e0 = effects_view(effects@);
        let mut s = self;
        let ToolResult { content, schema_changed, is_done } = outcome;
        let idx = s.call_idx;
        assert(calls_view(s.calls@).len() == s.calls@.len());
        let n_calls = s.calls.len();
        let id = s.calls[idx].id.clone();
        push_send(effects, AgentEvent::ToolResult { tool_call_id: id.clone(), content: content.clone() });
        let ghost e1 = effects_view(effects@);
        push_message(&mut s.messages, Message::tool(id.clone(), content.as_str()));
        push_record(&mut s.pending, tool_record_exec(content.clone(), id));
        s.schema_changed = s.schema_changed || schema_changed;
        if is_done {
            let mut batch: Vec<NewSessionMessage> = Vec::new();
            std::mem::swap(&mut batch, &mut s.pending);
            push_persist(effects, batch);
            push_send(effects, AgentEvent::Done { summary: content });
            s.phase = AgentPhase::Finished;
            assert(s@.pending =~= Seq::<RecordView>::empty());
            assert(effects_view(effects@) =~= e0 + on_tool(s0, tv).1);
            (s, AgentRequest::Finish)
        } else if idx + 1 < n_calls {
            let next = s.calls[idx + 1].duplicate();
            s.call_idx = idx + 1;
            push_send(effects, tool_call_event(&next));
            assert(effects_view(effects@) =~= e0 + on_tool(s0, tv).1);
            (s, AgentRequest::RunTool { call: next })
        } else if s.schema_changed {
            s.phase = AgentPhase::AwaitSchema;
            assert(effects_view(effects@) =~= e0 + on_tool(s0, tv).1);
            (s, AgentRequest::ReloadSchema)
        } else {
            s.iteration = s.iteration + 1;
            let (s2, req) = s.loop_top_exec(effects);
            assert(effects_view(effects@) =~= e0 + on_tool(s0, tv).1);
            (s2, req)
        }
    }

    fn on_schema_exec(self, schema: GraphSchema, effects: &mut Vec<Effect>) -> (r: (AgentLoop, AgentRequest))
        requires
            agent_inv(self@),
            self@.phase == AgentPhase::AwaitSchema,
        ensures
            r.0@ == on_schema(self@, schema@).0,
            effects_view(final(effects)@) == effects_view(old(effects)@) + on_schema(self@, schema@).1,
            r.1@ == on_schema(self@, schema@).2,
    {
        let ghost s0 = self@;
        let mut s = self;
        let prompt = build_system_prompt(&schema);
        let sys = Message::system(prompt.as_str());
        let ghost before = messages_view(s.messages@);
        let ghost sv = sys@;
        if s.messages.len() > 0 {
            s.messages.set(0, sys);
            assert(messages_view(s.messages@) =~= before.update(0, sv));
        } else {
            s.messages.insert(0, sys);
            assert(messages_view(s.messages@) =~= seq![sv] + before);
        }
        s.iteration = s.iteration + 1;
        s.loop_top_exec(effects)
    }

    fn on_summary_exec(self, reply: ModelReply, effects: &mut Vec<Effect>) -> (r: (AgentLoop, AgentRequest))
        ensures
            r.0@ == on_summary(self@, reply@).0,
            effects_view(final(effects)@) == effects_view(old(effects)@) + on_summary(self@, reply@).1,
            r.1@ == on_summary(self@, reply@).2,
    {
        let ghost s0 = self@;
        let ghost rv = reply@;
        let ghost e0 = effects_view(effects@);
        let mut s = self;
        let summary = match reply.content {
            Some(c) => c,
            None => owned(PROCESSING_COMPLETE),
        };
        push_send(effects, AgentEvent::Text { content: summary.clone() });
        push_send(effects, AgentEvent::Done { summary: summary.clone() });
        push_persist(effects, single_batch(assistant_record_exec(summary, None)));
        let mut batch: Vec<NewSessionMessage> = Vec::new();
        std::mem::swap(&mut batch, &mut s.pending);
        persist_if_any(effects, batch);
        s.phase = AgentPhase::Finished;
        assert(s@.pending =~= Seq::<RecordView>::empty());
        assert(effects_view(effects@) =~= e0 + on_summary(s0, rv).1);
        (s, AgentRequest::Finish)
    }
}

} // verus!
