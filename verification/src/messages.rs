//! Chat messages exchanged with the model, and the conversation history that
//! is rebuilt from a session's stored messages within a context budget.
use vstd::prelude::*;
use crate::graph::{GraphSchema, GraphSchemaView};
use crate::prompt::{build_system_prompt, system_prompt};
use crate::text::{
    append_str, append_string, byte_len, decimal, decimal_i32_string, decimal_signed,
    decimal_string, opt_view, owned, str_byte_len,
};

verus! {

/// The function that a tool call invokes, with its JSON-encoded arguments.
#[derive(Debug)]
pub struct FunctionCall {
    pub name: String,
    pub arguments: String,
}

/// A tool call requested by the model.
#[derive(Debug)]
pub struct ToolCall {
    pub id: String,
    pub type_: String,
    pub function: FunctionCall,
}

/// A chat message.
#[derive(Debug)]
pub struct Message {
    pub role: String,
    pub content: Option<String>,
    pub tool_calls: Option<Vec<ToolCall>>,
    pub tool_call_id: Option<String>,
}

/// A complete response of a streamed chat call.
#[derive(Debug)]
pub struct StreamChatResult {
    pub content: Option<String>,
    pub tool_calls: Vec<ToolCall>,
}

pub struct ToolCallView {
    pub id: Seq<char>,
    pub type_: Seq<char>,
    pub name: Seq<char>,
    pub arguments: Seq<char>,
}

pub struct MessageView {
    pub role: Seq<char>,
    pub content: Option<Seq<char>>,
    pub tool_calls: Option<Seq<ToolCallView>>,
    pub tool_call_id: Option<Seq<char>>,
}

impl View for ToolCall {
    type V = ToolCallView;

    open spec fn view(&self) -> ToolCallView {
        ToolCallView {
            id: self.id@,
            type_: self.type_@,
            name: self.function.name@,
            arguments: self.function.arguments@,
        }
    }
}

pub open spec fn calls_view(v: Seq<ToolCall>) -> Seq<ToolCallView> {
    Seq::new(v.len(), |i: int| v[i]@)
}

pub open spec fn opt_calls_view(o: Option<Vec<ToolCall>>) -> Option<Seq<ToolCallView>> {
    match o {
        Some(v) => Some(calls_view(v@)),
        None => None,
    }
}

impl View for Message {
    type V = MessageView;

    open spec fn view(&self) -> MessageView {
        MessageView {
            role: self.role@,
            content: opt_view(self.content),
            tool_calls: opt_calls_view(self.tool_calls),
            tool_call_id: opt_view(self.tool_call_id),
        }
    }
}

pub open spec fn messages_view(v: Seq<Message>) -> Seq<MessageView> {
    Seq::new(v.len(), |i: int| v[i]@)
}

pub open spec fn user_view(content: Seq<char>) -> MessageView {
    MessageView { role: "user"@, content: Some(content), tool_calls: None, tool_call_id: None }
}

pub open spec fn system_view(content: Seq<char>) -> MessageView {
    MessageView { role: "system"@, content: Some(content), tool_calls: None, tool_call_id: None }
}

pub open spec fn assistant_view(
    content: Option<Seq<char>>,
    tool_calls: Option<Seq<ToolCallView>>,
) -> MessageView {
    MessageView { role: "assistant"@, content, tool_calls, tool_call_id: None }
}

pub open spec fn tool_view(tool_call_id: Seq<char>, content: Seq<char>) -> MessageView {
    MessageView {
        role: "tool"@,
        content: Some(content),
        tool_calls: None,
        tool_call_id: Some(tool_call_id),
    }
}

fn clone_opt_string(o: &Option<String>) -> (r: Option<String>)
    ensures
        opt_view(r) == opt_view(*o),
{
    match o {
        Some(s) => Some(s.clone()),
        None => None,
    }
}

impl ToolCall {
    /// A copy of the call.
    pub fn duplicate(&self) -> (r: ToolCall)
        ensures
            r@ == self@,
    {
        ToolCall {
            id: self.id.clone(),
            type_: self.type_.clone(),
            function: FunctionCall {
                name: self.function.name.clone(),
                arguments: self.function.arguments.clone(),
            },
        }
    }
}

/// A copy of a list of calls.
pub fn duplicate_calls(v: &Vec<ToolCall>) -> (r: Vec<ToolCall>)
    ensures
        calls_view(r@) == calls_view(v@),
{
    let mut r: Vec<ToolCall> = Vec::new();
    let mut i: usize = 0;
    while i < v.len()
        invariant
            i <= v.len(),
            calls_view(r@) == calls_view(v@).take(i as int),
        decreases v.len() - i,
    {
        let ghost before = calls_view(r@);
        let c = v[i].duplicate();
        r.push(c);
        assert(calls_view(r@) =~= before.push(c@));
        assert(calls_view(r@) =~= calls_view(v@).take(i + 1));
        i = i + 1;
    }
    assert(calls_view(v@).take(v.len() as int) =~= calls_view(v@));
    r
}

impl Message {
    /// A system message.
    pub fn system(content: &str) -> (m: Message)
        ensures
            m@ == system_view(content@),
    {
        Message { role: owned("system"), content: Some(owned(content)), tool_calls: None, tool_call_id: None }
    }

    /// A user message.
    pub fn user(content: &str) -> (m: Message)
        ensures
            m@ == user_view(content@),
    {
        Message { role: owned("user"), content: Some(owned(content)), tool_calls: None, tool_call_id: None }
    }

    /// An assistant message, with the tool calls it requested.
    pub fn assistant(content: Option<String>, tool_calls: Option<Vec<ToolCall>>) -> (m: Message)
        ensures
            m@ == assistant_view(opt_view(content), opt_calls_view(tool_calls)),
    {
        Message { role: owned("assistant"), content, tool_calls, tool_call_id: None }
    }

    /// The answer to the tool call `tool_call_id`.
    pub fn tool(tool_call_id: String, content: &str) -> (m: Message)
        ensures
            m@ == tool_view(tool_call_id@, content@),
    {
        Message {
            role: owned("tool"),
            content: Some(owned(content)),
            tool_calls: None,
            tool_call_id: Some(tool_call_id),
        }
    }

    /// A copy of the message.
    pub fn duplicate(&self) -> (r: Message)
        ensures
            r@ == self@,
    {
        Message {
            role: self.role.clone(),
            content: clone_opt_string(&self.content),
            tool_calls: match &self.tool_calls {
                Some(v) => Some(duplicate_calls(v)),
                None => None,
            },
            tool_call_id: clone_opt_string(&self.tool_call_id),
        }
    }
}

/// A copy of a list of messages.
pub fn duplicate_messages(v: &Vec<Message>) -> (r: Vec<Message>)
    ensures
        messages_view(r@) == messages_view(v@),
{
    let mut r: Vec<Message> = Vec::new();
    let mut i: usize = 0;
    while i < v.len()
        invariant
            i <= v.len(),
            messages_view(r@) == messages_view(v@).take(i as int),
        decreases v.len() - i,
    {
        let ghost before = messages_view(r@);
        let c = v[i].duplicate();
        r.push(c);
        assert(messages_view(r@) =~= before.push(c@));
        assert(messages_view(r@) =~= messages_view(v@).take(i + 1));
        i = i + 1;
    }
    assert(messages_view(v@).take(v.len() as int) =~= messages_view(v@));
    r
}

/// Characters (bytes) that a message takes in the context window.
pub open spec fn message_size(m: MessageView) -> nat {
    match m.content {
        Some(c) => byte_len(c),
        None => 0,
    }
}

/// The number of bytes of a message's content (none without content).
pub fn message_char_size(msg: &Message) -> (n: usize)
    requires
        message_size(msg@) <= usize::MAX,
    ensures
        n == message_size(msg@),
{
    match &msg.content {
        Some(c) => str_byte_len(c.as_str()),
        None => 0,
    }
}

// ---------------------------------------------------------------------------
// Session history
// ---------------------------------------------------------------------------

/// Who wrote a stored session message.
#[derive(Clone, Copy, PartialEq, Eq, Debug, Structural)]
pub enum SessionMessageRole {
    User,
    Assistant,
    Tool,
    System,
}

/// A message stored in a session. `tool_calls` holds the decoded calls of an
/// assistant message (none when absent or not decodable).
#[derive(Debug)]
pub struct SessionMessage {
    pub role: SessionMessageRole,
    pub content: String,
    pub tool_calls: Option<Vec<ToolCall>>,
    pub tool_call_id: Option<String>,
    pub document_id: Option<String>,
    pub chunk_index: Option<i32>,
}

pub struct SessionMessageView {
    pub role: SessionMessageRole,
    pub content: Seq<char>,
    pub tool_calls: Option<Seq<ToolCallView>>,
    pub tool_call_id: Option<Seq<char>>,
    pub document_id: Option<Seq<char>>,
    pub chunk_index: Option<i32>,
}

impl View for SessionMessage {
    type V = SessionMessageView;

    open spec fn view(&self) -> SessionMessageView {
        SessionMessageView {
            role: self.role,
            content: self.content@,
            tool_calls: opt_calls_view(self.tool_calls),
            tool_call_id: opt_view(self.tool_call_id),
            document_id: opt_view(self.document_id),
            chunk_index: self.chunk_index,
        }
    }
}

/// A stored role by its name; unknown names count as system messages.
pub fn session_role_from_name(name: &str) -> (r: SessionMessageRole)
    ensures
        r == (if name@ == "user"@ {
            SessionMessageRole::User
        } else if name@ == "assistant"@ {
            SessionMessageRole::Assistant
        } else if name@ == "tool"@ {
            SessionMessageRole::Tool
        } else {
            SessionMessageRole::System
        }),
{
    if crate::text::str_eq(name, "user") {
        SessionMessageRole::User
    } else if crate::text::str_eq(name, "assistant") {
        SessionMessageRole::Assistant
    } else if crate::text::str_eq(name, "tool") {
        SessionMessageRole::Tool
    } else {
        SessionMessageRole::System
    }
}

/// The maximum context, in characters (about 125K tokens).
pub const MAX_CONTEXT_CHARS: usize = 500_000;

/// What is kept aside for the new user message and the answer.
pub const RESPONSE_RESERVE: usize = 20_000;

pub open spec fn chunk_note(index: i32) -> Seq<char> {
    "[Chunk "@ + decimal_signed(index as int)
        + " \u{2014} already processed. Use read_document to access content.]"@
}

pub open spec fn document_note(id: Seq<char>, content: Seq<char>) -> Seq<char> {
    "[Document attached: id="@ + id + ". Use read_document tool to access its content.]\n"@
        + content
}

pub open spec fn trimmed_note(dropped: nat) -> Seq<char> {
    "["@ + decimal(dropped) + " older messages trimmed to fit context window]"@
}

/// The history message for a stored message: processed document parts are
/// replaced by a short note, attached documents are announced; system messages
/// are left out.
pub open spec fn history_entry(m: SessionMessageView) -> Option<MessageView> {
    match m.role {
        SessionMessageRole::User => Some(
            user_view(
                match m.chunk_index {
                    Some(i) => chunk_note(i),
                    None => match m.document_id {
                        Some(d) => document_note(d, m.content),
                        None => m.content,
                    },
                },
            ),
        ),
        SessionMessageRole::Assistant => Some(assistant_view(Some(m.content), m.tool_calls)),
        SessionMessageRole::Tool => Some(
            tool_view(
                match m.tool_call_id {
                    Some(t) => t,
                    None => Seq::empty(),
                },
                m.content,
            ),
        ),
        SessionMessageRole::System => None,
    }
}

/// The history messages of the stored messages, in order.
pub open spec fn history_entries(ms: Seq<SessionMessageView>) -> Seq<MessageView>
    decreases ms.len(),
{
    if ms.len() == 0 {
        Seq::empty()
    } else {
        history_entries(ms.drop_last()) + match history_entry(ms.last()) {
            Some(m) => seq![m],
            None => Seq::empty(),
        }
    }
}

/// Every stored assistant message comes into the history with its content and
/// the tool calls it made, so the tool answers after it answer calls the model
/// made.
pub proof fn law_history_keeps_tool_calls(ms: Seq<SessionMessageView>, i: int)
    requires
        0 <= i < ms.len(),
        ms[i].role == SessionMessageRole::Assistant,
    ensures
        exists|j: int|
            0 <= j < history_entries(ms).len() && #[trigger] history_entries(ms)[j] == (MessageView {
                role: "assistant"@,
                content: Some(ms[i].content),
                tool_calls: ms[i].tool_calls,
                tool_call_id: None,
            }),
    decreases ms.len(),
{
    let prev = history_entries(ms.drop_last());
    let want = MessageView { role: "assistant"@, content: Some(ms[i].content), tool_calls: ms[i].tool_calls, tool_call_id: None };
    if i == ms.len() - 1 {
        assert(history_entries(ms)[prev.len() as int] == want);
    } else {
        assert(ms.drop_last()[i] == ms[i]);
        law_history_keeps_tool_calls(ms.drop_last(), i);
        let j = choose|j: int| 0 <= j < prev.len() && #[trigger] prev[j] == want;
        assert(history_entries(ms)[j] == want);
    }
}

/// Total size of the messages `h`.
pub open spec fn total_size(h: Seq<MessageView>) -> nat
    decreases h.len(),
{
    if h.len() == 0 {
        0
    } else {
        total_size(h.drop_last()) + message_size(h.last())
    }
}

pub open spec fn sat_sub(a: nat, b: nat) -> nat {
    if a >= b {
        (a - b) as nat
    } else {
        0
    }
}

/// The characters left for the history next to a system prompt of `system_size`.
pub open spec fn history_budget(system_size: nat) -> nat {
    sat_sub(sat_sub(MAX_CONTEXT_CHARS as nat, system_size), RESPONSE_RESERVE as nat)
}

/// Walking back from index `i` with `running` characters of later messages:
/// one past the last message (other than the first) that no longer fits, or 0.
pub open spec fn keep_scan(h: Seq<MessageView>, budget: nat, i: int, running: nat) -> nat
    decreases i + 1,
{
    if i < 0 {
        0
    } else if running + message_size(h[i]) > budget && i > 0 {
        (i + 1) as nat
    } else {
        keep_scan(h, budget, i - 1, running + message_size(h[i]))
    }
}

/// Index of the first recent message kept when the history is trimmed (0: keep all).
pub open spec fn keep_from(h: Seq<MessageView>, budget: nat) -> nat {
    keep_scan(h, budget, h.len() - 1, 0)
}

/// The history within the budget: when over it, the first message (the session's
/// intent), a note of how many were dropped, and the most recent messages that fit.
pub open spec fn trimmed_history(h: Seq<MessageView>, budget: nat) -> Seq<MessageView> {
    if total_size(h) > budget {
        let k = keep_from(h, budget);
        if k > 0 {
            seq![h[0]] + (if k - 1 > 0 {
                seq![user_view(trimmed_note((k - 1) as nat))]
            } else {
                Seq::empty()
            }) + h.skip(k as int)
        } else {
            h
        }
    } else {
        h
    }
}

/// The messages sent to the model before a new user turn.
pub open spec fn message_history(schema: GraphSchemaView, ms: Seq<SessionMessageView>) -> Seq<
    MessageView,
> {
    let sp = system_prompt(schema);
    seq![system_view(sp)] + trimmed_history(
        history_entries(ms),
        history_budget(byte_len(sp)),
    )
}

/// The total size of `h` from index `i` on.
pub open spec fn suffix_size(h: Seq<MessageView>, i: int) -> nat {
    total_size(h.skip(i))
}

// ---------------------------------------------------------------------------
// Laws of the history
// ---------------------------------------------------------------------------

pub proof fn lemma_total_size_append(a: Seq<MessageView>, b: Seq<MessageView>)
    ensures
        total_size(a + b) == total_size(a) + total_size(b),
    decreases b.len(),
{
    if b.len() == 0 {
        assert(a + b =~= a);
    } else {
        assert((a + b).drop_last() =~= a + b.drop_last());
        lemma_total_size_append(a, b.drop_last());
    }
}

pub proof fn lemma_suffix_step(h: Seq<MessageView>, i: int)
    requires
        0 <= i < h.len(),
    ensures
        suffix_size(h, i) == message_size(h[i]) + suffix_size(h, i + 1),
{
    assert(h.skip(i) =~= seq![h[i]] + h.skip(i + 1));
    lemma_total_size_append(seq![h[i]], h.skip(i + 1));
    assert(seq![h[i]].drop_last() =~= Seq::<MessageView>::empty());
    assert(total_size(Seq::<MessageView>::empty()) == 0);
    assert(total_size(seq![h[i]]) == message_size(h[i]));
}

/// What the backward walk finds: the cut index is past a message other than the
/// first whose suffix exceeds the budget, and everything after it fits.
pub proof fn lemma_keep_scan(h: Seq<MessageView>, budget: nat, i: int, running: nat)
    requires
        -1 <= i < h.len(),
        running == suffix_size(h, i + 1),
        i >= 0 ==> running <= budget,
    ensures
        ({
            let k = keep_scan(h, budget, i, running);
            &&& k == 0 ==> forall|j: int| 1 <= j <= i ==> suffix_size(h, j) <= budget
            &&& k > 0 ==> 2 <= k <= i + 1 && suffix_size(h, k - 1) > budget && suffix_size(
                h,
                k as int,
            ) <= budget
        }),
    decreases i + 1,
{
    if i < 0 {
    } else {
        lemma_suffix_step(h, i);
        if running + message_size(h[i]) > budget && i > 0 {
        } else {
            lemma_keep_scan(h, budget, i - 1, running + message_size(h[i]));
        }
    }
}

/// When the history is trimmed, the recent messages kept after the note fit the
/// budget, and the one just before them would not have.
pub proof fn law_trimmed_tail_fits(h: Seq<MessageView>, budget: nat)
    requires
        total_size(h) > budget,
        keep_from(h, budget) > 0,
    ensures
        total_size(h.skip(keep_from(h, budget) as int)) <= budget,
        total_size(h.skip(keep_from(h, budget) - 1)) > budget,
        keep_from(h, budget) >= 2,
{
    assert(h.skip(h.len() as int) =~= Seq::<MessageView>::empty());
    lemma_keep_scan(h, budget, h.len() - 1, 0);
}

/// When no message other than the first can be dropped to fit, nothing is dropped.
pub proof fn law_untrimmed_when_nothing_fits(h: Seq<MessageView>, budget: nat)
    requires
        keep_from(h, budget) == 0,
    ensures
        trimmed_history(h, budget) == h,
        forall|j: int| 1 <= j < h.len() ==> suffix_size(h, j) <= budget,
{
    assert(h.skip(h.len() as int) =~= Seq::<MessageView>::empty());
    lemma_keep_scan(h, budget, h.len() - 1, 0);
}

/// A history within the budget is kept whole.
pub proof fn law_history_within_budget_kept(h: Seq<MessageView>, budget: nat)
    requires
        total_size(h) <= budget,
    ensures
        trimmed_history(h, budget) == h,
{
}

/// The first history message, which states the session's intent, is always kept first.
pub proof fn law_first_message_kept(h: Seq<MessageView>, budget: nat)
    requires
        h.len() > 0,
    ensures
        trimmed_history(h, budget)[0] == h[0],
{
}

// ---------------------------------------------------------------------------
// Building the history
// ---------------------------------------------------------------------------

fn history_entry_exec(m: &SessionMessage) -> (r: Option<Message>)
    ensures
        match history_entry(m@) {
            Some(v) => r matches Some(x) && x@ == v,
            None => r is None,
        },
{
    match m.role {
        SessionMessageRole::User => {
            match m.chunk_index {
                Some(i) => {
                    let mut s = String::new();
                    append_str(&mut s, "[Chunk ");
                    let d = decimal_i32_string(i);
                    append_string(&mut s, &d);
                    append_str(
                        &mut s,
                        " \u{2014} already processed. Use read_document to access content.]",
                    );
                    assert(s@ =~= chunk_note(i));
                    Some(Message::user(s.as_str()))
                },
                None => match &m.document_id {
                    Some(doc) => {
                        let mut s = String::new();
                        append_str(&mut s, "[Document attached: id=");
                        append_string(&mut s, doc);
                        append_str(&mut s, ". Use read_document tool to access its content.]\n");
                        append_string(&mut s, &m.content);
                        assert(s@ =~= document_note(doc@, m.content@));
                        Some(Message::user(s.as_str()))
                    },
                    None => Some(Message::user(m.content.as_str())),
                },
            }
        },
        SessionMessageRole::Assistant => {
            let calls = match &m.tool_calls {
                Some(v) => Some(duplicate_calls(v)),
                None => None,
            };
            Some(Message::assistant(Some(m.content.clone()), calls))
        },
        SessionMessageRole::Tool => {
            let id = match &m.tool_call_id {
                Some(t) => t.clone(),
                None => String::new(),
            };
            Some(Message::tool(id, m.content.as_str()))
        },
        SessionMessageRole::System => None,
    }
}

pub proof fn lemma_total_size_prefix(h: Seq<MessageView>, i: int)
    requires
        0 <= i <= h.len(),
    ensures
        total_size(h.take(i)) <= total_size(h),
        total_size(h.skip(i)) <= total_size(h),
{
    assert(h =~= h.take(i) + h.skip(i));
    lemma_total_size_append(h.take(i), h.skip(i));
}

/// The system prompt for `schema`, then the stored messages `existing` as history,
/// trimmed to the context budget (see `message_history`).
pub fn build_message_history(schema: &GraphSchema, existing: &Vec<SessionMessage>) -> (messages:
    Vec<Message>)
    requires
        byte_len(system_prompt(schema@)) <= usize::MAX,
        total_size(history_entries(Seq::new(existing@.len(), |i: int| existing@[i]@)))
            <= usize::MAX,
    ensures
        messages_view(messages@) == message_history(
            schema@,
            Seq::new(existing@.len(), |i: int| existing@[i]@),
        ),
{
    let ghost ms = Seq::new(existing@.len(), |i: int| existing@[i]@);
    let system_prompt = build_system_prompt(schema);
    let system_size = str_byte_len(system_prompt.as_str());
    let mut messages: Vec<Message> = Vec::new();
    messages.push(Message::system(system_prompt.as_str()));
    let budget = if MAX_CONTEXT_CHARS >= system_size {
        MAX_CONTEXT_CHARS - system_size
    } else {
        0
    };
    let budget = if budget >= RESPONSE_RESERVE {
        budget - RESPONSE_RESERVE
    } else {
        0
    };
    assert(budget == history_budget(byte_len(system_prompt@)));
    // First pass: the history messages and their total size.
    let mut history: Vec<Message> = Vec::new();
    let mut total: usize = 0;
    let mut i: usize = 0;
    while i < existing.len()
        invariant
            ms == Seq::new(existing@.len(), |i: int| existing@[i]@),
            total_size(history_entries(ms)) <= usize::MAX,
            i <= existing.len(),
            messages_view(history@) == history_entries(ms.take(i as int)),
            total == total_size(messages_view(history@)),
        decreases existing.len() - i,
    {
        proof {
            let p = ms.take(i + 1);
            assert(p.drop_last() =~= ms.take(i as int));
            lemma_total_size_prefix(history_entries(ms), 0);
            lemma_history_entries_prefix(ms, i + 1);
        }
        let ghost before = messages_view(history@);
        match history_entry_exec(&existing[i]) {
            Some(m) => {
                let ghost mv = m@;
                history.push(m);
                assert(messages_view(history@) =~= before.push(mv));
                assert(messages_view(history@).drop_last() =~= before);
                assert(messages_view(history@) =~= history_entries(ms.take(i + 1)));
                let size = message_char_size(&history[history.len() - 1]);
                total = total + size;
            },
            None => {},
        }
        assert(messages_view(history@) =~= history_entries(ms.take(i + 1)));
        i = i + 1;
    }
    assert(ms.take(existing.len() as int) =~= ms);
    let ghost h = messages_view(history@);
    if total > budget {
        // Walk back from the most recent message to find what fits.
        let mut keep: usize = 0;
        let mut running: usize = 0;
        let mut j: usize = history.len();
        proof {
            assert(h.skip(h.len() as int) =~= Seq::<MessageView>::empty());
        }
        while j > 0 && keep == 0
            invariant
                h == messages_view(history@),
                total_size(h) <= usize::MAX,
                j <= history.len(),
                keep == 0 ==> running == suffix_size(h, j as int),
                keep == 0 && j > 0 ==> running <= budget,
                keep == 0 ==> keep_from(h, budget as nat) == keep_scan(
                    h,
                    budget as nat,
                    j - 1,
                    running as nat,
                ),
                keep > 0 ==> keep == keep_from(h, budget as nat),
            decreases j,
        {
            let i = j - 1;
            proof {
                lemma_suffix_step(h, i as int);
                lemma_total_size_prefix(h, i as int);
            }
            let size = message_char_size(&history[i]);
            if running + size > budget && i > 0 {
                keep = i + 1;
                j = 0;
            } else {
                running = running + size;
                j = i;
            }
        }
        assert(keep == keep_from(h, budget as nat));
        if keep > 0 {
            proof {
                lemma_keep_scan(h, budget as nat, h.len() - 1, 0);
            }
            messages.push(history[0].duplicate());
            let dropped = keep - 1;
            if dropped > 0 {
                let mut note = String::new();
                append_str(&mut note, "[");
                let d = decimal_string(dropped);
                append_string(&mut note, &d);
                append_str(&mut note, " older messages trimmed to fit context window]");
                assert(note@ =~= trimmed_note(dropped as nat));
                messages.push(Message::user(note.as_str()));
            }
            let ghost head = messages_view(messages@);
            let mut k = keep;
            while k < history.len()
                invariant
                    h == messages_view(history@),
                    keep <= k <= history.len(),
                    messages_view(messages@) == head + h.subrange(keep as int, k as int),
                decreases history.len() - k,
            {
                let ghost before = messages_view(messages@);
                let c = history[k].duplicate();
                messages.push(c);
                assert(messages_view(messages@) =~= before.push(c@));
                assert(messages_view(messages@) =~= head + h.subrange(keep as int, k + 1));
                k = k + 1;
            }
            assert(h.subrange(keep as int, history.len() as int) =~= h.skip(keep as int));
            assert(messages_view(messages@) =~= message_history(schema@, ms));
            return messages;
        }
    }
    let ghost head = messages_view(messages@);
    let mut k: usize = 0;
    while k < history.len()
        invariant
            h == messages_view(history@),
            k <= history.len(),
            messages_view(messages@) == head + h.take(k as int),
        decreases history.len() - k,
    {
        let ghost before = messages_view(messages@);
        let c = history[k].duplicate();
        messages.push(c);
        assert(messages_view(messages@) =~= before.push(c@));
        assert(messages_view(messages@) =~= head + h.take(k + 1));
        k = k + 1;
    }
    assert(h.take(history.len() as int) =~= h);
    assert(messages_view(messages@) =~= message_history(schema@, ms));
    messages
}

pub proof fn lemma_history_entries_prefix(ms: Seq<SessionMessageView>, i: int)
    requires
        0 <= i <= ms.len(),
    ensures
        total_size(history_entries(ms.take(i))) <= total_size(history_entries(ms)),
    decreases ms.len() - i,
{
    if i < ms.len() {
        lemma_history_entries_prefix(ms, i + 1);
        let p = ms.take(i + 1);
        assert(p.drop_last() =~= ms.take(i));
        let e = match history_entry(p.last()) {
            Some(m) => seq![m],
            None => Seq::empty(),
        };
        lemma_total_size_append(history_entries(ms.take(i)), e);
    } else {
        assert(ms.take(i) =~= ms);
    }
}

} // verus!
