//! A streamed chat answer: the server-sent-event lines of the stream, and the
//! answer that their deltas build up (the text in pieces, each tool call from
//! fragments addressed by its index).
use vstd::prelude::*;
use crate::messages::{calls_view, FunctionCall, StreamChatResult, ToolCall, ToolCallView};
use crate::text::{
    append_string, has_prefix, is_white_space, is_white_space_exec, leading_white_space,
    lemma_leading_white_space_bound, owned, push_char, skip_white_space, string_of, to_chars,
    trim_start,
};

verus! {

// ---------------------------------------------------------------------------
// Lines
// ---------------------------------------------------------------------------

/// Number of trailing whitespace characters of `s`.
pub open spec fn trailing_white_space(s: Seq<char>) -> nat
    decreases s.len(),
{
    if s.len() > 0 && is_white_space(s.last()) {
        1 + trailing_white_space(s.drop_last())
    } else {
        0
    }
}

/// `str::trim`: `s` without its leading and trailing whitespace.
pub open spec fn trim(s: Seq<char>) -> Seq<char> {
    let t = trim_start(s);
    t.take(t.len() - trailing_white_space(t))
}

/// The complete lines of `s` (each without its `'\n'`) and the unfinished
/// line after the last `'\n'`.
pub open spec fn frame(s: Seq<char>) -> (Seq<Seq<char>>, Seq<char>)
    decreases s.len(),
{
    if s.len() == 0 {
        (Seq::empty(), Seq::empty())
    } else {
        let (lines, cur) = frame(s.drop_last());
        if s.last() == '\n' {
            (lines.push(cur), Seq::empty())
        } else {
            (lines, cur.push(s.last()))
        }
    }
}

pub const DATA_PREFIX: &'static str = "data: ";

pub const DONE_LINE: &'static str = "data: [DONE]";

/// The data of an event line: the trimmed line after "data: ", except the
/// closing "[DONE]"; empty and other lines carry none.
pub open spec fn line_data(line: Seq<char>) -> Option<Seq<char>> {
    let t = trim(line);
    if t.len() == 0 || t == DONE_LINE@ {
        None
    } else if has_prefix(t, DATA_PREFIX@) {
        Some(t.skip(DATA_PREFIX@.len() as int))
    } else {
        None
    }
}

/// The data of each line that carries some, in order.
pub open spec fn lines_data(lines: Seq<Seq<char>>) -> Seq<Seq<char>>
    decreases lines.len(),
{
    if lines.len() == 0 {
        Seq::empty()
    } else {
        match line_data(lines.last()) {
            Some(d) => lines_data(lines.drop_last()).push(d),
            None => lines_data(lines.drop_last()),
        }
    }
}

/// The text of bytes read from the stream: `String::from_utf8_lossy`, which
/// shows each invalid sequence as U+FFFD.
pub uninterp spec fn lossy_text(bytes: Seq<u8>) -> Seq<char>;

/// `String::from_utf8_lossy`, as an owned string. Named by `lossy_text`; of
/// bytes that are valid UTF-8 its documentation says the text is their
/// decoding, which is stated. Which characters replace invalid bytes is not.
#[verifier::external_body]
fn decode_lossy(bytes: &[u8]) -> (s: String)
    ensures
        s@ == lossy_text(bytes@),
        vstd::utf8::valid_utf8(bytes@) ==> s@ == vstd::utf8::decode_utf8(bytes@),
{
    String::from_utf8_lossy(bytes).into_owned()
}

pub proof fn lemma_trailing_white_space_bound(s: Seq<char>)
    ensures
        trailing_white_space(s) <= s.len(),
    decreases s.len(),
{
    if s.len() > 0 && is_white_space(s.last()) {
        lemma_trailing_white_space_bound(s.drop_last());
    }
}

/// `str::trim` of `v[from..to]`, as the range that remains.
fn trim_range(v: &Vec<char>, from: usize, to: usize) -> (r: (usize, usize))
    requires
        from <= to <= v.len(),
    ensures
        from <= r.0 <= r.1 <= to,
        v@.subrange(r.0 as int, r.1 as int) == trim(v@.subrange(from as int, to as int)),
{
    let ghost s = v@.subrange(from as int, to as int);
    let k = skip_white_space(v, from, to);
    proof {
        lemma_leading_white_space_bound(s);
    }
    let ghost t = trim_start(s);
    assert(t =~= v@.subrange(k as int, to as int));
    let mut j = to;
    while j > k && is_white_space_exec(v[j - 1])
        invariant
            k <= j <= to <= v.len(),
            t == v@.subrange(k as int, to as int),
            trailing_white_space(t) == (to - j) + trailing_white_space(v@.subrange(k as int, j as int)),
        decreases j - k,
    {
        let ghost u = v@.subrange(k as int, j as int);
        assert(u.drop_last() =~= v@.subrange(k as int, j - 1));
        j = j - 1;
    }
    proof {
        let u = v@.subrange(k as int, j as int);
        assert(trailing_white_space(u) == 0);
    }
    assert(t.take(t.len() - trailing_white_space(t)) =~= v@.subrange(k as int, j as int));
    (k, j)
}

/// The data of an event line (see `line_data`).
pub fn line_data_exec(line: &str) -> (r: Option<String>)
    ensures
        match r {
            Some(d) => line_data(line@) == Some(d@),
            None => line_data(line@) is None,
        },
{
    let v = to_chars(line);
    let (a, b) = trim_range(&v, 0, v.len());
    assert(v@.subrange(0, v@.len() as int) =~= line@);
    let ghost t = v@.subrange(a as int, b as int);
    if a == b {
        return None;
    }
    let done = to_chars(DONE_LINE);
    let prefix = to_chars(DATA_PREFIX);
    let mut same_as_done = b - a == done.len();
    let mut i: usize = 0;
    while same_as_done && i < done.len()
        invariant
            a <= b <= v.len(),
            t == v@.subrange(a as int, b as int),
            done@ == DONE_LINE@,
            same_as_done ==> b - a == done.len(),
            same_as_done ==> forall|j: int| 0 <= j < i ==> t[j] == done@[j],
            !same_as_done ==> t != DONE_LINE@,
            i <= done.len(),
        decreases done.len() - i,
    {
        if v[a + i] != done[i] {
            assert(t[i as int] != done@[i as int]);
            same_as_done = false;
        }
        i = i + 1;
    }
    if same_as_done {
        assert(t =~= DONE_LINE@);
        return None;
    }
    if b - a < prefix.len() {
        return None;
    }
    assert(trim(line@) == t);
    let mut k: usize = 0;
    while k < prefix.len()
        invariant
            a <= b <= v.len(),
            t == v@.subrange(a as int, b as int),
            prefix@ == DATA_PREFIX@,
            prefix.len() <= b - a,
            trim(line@) == t,
            t.len() > 0,
            t != DONE_LINE@,
            forall|j: int| 0 <= j < k ==> t[j] == prefix@[j],
            k <= prefix.len(),
        decreases prefix.len() - k,
    {
        if v[a + k] != prefix[k] {
            assert(t.take(prefix@.len() as int)[k as int] != prefix@[k as int]);
            return None;
        }
        k = k + 1;
    }
    assert(t.take(prefix@.len() as int) =~= DATA_PREFIX@);
    let d = string_of(&v, a + prefix.len(), b);
    assert(d@ =~= t.skip(DATA_PREFIX@.len() as int));
    Some(d)
}

/// The event lines of a stream, as they come in chunks of bytes: each chunk
/// is read as text and appended to what is left of the previous ones.
#[derive(Debug)]
pub struct SseBuffer {
    pending: String,
}

impl SseBuffer {
    /// The text received after the last complete line.
    pub closed spec fn pending(&self) -> Seq<char> {
        self.pending@
    }

    /// No text yet.
    pub fn new() -> (b: SseBuffer)
        ensures
            b.pending() == Seq::<char>::empty(),
    {
        SseBuffer { pending: String::new() }
    }

    /// Takes a chunk of the stream: the data of the lines that it completes, in
    /// order; the rest waits for the next chunk.
    pub fn push_chunk(&mut self, chunk: &[u8]) -> (data: Vec<String>)
        ensures
            ({
                let (lines, rest) = frame(old(self).pending() + lossy_text(chunk@));
                &&& final(self).pending() == rest
                &&& Seq::new(data@.len(), |i: int| data@[i]@) == lines_data(lines)
            }),
    {
        let text = decode_lossy(chunk);
        let mut all = String::new();
        append_string(&mut all, &self.pending);
        append_string(&mut all, &text);
        let v = to_chars(all.as_str());
        let ghost s = v@;
        let mut data: Vec<String> = Vec::new();
        let mut cur = String::new();
        let ghost mut lines: Seq<Seq<char>> = Seq::empty();
        let mut i: usize = 0;
        assert(s.take(0) =~= Seq::<char>::empty());
        while i < v.len()
            invariant
                i <= v.len(),
                s == v@,
                frame(s.take(i as int)) == (lines, cur@),
                Seq::new(data@.len(), |j: int| data@[j]@) == lines_data(lines),
            decreases v.len() - i,
        {
            assert(s.take(i + 1).drop_last() =~= s.take(i as int));
            let c = v[i];
            if c == '\n' {
                let ghost old_lines = lines;
                let ghost old_data = Seq::new(data@.len(), |j: int| data@[j]@);
                proof {
                    lines = lines.push(cur@);
                    assert(lines.drop_last() =~= old_lines);
                }
                match line_data_exec(cur.as_str()) {
                    Some(d) => {
                        data.push(d);
                        assert(Seq::new(data@.len(), |j: int| data@[j]@) =~= old_data.push(
                            data@[data@.len() - 1]@,
                        ));
                    },
                    None => {},
                }
                cur = String::new();
            } else {
                push_char(&mut cur, c);
            }
            i = i + 1;
        }
        assert(s.take(v.len() as int) =~= s);
        self.pending = cur;
        data
    }
}

// ---------------------------------------------------------------------------
// The answer
// ---------------------------------------------------------------------------

/// A fragment of a tool call: the call's index, and any of its id, its name,
/// and a piece of its arguments.
#[derive(Debug)]
pub struct ToolCallDelta {
    pub index: usize,
    pub id: Option<String>,
    pub name: Option<String>,
    pub arguments: Option<String>,
}

/// What one choice of a streamed event adds: text, and tool call fragments.
#[derive(Debug)]
pub struct StreamDelta {
    pub content: Option<String>,
    pub tool_calls: Option<Vec<ToolCallDelta>>,
}

pub struct DeltaCallView {
    pub index: nat,
    pub id: Option<Seq<char>>,
    pub name: Option<Seq<char>>,
    pub arguments: Option<Seq<char>>,
}

pub struct DeltaView {
    pub content: Option<Seq<char>>,
    pub tool_calls: Option<Seq<DeltaCallView>>,
}

/// A tool call as far as it has come.
pub struct BuilderView {
    pub id: Option<Seq<char>>,
    pub name: Option<Seq<char>>,
    pub arguments: Seq<char>,
}

/// What the deltas so far have built: the pieces of text, and the calls.
pub struct AnswerView {
    pub parts: Seq<Seq<char>>,
    pub calls: Seq<BuilderView>,
}

pub open spec fn opt_string_view(o: Option<String>) -> Option<Seq<char>> {
    match o {
        Some(s) => Some(s@),
        None => None,
    }
}

impl View for ToolCallDelta {
    type V = DeltaCallView;

    open spec fn view(&self) -> DeltaCallView {
        DeltaCallView {
            index: self.index as nat,
            id: opt_string_view(self.id),
            name: opt_string_view(self.name),
            arguments: opt_string_view(self.arguments),
        }
    }
}

pub open spec fn delta_calls_view(v: Seq<ToolCallDelta>) -> Seq<DeltaCallView> {
    Seq::new(v.len(), |i: int| v[i]@)
}

impl View for StreamDelta {
    type V = DeltaView;

    open spec fn view(&self) -> DeltaView {
        DeltaView {
            content: opt_string_view(self.content),
            tool_calls: match self.tool_calls {
                Some(v) => Some(delta_calls_view(v@)),
                None => None,
            },
        }
    }
}

pub open spec fn empty_builder() -> BuilderView {
    BuilderView { id: None, name: None, arguments: Seq::empty() }
}

/// The calls, with room made for index `index`.
pub open spec fn grow(calls: Seq<BuilderView>, index: nat) -> Seq<BuilderView> {
    if calls.len() <= index {
        calls + Seq::new((index + 1 - calls.len()) as nat, |i: int| empty_builder())
    } else {
        calls
    }
}

/// A fragment applied to its call: a given id or name replaces the one so
/// far; a piece of arguments is appended.
pub open spec fn apply_fragment(b: BuilderView, d: DeltaCallView) -> BuilderView {
    BuilderView {
        id: if d.id is Some { d.id } else { b.id },
        name: if d.name is Some { d.name } else { b.name },
        arguments: match d.arguments {
            Some(a) => b.arguments + a,
            None => b.arguments,
        },
    }
}

pub open spec fn apply_call(calls: Seq<BuilderView>, d: DeltaCallView) -> Seq<BuilderView> {
    let g = grow(calls, d.index);
    g.update(d.index as int, apply_fragment(g[d.index as int], d))
}

pub open spec fn apply_calls(calls: Seq<BuilderView>, ds: Seq<DeltaCallView>) -> Seq<BuilderView>
    decreases ds.len(),
{
    if ds.len() == 0 {
        calls
    } else {
        apply_call(apply_calls(calls, ds.drop_last()), ds.last())
    }
}

/// A delta applied to the answer: its text first, then its call fragments in order.
pub open spec fn apply_delta(a: AnswerView, d: DeltaView) -> AnswerView {
    AnswerView {
        parts: match d.content {
            Some(t) => a.parts.push(t),
            None => a.parts,
        },
        calls: match d.tool_calls {
            Some(ds) => apply_calls(a.calls, ds),
            None => a.calls,
        },
    }
}

/// The concatenation of the pieces.
pub open spec fn concat(parts: Seq<Seq<char>>) -> Seq<char>
    decreases parts.len(),
{
    if parts.len() == 0 {
        Seq::empty()
    } else {
        concat(parts.drop_last()) + parts.last()
    }
}

/// The calls that got both an id and a name, in index order.
pub open spec fn finished_calls(calls: Seq<BuilderView>) -> Seq<ToolCallView>
    decreases calls.len(),
{
    if calls.len() == 0 {
        Seq::empty()
    } else {
        let prev = finished_calls(calls.drop_last());
        let b = calls.last();
        match (b.id, b.name) {
            (Some(id), Some(name)) => prev.push(
                ToolCallView { id, type_: "function"@, name, arguments: b.arguments },
            ),
            _ => prev,
        }
    }
}

/// The complete answer: the text, if any piece came (even an empty one), and
/// the finished calls.
pub open spec fn final_answer(a: AnswerView) -> (Option<Seq<char>>, Seq<ToolCallView>) {
    (if a.parts.len() == 0 {
        None
    } else {
        Some(concat(a.parts))
    }, finished_calls(a.calls))
}

/// The answer being built from a stream's deltas.
#[derive(Debug)]
pub struct StreamAnswer {
    parts: Vec<String>,
    ids: Vec<Option<String>>,
    names: Vec<Option<String>>,
    arguments: Vec<String>,
}

impl View for StreamAnswer {
    type V = AnswerView;

    closed spec fn view(&self) -> AnswerView {
        AnswerView {
            parts: Seq::new(self.parts@.len(), |i: int| self.parts@[i]@),
            calls: Seq::new(
                self.ids@.len(),
                |i: int|
                    BuilderView {
                        id: opt_string_view(self.ids@[i]),
                        name: opt_string_view(self.names@[i]),
                        arguments: self.arguments@[i]@,
                    },
            ),
        }
    }
}

impl StreamAnswer {
    pub closed spec fn wf(&self) -> bool {
        self.ids@.len() == self.names@.len() && self.ids@.len() == self.arguments@.len()
    }

    /// Nothing received yet.
    pub fn new() -> (a: StreamAnswer)
        ensures
            a.wf(),
            a@ == (AnswerView { parts: Seq::empty(), calls: Seq::empty() }),
    {
        let a = StreamAnswer { parts: Vec::new(), ids: Vec::new(), names: Vec::new(), arguments: Vec::new() };
        assert(a@.parts =~= Seq::<Seq<char>>::empty());
        assert(a@.calls =~= Seq::<BuilderView>::empty());
        a
    }

    fn apply_call_exec(&mut self, d: &ToolCallDelta)
        requires
            old(self).wf(),
            d.index < usize::MAX,
        ensures
            final(self).wf(),
            final(self)@ == (AnswerView { parts: old(self)@.parts, calls: apply_call(old(self)@.calls, d@) }),
    {
        let ghost c0 = self@.calls;
        let ghost p0 = self@.parts;
        while self.ids.len() <= d.index
            invariant
                self.wf(),
                d.index < usize::MAX,
                self@.parts == p0,
                c0.len() <= self@.calls.len(),
                c0.len() > d.index ==> self@.calls.len() == c0.len(),
                c0.len() <= d.index ==> self@.calls.len() <= d.index + 1,
                forall|k: int| 0 <= k < c0.len() ==> #[trigger] self@.calls[k] == c0[k],
                forall|k: int| c0.len() <= k < self@.calls.len() ==> #[trigger] self@.calls[k] == empty_builder(),
            decreases d.index + 1 - self.ids.len(),
        {
            let ghost before = self@.calls;
            self.ids.push(None);
            self.names.push(None);
            self.arguments.push(String::new());
            assert(self@.calls =~= before.push(empty_builder()));
        }
        let ghost g = self@.calls;
        assert(g =~= grow(c0, d@.index));
        let i = d.index;
        match &d.id {
            Some(id) => {
                self.ids.set(i, Some(id.clone()));
            },
            None => {},
        }
        match &d.name {
            Some(n) => {
                self.names.set(i, Some(n.clone()));
            },
            None => {},
        }
        match &d.arguments {
            Some(a) => {
                let mut s = String::new();
                append_string(&mut s, &self.arguments[i]);
                append_string(&mut s, a);
                self.arguments.set(i, s);
            },
            None => {},
        }
        assert(self@.parts =~= p0);
        assert(self@.calls =~= g.update(i as int, apply_fragment(g[i as int], d@)));
    }

    /// Applies a delta (see `apply_delta`).
    pub fn apply(&mut self, d: &StreamDelta)
        requires
            old(self).wf(),
            d.tool_calls matches Some(v) ==> forall|i: int| 0 <= i < v@.len() ==> #[trigger] v@[i].index < usize::MAX,
        ensures
            final(self).wf(),
            final(self)@ == apply_delta(old(self)@, d@),
    {
        let ghost a0 = self@;
        match &d.content {
            Some(t) => {
                let ghost before = self@.parts;
                self.parts.push(t.clone());
                assert(self@.parts =~= before.push(t@));
            },
            None => {},
        }
        let ghost a1 = self@;
        match &d.tool_calls {
            Some(v) => {
                let ghost dv = delta_calls_view(v@);
                let mut i: usize = 0;
                assert(dv.take(0) =~= Seq::<DeltaCallView>::empty());
                while i < v.len()
                    invariant
                        self.wf(),
                        i <= v@.len(),
                        dv == delta_calls_view(v@),
                        forall|j: int| 0 <= j < v@.len() ==> #[trigger] v@[j].index < usize::MAX,
                        self@.parts == a1.parts,
                        self@.calls == apply_calls(a1.calls, dv.take(i as int)),
                    decreases v.len() - i,
                {
                    assert(dv.take(i + 1).drop_last() =~= dv.take(i as int));
                    assert(dv.take(i + 1).last() == v@[i as int]@);
                    self.apply_call_exec(&v[i]);
                    i = i + 1;
                }
                assert(dv.take(v.len() as int) =~= dv);
            },
            None => {},
        }
    }

    /// The complete answer (see `final_answer`).
    pub fn finish(&self) -> (r: StreamChatResult)
        requires
            self.wf(),
        ensures
            (match r.content {
                Some(c) => Some(c@),
                None => None::<Seq<char>>,
            }, calls_view(r.tool_calls@)) == final_answer(self@),
    {
        let ghost av = self@;
        let content = if self.parts.len() == 0 {
            None
        } else {
            let mut s = String::new();
            let mut i: usize = 0;
            while i < self.parts.len()
                invariant
                    i <= self.parts@.len(),
                    av == self@,
                    s@ == concat(av.parts.take(i as int)),
                decreases self.parts.len() - i,
            {
                assert(av.parts.take(i + 1).drop_last() =~= av.parts.take(i as int));
                append_string(&mut s, &self.parts[i]);
                i = i + 1;
            }
            assert(av.parts.take(self.parts.len() as int) =~= av.parts);
            Some(s)
        };
        let mut calls: Vec<ToolCall> = Vec::new();
        let mut i: usize = 0;
        assert(av.calls.take(0) =~= Seq::<BuilderView>::empty());
        while i < self.ids.len()
            invariant
                self.wf(),
                i <= self.ids@.len(),
                av == self@,
                calls_view(calls@) == finished_calls(av.calls.take(i as int)),
            decreases self.ids.len() - i,
        {
            assert(av.calls.take(i + 1).drop_last() =~= av.calls.take(i as int));
            assert(av.calls.take(i + 1).last() == av.calls[i as int]);
            match (&self.ids[i], &self.names[i]) {
                (Some(id), Some(name)) => {
                    let ghost before = calls_view(calls@);
                    let c = ToolCall {
                        id: id.clone(),
                        type_: owned("function"),
                        function: FunctionCall { name: name.clone(), arguments: self.arguments[i].clone() },
                    };
                    calls.push(c);
                    assert(calls_view(calls@) =~= before.push(calls@[calls@.len() - 1]@));
                },
                _ => {},
            }
            i = i + 1;
        }
        assert(av.calls.take(self.ids.len() as int) =~= av.calls);
        StreamChatResult { content, tool_calls: calls }
    }
}

// ---------------------------------------------------------------------------
// Laws
// ---------------------------------------------------------------------------

/// Framing does not depend on where the stream was cut into chunks: the
/// lines of `a + b` are those of `a`, then those that the rest of `a` and `b`
/// complete.
pub proof fn law_frame_chunks(a: Seq<char>, b: Seq<char>)
    ensures
        frame(a + b) == ({
            let (la, ra) = frame(a);
            let (lb, rb) = frame(ra + b);
            (la + lb, rb)
        }),
    decreases b.len(),
{
    let (la, ra) = frame(a);
    lemma_frame_rest(a);
    if b.len() == 0 {
        assert(a + b =~= a);
        assert(ra + b =~= ra);
        lemma_frame_no_newline(ra);
        assert(la + Seq::<Seq<char>>::empty() =~= la);
    } else {
        law_frame_chunks(a, b.drop_last());
        assert((a + b).drop_last() =~= a + b.drop_last());
        assert((ra + b).drop_last() =~= ra + b.drop_last());
        let (lb, rb) = frame(ra + b.drop_last());
        if b.last() == '\n' {
            assert(la + lb.push(rb) =~= (la + lb).push(rb));
        }
    }
}

/// The unfinished line holds no line break.
pub proof fn lemma_frame_rest(s: Seq<char>)
    ensures
        forall|i: int| 0 <= i < frame(s).1.len() ==> frame(s).1[i] != '\n',
    decreases s.len(),
{
    if s.len() > 0 {
        lemma_frame_rest(s.drop_last());
        let prev = frame(s.drop_last()).1;
        if s.last() != '\n' {
            assert forall|i: int| 0 <= i < frame(s).1.len() implies frame(s).1[i] != '\n' by {
                if i < prev.len() {
                    assert(frame(s).1[i] == prev[i]);
                }
            }
        }
    }
}

/// The unfinished line of a stream never holds a line break, and framing it
/// again gives it back whole.
pub proof fn lemma_frame_no_newline(r: Seq<char>)
    requires
        forall|i: int| 0 <= i < r.len() ==> r[i] != '\n',
    ensures
        frame(r) == (Seq::<Seq<char>>::empty(), r),
    decreases r.len(),
{
    if r.len() > 0 {
        lemma_frame_no_newline(r.drop_last());
        assert(r.drop_last().push(r.last()) =~= r);
    }
}

} // verus!
