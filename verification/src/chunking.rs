//! Splitting a large attached document into parts that are sent to the
//! model as successive user turns.
use vstd::prelude::*;
use crate::text::{
    byte_len, byte_offset, char_width, char_width_exec, decimal, is_first_occurrence,
    is_last_occurrence, lemma_byte_len_subrange, lemma_byte_offset_full,
    lemma_byte_offset_monotone, lemma_byte_offset_step, occurs_at, skip_white_space, string_of,
    to_chars, trim_start, opt_view, append_str, append_string, decimal_string,
};

verus! {

/// Maximum bytes of document text per part (about 2000 tokens).
pub const MAX_CHUNK_CHARS: usize = 8000;

/// Marks the start of an attached document in a combined message.
pub open spec fn doc_prefix() -> Seq<char> {
    "[Document content]\n"@
}

/// Separates the document from the user's own words in a combined message.
pub open spec fn msg_separator() -> Seq<char> {
    "\n\n[User message]\n"@
}

pub open spec fn paragraph_break() -> Seq<char> {
    seq!['\n', '\n']
}

pub open spec fn line_break() -> Seq<char> {
    seq!['\n']
}

/// First index at or after `i` where `pat` occurs in `s`.
pub open spec fn find_from(s: Seq<char>, pat: Seq<char>, i: int) -> Option<int>
    decreases s.len() + 1 - i,
{
    if i < 0 || i > s.len() || i + pat.len() > s.len() {
        None
    } else if occurs_at(s, pat, i) {
        Some(i)
    } else {
        find_from(s, pat, i + 1)
    }
}

/// `s.find(pat)`.
pub open spec fn find_first(s: Seq<char>, pat: Seq<char>) -> Option<int> {
    find_from(s, pat, 0)
}

/// Last index at or before `i` where `pat` occurs in `s`.
pub open spec fn rfind_upto(s: Seq<char>, pat: Seq<char>, i: int) -> Option<int>
    decreases i + 1,
{
    if i < 0 {
        None
    } else if occurs_at(s, pat, i) {
        Some(i)
    } else {
        rfind_upto(s, pat, i - 1)
    }
}

/// `s.rfind(pat)`.
pub open spec fn rfind_last(s: Seq<char>, pat: Seq<char>) -> Option<int> {
    rfind_upto(s, pat, s.len() - pat.len())
}

/// The document text and the optional user message of a combined message.
pub open spec fn parse_document_spec(m: Seq<char>) -> (Option<Seq<char>>, Option<Seq<char>>) {
    let p = doc_prefix();
    if m.len() >= p.len() && m.take(p.len() as int) == p {
        let rest = m.skip(p.len() as int);
        match find_first(rest, msg_separator()) {
            Some(i) => (Some(rest.take(i)), Some(rest.skip(i + msg_separator().len()))),
            None => (Some(rest), None),
        }
    } else {
        (None, None)
    }
}

/// The first character index at or after `e` whose byte offset reaches `target`
/// (or the length of `s`).
pub open spec fn window_end(s: Seq<char>, e: int, target: nat) -> int
    decreases s.len() - e,
{
    if e < 0 || e >= s.len() || byte_offset(s, e) >= target {
        e
    } else {
        window_end(s, e + 1, target)
    }
}

/// Where a piece that starts at `start` and may run up to `end` is cut:
/// after the last blank line in the window, else after its last line break,
/// else at the end of the window.
pub open spec fn cut_point(s: Seq<char>, start: int, end: int) -> int {
    let w = s.subrange(start, end);
    match rfind_last(w, paragraph_break()) {
        Some(p) => start + p + 2,
        None => match rfind_last(w, line_break()) {
            Some(p) => start + p + 1,
            None => end,
        },
    }
}

/// The untrimmed pieces of `s[start..]` of at most `max` bytes each; `None` where
/// a window would end inside a multi-byte character (the byte slice would panic).
pub open spec fn pieces_from(s: Seq<char>, start: int, max: nat) -> Option<Seq<Seq<char>>>
    decreases s.len() - start,
{
    if start < 0 || start >= s.len() || max == 0 {
        Some(Seq::empty())
    } else if byte_offset(s, start) + max >= byte_len(s) {
        Some(seq![s.skip(start)])
    } else {
        let target = byte_offset(s, start) + max;
        let e = window_end(s, start, target);
        if byte_offset(s, e) != target {
            None
        } else {
            let c = cut_point(s, start, e);
            if c <= start || c > s.len() {
                None
            } else {
                match pieces_from(s, c, max) {
                    Some(rest) => Some(seq![s.subrange(start, c)] + rest),
                    None => None,
                }
            }
        }
    }
}

/// The parts of `s`: its pieces, each without leading whitespace.
pub open spec fn split_spec(s: Seq<char>, max: nat) -> Option<Seq<Seq<char>>> {
    match pieces_from(s, 0, max) {
        Some(ps) => Some(ps.map_values(|p: Seq<char>| trim_start(p))),
        None => None,
    }
}

/// The header line of part `i` (0-based) of `total`.
pub open spec fn part_label(i: nat, total: nat) -> Seq<char> {
    "[Document content \u{2014} Part "@ + decimal(i + 1) + "/"@ + decimal(total) + "]"@
}

/// The text of part `i` of `total`, holding `chunk` and, in the first part, the user message.
pub open spec fn format_part(i: nat, total: nat, chunk: Seq<char>, msg: Option<Seq<char>>) -> Seq<
    char,
> {
    let head = part_label(i, total) + "\n"@ + chunk;
    if i == 0 {
        match msg {
            Some(u) => head + "\n\n[User message]\n"@ + u,
            None => head,
        }
    } else {
        head + continue_instruction()
    }
}

pub open spec fn continue_instruction() -> Seq<char> {
    "\n\nContinue extracting knowledge from this part of the document. Reuse existing schemas and resolve entities that appeared in previous parts."@
}

/// The messages that `chunk_user_message` returns for `m`; `None` where it would panic.
pub open spec fn chunk_spec(m: Seq<char>) -> Option<Seq<Seq<char>>> {
    let (doc, msg) = parse_document_spec(m);
    match doc {
        Some(d) => if byte_len(d) > MAX_CHUNK_CHARS {
            match split_spec(d, MAX_CHUNK_CHARS as nat) {
                Some(cs) => Some(
                    Seq::new(cs.len(), |i: int| format_part(i as nat, cs.len(), cs[i], msg)),
                ),
                None => None,
            }
        } else {
            Some(seq![m])
        },
        None => Some(seq![m]),
    }
}

pub open spec fn concat_all(ps: Seq<Seq<char>>) -> Seq<char>
    decreases ps.len(),
{
    if ps.len() == 0 {
        Seq::empty()
    } else {
        ps[0] + concat_all(ps.drop_first())
    }
}

// ---------------------------------------------------------------------------
// Facts about the search functions
// ---------------------------------------------------------------------------

pub proof fn lemma_find_from(s: Seq<char>, pat: Seq<char>, i: int)
    requires
        0 <= i,
    ensures
        match find_from(s, pat, i) {
            Some(k) => i <= k && occurs_at(s, pat, k) && forall|j: int|
                i <= j < k ==> !occurs_at(s, pat, j),
            None => forall|j: int| i <= j ==> !occurs_at(s, pat, j),
        },
    decreases s.len() + 1 - i,
{
    if i > s.len() || i + pat.len() > s.len() {
    } else if occurs_at(s, pat, i) {
    } else {
        lemma_find_from(s, pat, i + 1);
    }
}

/// `find_first` is the first occurrence.
pub proof fn lemma_find_first(s: Seq<char>, pat: Seq<char>)
    ensures
        is_first_occurrence(s, pat, find_first(s, pat)),
{
    lemma_find_from(s, pat, 0);
}

pub proof fn lemma_rfind_upto(s: Seq<char>, pat: Seq<char>, i: int)
    requires
        i + pat.len() <= s.len(),
    ensures
        match rfind_upto(s, pat, i) {
            Some(k) => 0 <= k <= i && occurs_at(s, pat, k) && forall|j: int|
                k < j <= i ==> !occurs_at(s, pat, j),
            None => forall|j: int| j <= i ==> !occurs_at(s, pat, j),
        },
    decreases i + 1,
{
    if i < 0 {
    } else if occurs_at(s, pat, i) {
    } else {
        lemma_rfind_upto(s, pat, i - 1);
    }
}

/// `rfind_last` is the last occurrence.
pub proof fn lemma_rfind_last(s: Seq<char>, pat: Seq<char>)
    ensures
        is_last_occurrence(s, pat, rfind_last(s, pat)),
{
    if pat.len() <= s.len() {
        lemma_rfind_upto(s, pat, s.len() - pat.len());
    } else {
        lemma_rfind_upto_neg(s, pat, s.len() - pat.len());
    }
}

proof fn lemma_rfind_upto_neg(s: Seq<char>, pat: Seq<char>, i: int)
    requires
        i < 0,
        pat.len() > s.len(),
    ensures
        rfind_upto(s, pat, i) is None,
        forall|j: int| !occurs_at(s, pat, j),
{
}

// ---------------------------------------------------------------------------
// Facts about the cut
// ---------------------------------------------------------------------------

pub proof fn lemma_window_end(s: Seq<char>, e: int, target: nat)
    requires
        0 <= e <= s.len(),
    ensures
        e <= window_end(s, e, target) <= s.len(),
        window_end(s, e, target) < s.len() ==> byte_offset(s, window_end(s, e, target))
            >= target,
        forall|k: int| e <= k < window_end(s, e, target) ==> byte_offset(s, k) < target,
    decreases s.len() - e,
{
    if e >= s.len() || byte_offset(s, e) >= target {
    } else {
        lemma_window_end(s, e + 1, target);
    }
}

/// The cut lies strictly after the start and no later than the window end.
pub proof fn lemma_cut_point(s: Seq<char>, start: int, end: int)
    requires
        0 <= start < end <= s.len(),
    ensures
        start < cut_point(s, start, end) <= end,
{
    let w = s.subrange(start, end);
    lemma_rfind_last(w, paragraph_break());
    lemma_rfind_last(w, line_break());
}

/// The window ends after its start when a byte budget is left.
pub proof fn lemma_window_after_start(s: Seq<char>, start: int, max: nat)
    requires
        0 <= start < s.len(),
        max > 0,
        byte_offset(s, start) + max < byte_len(s),
        byte_offset(s, window_end(s, start, byte_offset(s, start) + max)) == byte_offset(s, start)
            + max,
    ensures
        start < window_end(s, start, byte_offset(s, start) + max) <= s.len(),
{
    lemma_window_end(s, start, byte_offset(s, start) + max);
}

// ---------------------------------------------------------------------------
// Laws of the split
// ---------------------------------------------------------------------------

/// Every piece is non-empty and holds at most `max` bytes, and the pieces
/// put back together give the text from `start` on.
pub proof fn law_pieces(s: Seq<char>, start: int, max: nat)
    requires
        0 <= start <= s.len(),
        max > 0,
        pieces_from(s, start, max) is Some,
    ensures
        concat_all(pieces_from(s, start, max).unwrap()) == s.skip(start),
        forall|k: int|
            0 <= k < pieces_from(s, start, max).unwrap().len() ==> {
                let p = #[trigger] pieces_from(s, start, max).unwrap()[k];
                &&& p.len() > 0
                &&& byte_len(p) <= max
            },
    decreases s.len() - start,
{
    let ps = pieces_from(s, start, max).unwrap();
    if start >= s.len() {
        assert(s.skip(start) =~= Seq::<char>::empty());
    } else if byte_offset(s, start) + max >= byte_len(s) {
        let p = s.skip(start);
        assert(concat_all(ps.drop_first()) =~= Seq::<char>::empty());
        assert(p + Seq::<char>::empty() =~= p);
        lemma_byte_len_subrange(s, start, s.len() as int);
        lemma_byte_offset_full(s);
        assert(s.subrange(start, s.len() as int) =~= p);
    } else {
        let target = byte_offset(s, start) + max;
        let e = window_end(s, start, target);
        let c = cut_point(s, start, e);
        lemma_window_after_start(s, start, max);
        lemma_cut_point(s, start, e);
        law_pieces(s, c, max);
        let rest = pieces_from(s, c, max).unwrap();
        assert(ps == seq![s.subrange(start, c)] + rest);
        assert(ps.drop_first() =~= rest);
        assert(s.skip(start) =~= s.subrange(start, c) + s.skip(c));
        lemma_byte_len_subrange(s, start, c);
        lemma_byte_offset_monotone(s, c, e);
        assert forall|k: int| 0 <= k < ps.len() implies {
            let p = #[trigger] ps[k];
            &&& p.len() > 0
            &&& byte_len(p) <= max
        } by {
            if k > 0 {
                assert(ps[k] == rest[k - 1]);
            }
        }
    }
}

/// A piece that stops before the end of the text is cut at a break of its
/// window, the next `max` bytes (which end at `k`): right after the window's
/// last blank line if it has one; else right after its last line break; else
/// at the window's end.
pub proof fn law_piece_cut_prefers_blank_lines(s: Seq<char>, start: int, max: nat, k: int)
    requires
        0 <= start < k <= s.len(),
        max > 0,
        byte_offset(s, k) == byte_offset(s, start) + max,
        byte_offset(s, start) + max < byte_len(s),
        pieces_from(s, start, max) is Some,
    ensures
        ({
            let p = pieces_from(s, start, max).unwrap()[0];
            let w = s.subrange(start, k);
            let n = p.len() as int;
            let blank = seq!['\n', '\n'];
            &&& 0 < n <= w.len()
            &&& p == w.take(n)
            &&& (exists|q: int| occurs_at(w, blank, q)) ==> occurs_at(w, blank, n - 2) && forall|q: int|
                occurs_at(w, blank, q) ==> q <= n - 2
            &&& (!(exists|q: int| occurs_at(w, blank, q)) && exists|q: int| 0 <= q < w.len() && w[q] == '\n')
                ==> w[n - 1] == '\n' && forall|q: int| n <= q < w.len() ==> w[q] != '\n'
            &&& (!(exists|q: int| occurs_at(w, blank, q)) && !exists|q: int| 0 <= q < w.len() && w[q] == '\n')
                ==> n == w.len()
        }),
{
    let target = byte_offset(s, start) + max;
    let e = window_end(s, start, target);
    lemma_window_end(s, start, target);
    assert(byte_offset(s, e) == target);
    if k < e {
        assert(byte_offset(s, k) < target);
    }
    if k > e {
        lemma_byte_offset_monotone(s, e, k);
    }
    assert(k == e);
    let c = cut_point(s, start, e);
    lemma_cut_point(s, start, e);
    let ps = pieces_from(s, start, max).unwrap();
    assert(ps[0] == s.subrange(start, c));
    let w = s.subrange(start, k);
    let n = c - start;
    assert(ps[0] =~= w.take(n));
    lemma_rfind_last(w, paragraph_break());
    lemma_rfind_last(w, line_break());
    assert(paragraph_break() =~= seq!['\n', '\n']);
    assert(line_break() =~= seq!['\n']);
    assert forall|q: int| 0 <= q < w.len() implies (occurs_at(w, line_break(), q) <==> w[q] == '\n') by {
        assert(w.subrange(q, q + 1) =~= seq![w[q]]);
        assert(w.subrange(q, q + 1)[0] == w[q]);
        assert(line_break()[0] == '\n');
        assert(line_break().len() == 1);
        if w[q] == '\n' {
            assert(w.subrange(q, q + 1) =~= line_break());
        }
        if occurs_at(w, line_break(), q) {
            assert(w.subrange(q, q + 1)[0] == line_break()[0]);
        }
    }
    assert(w.subrange(0, w.len() as int) =~= w);
    match rfind_last(w, paragraph_break()) {
        Some(p) => {
            assert(n == p + 2);
        },
        None => {
            assert(!(exists|q: int| occurs_at(w, seq!['\n', '\n'], q)));
            match rfind_last(w, line_break()) {
                Some(p) => {
                    assert(n == p + 1);
                    assert(occurs_at(w, line_break(), p));
                    assert(w[p] == '\n');
                    assert forall|q: int| n <= q < w.len() implies w[q] != '\n' by {
                        assert(!occurs_at(w, line_break(), q));
                    }
                },
                None => {
                    assert(n == w.len());
                    assert forall|q: int| 0 <= q < w.len() implies w[q] != '\n' by {
                        assert(!occurs_at(w, line_break(), q));
                    }
                },
            }
        },
    }
}

/// A text whose characters are all one byte wide always splits.
pub proof fn law_single_byte_text_splits(s: Seq<char>, start: int, max: nat)
    requires
        0 <= start <= s.len(),
        max > 0,
        forall|i: int| 0 <= i < s.len() ==> char_width(#[trigger] s[i]) == 1,
    ensures
        pieces_from(s, start, max) is Some,
    decreases s.len() - start,
{
    if start >= s.len() {
    } else if byte_offset(s, start) + max >= byte_len(s) {
    } else {
        let target = byte_offset(s, start) + max;
        let e = window_end(s, start, target);
        lemma_single_byte_offsets(s);
        lemma_window_end(s, start, target);
        lemma_byte_offset_full(s);
        assert(byte_offset(s, start) == start);
        assert(byte_offset(s, s.len() as int) == s.len());
        if e == s.len() {
            assert(byte_offset(s, e - 1) < target);
            assert(false);
        }
        assert(byte_offset(s, e) >= target);
        if e > start {
            assert(byte_offset(s, e - 1) < target);
        }
        assert(byte_offset(s, e) == target);
        lemma_window_after_start(s, start, max);
        lemma_cut_point(s, start, e);
        law_single_byte_text_splits(s, cut_point(s, start, e), max);
    }
}

proof fn lemma_single_byte_offsets(s: Seq<char>)
    requires
        forall|i: int| 0 <= i < s.len() ==> char_width(#[trigger] s[i]) == 1,
    ensures
        forall|i: int| 0 <= i <= s.len() ==> #[trigger] byte_offset(s, i) == i,
{
    assert forall|i: int| 0 <= i <= s.len() implies #[trigger] byte_offset(s, i) == i by {
        lemma_single_byte_prefix(s, i);
    }
}

proof fn lemma_single_byte_prefix(s: Seq<char>, i: int)
    requires
        0 <= i <= s.len(),
        forall|i: int| 0 <= i < s.len() ==> char_width(#[trigger] s[i]) == 1,
    ensures
        byte_offset(s, i) == i,
    decreases i,
{
    if i > 0 {
        lemma_single_byte_prefix(s, i - 1);
        lemma_byte_offset_step(s, i - 1);
    }
}

// ---------------------------------------------------------------------------
// Executable code
// ---------------------------------------------------------------------------

/// Whether `pat` occurs in `v[lo..hi]` at relative index `i`.
fn matches_at(v: &Vec<char>, lo: usize, hi: usize, pat: &Vec<char>, i: usize) -> (b: bool)
    requires
        lo <= hi <= v.len(),
    ensures
        b == occurs_at(v@.subrange(lo as int, hi as int), pat@, i as int),
{
    let ghost w = v@.subrange(lo as int, hi as int);
    if i > hi - lo || pat.len() > hi - lo - i {
        return false;
    }
    let mut k: usize = 0;
    while k < pat.len()
        invariant
            w == v@.subrange(lo as int, hi as int),
            lo <= hi <= v.len(),
            i + pat.len() <= hi - lo,
            0 <= k <= pat.len(),
            forall|j: int| 0 <= j < k ==> w[i + j] == pat@[j],
        decreases pat.len() - k,
    {
        if v[lo + i + k] != pat[k] {
            assert(w.subrange(i as int, i + pat.len())[k as int] != pat@[k as int]);
            return false;
        }
        k = k + 1;
    }
    assert(w.subrange(i as int, i + pat.len()) =~= pat@);
    true
}

/// `v[lo..hi].find(pat)`, relative to `lo`.
fn find_in(v: &Vec<char>, lo: usize, hi: usize, pat: &Vec<char>) -> (r: Option<usize>)
    requires
        lo <= hi <= v.len(),
        pat.len() > 0,
    ensures
        r == (match find_first(v@.subrange(lo as int, hi as int), pat@) {
            Some(k) => Some(k as usize),
            None => None::<usize>,
        }),
{
    let ghost w = v@.subrange(lo as int, hi as int);
    if pat.len() > hi - lo {
        return None;
    }
    let mut i: usize = 0;
    while i <= hi - lo - pat.len()
        invariant
            lo <= hi <= v.len(),
            pat.len() > 0,
            pat.len() <= hi - lo,
            w == v@.subrange(lo as int, hi as int),
            i <= hi - lo - pat.len() + 1,
            find_first(w, pat@) == find_from(w, pat@, i as int),
        decreases hi - lo - pat.len() + 1 - i,
    {
        if matches_at(v, lo, hi, pat, i) {
            return Some(i);
        }
        i = i + 1;
    }
    None
}

/// `v[lo..hi].rfind(pat)`, relative to `lo`, for a non-empty `pat`.
fn rfind_in(v: &Vec<char>, lo: usize, hi: usize, pat: &Vec<char>) -> (r: Option<usize>)
    requires
        lo <= hi <= v.len(),
        pat.len() > 0,
    ensures
        r == (match rfind_last(v@.subrange(lo as int, hi as int), pat@) {
            Some(k) => Some(k as usize),
            None => None::<usize>,
        }),
        r matches Some(k) ==> k + pat.len() <= hi - lo,
{
    let ghost w = v@.subrange(lo as int, hi as int);
    if pat.len() > hi - lo {
        return None;
    }
    let mut i: usize = hi - lo - pat.len() + 1;
    while i > 0
        invariant
            lo <= hi <= v.len(),
            w == v@.subrange(lo as int, hi as int),
            pat.len() <= hi - lo,
            i <= hi - lo - pat.len() + 1,
            rfind_last(w, pat@) == rfind_upto(w, pat@, i - 1),
        decreases i,
    {
        if matches_at(v, lo, hi, pat, i - 1) {
            return Some(i - 1);
        }
        i = i - 1;
    }
    None
}

/// Bytes of `v[lo..hi]`.
fn bytes_between(v: &Vec<char>, lo: usize, hi: usize) -> (n: usize)
    requires
        lo <= hi <= v.len(),
        byte_len(v@) <= isize::MAX,
    ensures
        n == byte_offset(v@, hi as int) - byte_offset(v@, lo as int),
{
    let mut n: usize = 0;
    let mut i = lo;
    proof {
        lemma_byte_offset_monotone(v@, hi as int, v.len() as int);
        lemma_byte_offset_full(v@);
    }
    while i < hi
        invariant
            lo <= i <= hi <= v.len(),
            byte_offset(v@, hi as int) <= isize::MAX,
            n == byte_offset(v@, i as int) - byte_offset(v@, lo as int),
            byte_offset(v@, lo as int) <= byte_offset(v@, i as int),
        decreases hi - i,
    {
        proof {
            lemma_byte_offset_step(v@, i as int);
            lemma_byte_offset_monotone(v@, i + 1, hi as int);
        }
        n = n + char_width_exec(v[i]);
        i = i + 1;
    }
    n
}

/// `v[lo..hi].trim_start()` as a string.
fn trimmed_string(v: &Vec<char>, lo: usize, hi: usize) -> (s: String)
    requires
        lo <= hi <= v.len(),
    ensures
        s@ == trim_start(v@.subrange(lo as int, hi as int)),
{
    let k = skip_white_space(v, lo, hi);
    let s = string_of(v, k, hi);
    assert(v@.subrange(lo as int, hi as int).skip(k - lo) =~= v@.subrange(k as int, hi as int));
    s
}

/// Splits `text` into parts of at most `max_chars` bytes, cutting after the last
/// blank line of each window, else after its last line break, else at the window end;
/// each part loses its leading whitespace.
pub fn split_at_paragraphs(text: &str, max_chars: usize) -> (chunks: Vec<String>)
    requires
        max_chars > 0,
        byte_len(text@) <= isize::MAX,
        split_spec(text@, max_chars as nat) is Some,
    ensures
        chunks@.map_values(|c: String| c@) == split_spec(text@, max_chars as nat).unwrap(),
{
    let v = to_chars(text);
    match split_chars(&v, max_chars) {
        Some(c) => c,
        None => Vec::new(),
    }
}

fn split_chars(v: &Vec<char>, max: usize) -> (r: Option<Vec<String>>)
    requires
        max > 0,
        byte_len(v@) <= isize::MAX,
    ensures
        r is Some <==> pieces_from(v@, 0, max as nat) is Some,
        r matches Some(chunks) ==> chunks@.map_values(|c: String| c@) == split_spec(
            v@,
            max as nat,
        ).unwrap(),
{
    let ghost s = v@;
    let total = bytes_between(v, 0, v.len());
    proof {
        lemma_byte_offset_full(s);
        assert(s.take(0) =~= Seq::<char>::empty());
    }
    let para = to_chars("\n\n");
    let line = to_chars("\n");
    proof {
        reveal_strlit("\n\n");
        reveal_strlit("\n");
        assert(para@ =~= paragraph_break());
        assert(line@ =~= line_break());
    }
    let mut chunks: Vec<String> = Vec::new();
    let ghost mut done: Seq<Seq<char>> = Seq::empty();
    let mut start: usize = 0;
    let mut start_b: usize = 0;
    while start < v.len()
        invariant
            s == v@,
            max > 0,
            byte_len(s) <= isize::MAX,
            total == byte_len(s),
            para@ == paragraph_break(),
            line@ == line_break(),
            start <= v.len(),
            start_b == byte_offset(s, start as int),
            pieces_from(s, 0, max as nat) == match pieces_from(s, start as int, max as nat) {
                Some(rest) => Some(done + rest),
                None => None,
            },
            chunks@.map_values(|c: String| c@) == done.map_values(|p: Seq<char>| trim_start(p)),
        decreases v.len() - start,
    {
        proof {
            lemma_byte_offset_monotone(s, start as int, s.len() as int);
            lemma_byte_offset_full(s);
        }
        if max >= total - start_b {
            let c = trimmed_string(v, start, v.len());
            let ghost piece = s.skip(start as int);
            proof {
                assert(s.subrange(start as int, s.len() as int) =~= piece);
                assert(pieces_from(s, start as int, max as nat).unwrap() =~= seq![piece]);
            }
            let ghost old_chunks = chunks@;
            chunks.push(c);
            proof {
                let old_done = done;
                done = done.push(piece);
                assert(done + pieces_from(s, v.len() as int, max as nat).unwrap() =~= old_done
                    + seq![piece]);
                assert(chunks@.map_values(|c: String| c@) =~= old_chunks.map_values(
                    |c: String| c@,
                ).push(trim_start(piece)));
                assert(done.map_values(|p: Seq<char>| trim_start(p)) =~= old_done.map_values(
                    |p: Seq<char>| trim_start(p),
                ).push(trim_start(piece)));
                assert(chunks@.map_values(|c: String| c@) =~= done.map_values(
                    |p: Seq<char>| trim_start(p),
                ));
            }
            start = v.len();
            start_b = total;
            proof {
                lemma_byte_offset_full(s);
            }
        } else {
            let target = start_b + max;
            let mut e = start;
            let mut eb = start_b;
            while e < v.len() && eb < target
                invariant
                    s == v@,
                    start <= e <= v.len(),
                    eb == byte_offset(s, e as int),
                    byte_len(s) <= isize::MAX,
                    target <= byte_len(s),
                    window_end(s, start as int, target as nat) == window_end(
                        s,
                        e as int,
                        target as nat,
                    ),
                decreases v.len() - e,
            {
                proof {
                    lemma_byte_offset_step(s, e as int);
                    lemma_byte_offset_monotone(s, e + 1, s.len() as int);
                    lemma_byte_offset_full(s);
                }
                eb = eb + char_width_exec(v[e]);
                e = e + 1;
            }
            assert(window_end(s, start as int, target as nat) == e);
            if eb != target {
                return None;
            }
            proof {
                lemma_window_after_start(s, start as int, max as nat);
                lemma_cut_point(s, start as int, e as int);
            }
            proof {
                lemma_rfind_last(s.subrange(start as int, e as int), paragraph_break());
                lemma_rfind_last(s.subrange(start as int, e as int), line_break());
            }
            let cut = match rfind_in(v, start, e, &para) {
                Some(p) => start + p + 2,
                None => match rfind_in(v, start, e, &line) {
                    Some(p) => start + p + 1,
                    None => e,
                },
            };
            assert(cut == cut_point(s, start as int, e as int));
            let c = trimmed_string(v, start, cut);
            let ghost piece = s.subrange(start as int, cut as int);
            let ghost rest = pieces_from(s, cut as int, max as nat).unwrap();
            let ghost old_chunks = chunks@;
            chunks.push(c);
            proof {
                let old_done = done;
                done = done.push(piece);
                if pieces_from(s, cut as int, max as nat) is Some {
                    assert(pieces_from(s, start as int, max as nat).unwrap() == seq![piece]
                        + rest);
                    assert(old_done + (seq![piece] + rest) =~= done + rest);
                }
                assert(chunks@.map_values(|c: String| c@) =~= old_chunks.map_values(
                    |c: String| c@,
                ).push(trim_start(piece)));
                assert(done.map_values(|p: Seq<char>| trim_start(p)) =~= old_done.map_values(
                    |p: Seq<char>| trim_start(p),
                ).push(trim_start(piece)));
                assert(chunks@.map_values(|c: String| c@) =~= done.map_values(
                    |p: Seq<char>| trim_start(p),
                ));
            }
            let step = bytes_between(v, start, cut);
            proof {
                lemma_byte_offset_monotone(s, cut as int, s.len() as int);
            }
            start_b = start_b + step;
            start = cut;
        }
    }
    proof {
        assert(pieces_from(s, start as int, max as nat).unwrap() =~= Seq::<Seq<char>>::empty());
        assert(done + Seq::<Seq<char>>::empty() =~= done);
    }
    Some(chunks)
}

/// Where the document and the user message lie in the characters of a combined
/// message: `(doc_start, doc_end, message_start)`.
fn parse_document_ranges(v: &Vec<char>) -> (r: Option<(usize, usize, Option<usize>)>)
    ensures
        match parse_document_spec(v@) {
            (None, None) => r is None,
            (Some(d), m) => r matches Some((lo, hi, ms)) && lo <= hi <= v.len() && d
                == v@.subrange(lo as int, hi as int) && match m {
                Some(u) => ms matches Some(k) && k <= v.len() && u == v@.skip(k as int),
                None => ms is None,
            },
            _ => false,
        },
{
    let p = to_chars("[Document content]\n");
    let sep = to_chars("\n\n[User message]\n");
    proof {
        reveal_strlit("\n\n[User message]\n");
    }
    if p.len() > v.len() || !matches_at(v, 0, v.len(), &p, 0) {
        proof {
            if v@.len() >= p@.len() && v@.take(p@.len() as int) == p@ {
                assert(v@.subrange(0, v@.len() as int) =~= v@);
                assert(v@.subrange(0, p@.len() as int) =~= v@.take(p@.len() as int));
            }
        }
        return None;
    }
    proof {
        assert(v@.subrange(0, v@.len() as int) =~= v@);
        assert(v@.subrange(0, p@.len() as int) =~= v@.take(p@.len() as int));
    }
    let lo = p.len();
    let ghost rest = v@.skip(lo as int);
    assert(v@.subrange(lo as int, v.len() as int) =~= rest);
    proof {
        lemma_find_first(rest, sep@);
    }
    match find_in(v, lo, v.len(), &sep) {
        Some(i) => {
            assert(rest.take(i as int) =~= v@.subrange(lo as int, lo + i));
            assert(rest.skip(i + sep@.len()) =~= v@.skip(lo + i + sep@.len()));
            Some((lo, lo + i, Some(lo + i + sep.len())))
        },
        None => Some((lo, v.len(), None)),
    }
}

/// The document text and the optional user message of a message in the combined
/// format `"[Document content]\n{doc}\n\n[User message]\n{msg}"`; `(None, None)`
/// when the message carries no document.
pub fn parse_document_message(message: &str) -> (r: (Option<String>, Option<String>))
    ensures
        opt_view(r.0) == parse_document_spec(message@).0,
        opt_view(r.1) == parse_document_spec(message@).1,
{
    let v = to_chars(message);
    match parse_document_ranges(&v) {
        None => (None, None),
        Some((lo, hi, ms)) => {
            let d = string_of(&v, lo, hi);
            match ms {
                Some(k) => {
                    let u = string_of(&v, k, v.len());
                    assert(v@.subrange(k as int, v@.len() as int) =~= v@.skip(k as int));
                    (Some(d), Some(u))
                },
                None => (Some(d), None),
            }
        },
    }
}

fn copy_range(v: &Vec<char>, lo: usize, hi: usize) -> (d: Vec<char>)
    requires
        lo <= hi <= v.len(),
    ensures
        d@ == v@.subrange(lo as int, hi as int),
{
    let mut d: Vec<char> = Vec::new();
    let mut i = lo;
    while i < hi
        invariant
            lo <= i <= hi <= v.len(),
            d@ == v@.subrange(lo as int, i as int),
        decreases hi - i,
    {
        d.push(v[i]);
        assert(d@ =~= v@.subrange(lo as int, i + 1));
        i = i + 1;
    }
    d
}

fn format_part_exec(i: usize, total: usize, chunk: &String, msg: &Option<String>) -> (s: String)
    requires
        i < total,
    ensures
        s@ == format_part(i as nat, total as nat, chunk@, opt_view(*msg)),
{
    let mut s = String::new();
    append_str(&mut s, "[Document content \u{2014} Part ");
    let a = decimal_string(i + 1);
    append_string(&mut s, &a);
    append_str(&mut s, "/");
    let b = decimal_string(total);
    append_string(&mut s, &b);
    append_str(&mut s, "]");
    assert(s@ =~= part_label(i as nat, total as nat));
    append_str(&mut s, "\n");
    append_string(&mut s, chunk);
    if i == 0 {
        match msg {
            Some(u) => {
                append_str(&mut s, "\n\n[User message]\n");
                append_string(&mut s, u);
            },
            None => {},
        }
    } else {
        append_str(
            &mut s,
            "\n\nContinue extracting knowledge from this part of the document. Reuse existing schemas and resolve entities that appeared in previous parts.",
        );
    }
    s
}

/// Splits a user message that carries a large document (over `MAX_CHUNK_CHARS`
/// bytes) into parts, each a message of its own; any other message is returned
/// unchanged as the only element.
pub fn chunk_user_message(message: &str) -> (chunks: Vec<String>)
    requires
        byte_len(message@) <= isize::MAX,
        chunk_spec(message@) is Some,
    ensures
        chunks@.map_values(|c: String| c@) == chunk_spec(message@).unwrap(),
{
    match try_chunk_user_message(message) {
        Some(c) => c,
        None => Vec::new(),
    }
}

/// `chunk_user_message`, or `None` where a window of the document would end
/// inside a multi-byte character (where the byte-slicing split panics).
pub fn try_chunk_user_message(message: &str) -> (r: Option<Vec<String>>)
    requires
        byte_len(message@) <= isize::MAX,
    ensures
        r is Some <==> chunk_spec(message@) is Some,
        r matches Some(chunks) ==> chunks@.map_values(|c: String| c@) == chunk_spec(
            message@,
        ).unwrap(),
{
    let v = to_chars(message);
    let ghost m = message@;
    match parse_document_ranges(&v) {
        None => {
            let r = vec![message.to_owned()];
            assert(r@.map_values(|c: String| c@) =~= seq![m]);
            Some(r)
        },
        Some((lo, hi, ms)) => {
            proof {
                lemma_byte_len_subrange(v@, lo as int, hi as int);
                lemma_byte_offset_monotone(v@, hi as int, v@.len() as int);
                lemma_byte_offset_full(v@);
            }
            let doc_bytes = bytes_between(&v, lo, hi);
            if doc_bytes <= MAX_CHUNK_CHARS {
                let r = vec![message.to_owned()];
                assert(r@.map_values(|c: String| c@) =~= seq![m]);
                return Some(r);
            }
            let d = copy_range(&v, lo, hi);
            let parts = match split_chars(&d, MAX_CHUNK_CHARS) {
                Some(p) => p,
                None => {
                    return None;
                },
            };
            let msg: Option<String> = match ms {
                Some(k) => {
                    let u = string_of(&v, k, v.len());
                    assert(v@.subrange(k as int, v@.len() as int) =~= v@.skip(k as int));
                    Some(u)
                },
                None => None,
            };
            let ghost cs = split_spec(d@, MAX_CHUNK_CHARS as nat).unwrap();
            assert(parts@.len() == cs.len()) by {
                assert(parts@.map_values(|c: String| c@).len() == parts@.len());
            }
            let total = parts.len();
            let mut out: Vec<String> = Vec::new();
            let mut i: usize = 0;
            while i < total
                invariant
                    total == parts.len(),
                    parts@.map_values(|c: String| c@) == cs,
                    i <= total,
                    opt_view(msg) == parse_document_spec(m).1,
                    out@.map_values(|c: String| c@) == Seq::new(
                        i as nat,
                        |j: int| format_part(j as nat, cs.len(), cs[j], parse_document_spec(m).1),
                    ),
                decreases total - i,
            {
                assert(parts@[i as int]@ == cs[i as int]) by {
                    assert(parts@.map_values(|c: String| c@)[i as int] == parts@[i as int]@);
                }
                let part = format_part_exec(i, total, &parts[i], &msg);
                let ghost old_out = out@;
                out.push(part);
                assert(out@.map_values(|c: String| c@) =~= Seq::new(
                    (i + 1) as nat,
                    |j: int| format_part(j as nat, cs.len(), cs[j], parse_document_spec(m).1),
                )) by {
                    assert(out@.map_values(|c: String| c@) =~= old_out.map_values(
                        |c: String| c@,
                    ).push(part@));
                }
                i = i + 1;
            }
            Some(out)
        },
    }
}

} // verus!
