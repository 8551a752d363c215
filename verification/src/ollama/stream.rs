//! Streaming helpers: separating reasoning ("thinking") from visible text
//! in model output that marks reasoning with inline tags.
use vstd::prelude::*;

use vstd::utf8::{decode_utf8, valid_utf8};

use crate::text::{
    chars_eq, chars_of, chars_starts_with, push_char, push_chars, string_from_chars, trim,
    trim_chars,
};

verus! {

// ---------------------------------------------------------------------------
// Newline-delimited JSON
// ---------------------------------------------------------------------------

/// The JSON value that `serde_json` reads from `text`, if `text` is valid JSON.
pub uninterp spec fn json_parse(text: Seq<char>) -> Option<serde_json::Value>;

/// Parses one JSON document (`serde_json::from_str`).
#[verifier::external_body]
pub(crate) fn parse_json(text: &str) -> (r: Option<serde_json::Value>)
    ensures
        r == json_parse(text@),
{
    serde_json::from_str(text).ok()
}

/// Decodes UTF-8 (`std::str::from_utf8`): succeeds exactly on valid UTF-8.
#[verifier::external_body]
fn utf8_str(bytes: &[u8]) -> (r: Option<&str>)
    ensures
        r is Some <==> valid_utf8(bytes@),
        r matches Some(s) ==> s@ == decode_utf8(bytes@),
{
    std::str::from_utf8(bytes).ok()
}

/// `u8::is_ascii_whitespace`: space, tab, line feed, form feed, carriage return.
pub open spec fn is_ascii_ws(b: u8) -> bool {
    b == 0x20 || b == 0x09 || b == 0x0a || b == 0x0c || b == 0x0d
}

/// The pieces of `b` between newline bytes (`<[u8]>::split(|b| *b == b'\n')`).
pub open spec fn split_lines(b: Seq<u8>) -> Seq<Seq<u8>>
    decreases b.len(),
{
    if b.len() == 0 {
        seq![Seq::empty()]
    } else {
        let p = split_lines(b.drop_last());
        if b.last() == 0x0a {
            p.push(Seq::empty())
        } else {
            p.update(p.len() - 1, p.last().push(b.last()))
        }
    }
}

/// The value carried by one line, if any: blank lines, invalid UTF-8 and
/// malformed JSON are skipped.
pub open spec fn line_value(line: Seq<u8>) -> Option<serde_json::Value> {
    if forall|k: int| 0 <= k < line.len() ==> is_ascii_ws(#[trigger] line[k]) {
        None
    } else if !valid_utf8(line) {
        None
    } else {
        let t = trim(decode_utf8(line));
        if t.len() == 0 {
            None
        } else {
            json_parse(t)
        }
    }
}

/// The values carried by a sequence of lines, in order.
pub open spec fn line_values(lines: Seq<Seq<u8>>) -> Seq<serde_json::Value>
    decreases lines.len(),
{
    if lines.len() == 0 {
        Seq::empty()
    } else {
        let prev = line_values(lines.drop_last());
        match line_value(lines.last()) {
            Some(v) => prev.push(v),
            None => prev,
        }
    }
}

/// Index of the last newline byte of `b`, if there is one.
pub open spec fn last_newline(b: Seq<u8>) -> Option<int>
    decreases b.len(),
{
    if b.len() == 0 {
        None
    } else if b.last() == 0x0a {
        Some(b.len() - 1)
    } else {
        last_newline(b.drop_last())
    }
}

proof fn lemma_split_lines_nonempty(b: Seq<u8>)
    ensures
        split_lines(b).len() >= 1,
    decreases b.len(),
{
    if b.len() > 0 {
        lemma_split_lines_nonempty(b.drop_last());
    }
}

proof fn lemma_last_newline(b: Seq<u8>)
    ensures
        match last_newline(b) {
            Some(k) => 0 <= k < b.len() && b[k] == 0x0a && forall|j: int|
                k < j < b.len() ==> b[j] != 0x0a,
            None => forall|j: int| 0 <= j < b.len() ==> b[j] != 0x0a,
        },
    decreases b.len(),
{
    if b.len() > 0 {
        let d = b.drop_last();
        lemma_last_newline(d);
        assert(forall|j: int| 0 <= j < d.len() ==> d[j] == b[j]);
    }
}

/// Splits a byte stream into newline-terminated JSON documents.
///
/// Bytes after the last newline stay buffered until a later call completes the line.
pub struct LineParser {
    buf: Vec<u8>,
}

impl View for LineParser {
    type V = Seq<u8>;

    closed spec fn view(&self) -> Seq<u8> {
        self.buf@
    }
}

/// What `feed` leaves buffered and what it returns, given the bytes held before and the new ones.
pub open spec fn feed_spec(held: Seq<u8>, bytes: Seq<u8>) -> (Seq<u8>, Seq<serde_json::Value>) {
    let all = held + bytes;
    match last_newline(all) {
        None => (all, Seq::empty()),
        Some(k) => (all.skip(k + 1), line_values(split_lines(all.take(k + 1)))),
    }
}

fn line_value_exec(line: &Vec<u8>) -> (r: Option<serde_json::Value>)
    ensures
        r == line_value(line@),
{
    let n = line.len();
    let mut all_ws = true;
    for i in 0..n
        invariant
            n == line@.len(),
            all_ws == (forall|k: int| 0 <= k < i ==> is_ascii_ws(#[trigger] line@[k])),
    {
        let b = line[i];
        if !(b == 0x20 || b == 0x09 || b == 0x0a || b == 0x0c || b == 0x0d) {
            all_ws = false;
        }
    }
    if all_ws {
        return None;
    }
    match utf8_str(line.as_slice()) {
        None => None,
        Some(s) => {
            let cs = chars_of(s);
            let t = trim_chars(&cs);
            if t.len() == 0 {
                None
            } else {
                let ts = string_from_chars(&t);
                parse_json(ts.as_str())
            }
        },
    }
}

impl LineParser {
    pub fn new() -> (r: Self)
        ensures
            r@ == Seq::<u8>::empty(),
    {
        LineParser { buf: Vec::new() }
    }

    /// Adds `bytes` to the stream and returns the values of every line it completes.
    pub fn feed(&mut self, bytes: &[u8]) -> (vals: Vec<serde_json::Value>)
        ensures
            final(self)@ == feed_spec(old(self)@, bytes@).0,
            vals@ == feed_spec(old(self)@, bytes@).1,
    {
        self.buf.extend_from_slice(bytes);
        let ghost all = self.buf@;
        assert(all =~= old(self)@ + bytes@);
        proof {
            lemma_last_newline(all);
        }
        // find the last newline
        let mut j = self.buf.len();
        while j > 0 && self.buf[j - 1] != 0x0a
            invariant
                j <= all.len(),
                self.buf@ == all,
                forall|q: int| j <= q < all.len() ==> all[q] != 0x0a,
            decreases j,
        {
            j -= 1;
        }
        if j == 0 {
            assert(last_newline(all) is None) by {
                if let Some(k) = last_newline(all) {
                    assert(all[k] == 0x0a);
                }
            }
            return Vec::new();
        }
        let k = j - 1;
        assert(last_newline(all) == Some(k as int)) by {
            match last_newline(all) {
                Some(k2) => {
                    if k2 < k {
                        assert(all[k as int] == 0x0a);
                    }
                    if k2 > k {
                        assert(all[k2] == 0x0a);
                    }
                },
                None => {
                    assert(all[k as int] == 0x0a);
                },
            }
        }
        // split the buffer into complete bytes and the remainder
        let mut complete: Vec<u8> = Vec::new();
        let mut rest: Vec<u8> = Vec::new();
        let len = self.buf.len();
        for i in 0..len
            invariant
                len == all.len(),
                self.buf@ == all,
                k < len,
                i <= k + 1 ==> complete@ == all.take(i as int) && rest@ == Seq::<u8>::empty(),
                i > k + 1 ==> complete@ == all.take(k + 1) && rest@ == all.subrange(
                    k + 1,
                    i as int,
                ),
        {
            if i <= k {
                complete.push(self.buf[i]);
                assert(all.take(i + 1) =~= all.take(i as int).push(all[i as int]));
            } else {
                rest.push(self.buf[i]);
                assert(all.subrange(k + 1, i + 1) =~= all.subrange(k + 1, i as int).push(
                    all[i as int],
                ));
            }
        }
        assert(rest@ =~= all.skip(k + 1));
        self.buf = rest;
        // walk the complete bytes line by line
        let ghost c = complete@;
        let mut vals: Vec<serde_json::Value> = Vec::new();
        let mut cur: Vec<u8> = Vec::new();
        let cn = complete.len();
        proof {
            assert(c.take(0) =~= Seq::<u8>::empty());
            assert(split_lines(Seq::<u8>::empty()).drop_last() =~= Seq::<Seq<u8>>::empty());
        }
        for i in 0..cn
            invariant
                cn == c.len(),
                complete@ == c,
                split_lines(c.take(i as int)).len() >= 1,
                cur@ == split_lines(c.take(i as int)).last(),
                vals@ == line_values(split_lines(c.take(i as int)).drop_last()),
        {
            let b = complete[i];
            let ghost prev = split_lines(c.take(i as int));
            assert(c.take(i + 1).drop_last() =~= c.take(i as int));
            assert(c.take(i + 1).last() == b);
            if b == 0x0a {
                let v = line_value_exec(&cur);
                assert(split_lines(c.take(i + 1)) == prev.push(Seq::<u8>::empty()));
                assert(split_lines(c.take(i + 1)).drop_last() =~= prev);
                assert(prev.drop_last().push(prev.last()) =~= prev);
                assert(prev.drop_last() =~= prev.drop_last());
                assert(line_values(prev) == match line_value(prev.last()) {
                    Some(v) => line_values(prev.drop_last()).push(v),
                    None => line_values(prev.drop_last()),
                });
                match v {
                    Some(val) => vals.push(val),
                    None => {},
                }
                cur = Vec::new();
            } else {
                cur.push(b);
                let ghost nxt = split_lines(c.take(i + 1));
                assert(nxt == prev.update(prev.len() - 1, prev.last().push(b)));
                assert(nxt.drop_last() =~= prev.drop_last());
            }
        }
        assert(c.take(cn as int) =~= c);
        proof {
            let s = split_lines(c);
            // the complete bytes end with a newline, so the final piece is empty
            assert(c.drop_last() =~= all.take(k as int));
            assert(c.last() == 0x0a);
            assert(s == split_lines(c.drop_last()).push(Seq::<u8>::empty()));
            assert(s.drop_last() =~= split_lines(c.drop_last()));
            assert(line_value(s.last()) is None);
            assert(line_values(s) == line_values(s.drop_last()));
        }
        vals
    }
}

// ---------------------------------------------------------------------------
// Tags
// ---------------------------------------------------------------------------

/// `<|channel>thought`
pub open spec fn tag_channel_thought() -> Seq<char> {
    seq!['<', '|', 'c', 'h', 'a', 'n', 'n', 'e', 'l', '>', 't', 'h', 'o', 'u', 'g', 'h', 't']
}

/// `<|channel>text`
pub open spec fn tag_channel_text() -> Seq<char> {
    seq!['<', '|', 'c', 'h', 'a', 'n', 'n', 'e', 'l', '>', 't', 'e', 'x', 't']
}

/// `<think>`
pub open spec fn tag_think() -> Seq<char> {
    seq!['<', 't', 'h', 'i', 'n', 'k', '>']
}

/// `<channel|>`
pub open spec fn tag_channel_close() -> Seq<char> {
    seq!['<', 'c', 'h', 'a', 'n', 'n', 'e', 'l', '|', '>']
}

/// `</think>`
pub open spec fn tag_think_close() -> Seq<char> {
    seq!['<', '/', 't', 'h', 'i', 'n', 'k', '>']
}

/// `p` is a prefix of `s`.
pub open spec fn is_prefix_of(p: Seq<char>, s: Seq<char>) -> bool {
    p.len() <= s.len() && s.take(p.len() as int) == p
}

/// `b` is a prefix of one of the five recognised tags.
pub open spec fn is_tag_prefix(b: Seq<char>) -> bool {
    ||| is_prefix_of(b, tag_channel_thought())
    ||| is_prefix_of(b, tag_channel_text())
    ||| is_prefix_of(b, tag_think())
    ||| is_prefix_of(b, tag_channel_close())
    ||| is_prefix_of(b, tag_think_close())
}

// ---------------------------------------------------------------------------
// Abstract state machine
// ---------------------------------------------------------------------------

/// The region the filter was in before it started buffering a possible tag.
#[derive(Clone, Copy, PartialEq, Eq, Structural)]
pub enum PriorState {
    Text,
    InThinkTag,
    InTextTag,
}

/// Abstract state of the filter.
pub enum TagState {
    /// Plain visible text.
    Text,
    /// Inside a reasoning block.
    InThinkTag,
    /// Inside an explicit text channel.
    InTextTag,
    /// A `<` was seen; the characters read so far might still become a tag.
    Pending(Seq<char>, PriorState),
}

/// One step's result: next state, visible text and reasoning text emitted.
pub struct Step {
    pub state: TagState,
    pub text: Seq<char>,
    pub thinking: Seq<char>,
}

pub open spec fn prior_state(p: PriorState) -> TagState {
    match p {
        PriorState::Text => TagState::Text,
        PriorState::InThinkTag => TagState::InThinkTag,
        PriorState::InTextTag => TagState::InTextTag,
    }
}

/// The state an opening tag leads to, if `b` is an opening tag.
pub open spec fn tag_open_spec(b: Seq<char>) -> Option<TagState> {
    if b == tag_channel_thought() {
        Some(TagState::InThinkTag)
    } else if b == tag_channel_text() {
        Some(TagState::InTextTag)
    } else if b == tag_think() {
        Some(TagState::InThinkTag)
    } else {
        None
    }
}

/// Whether `b` closes the region described by `prior`.
pub open spec fn is_close_spec(b: Seq<char>, prior: PriorState) -> bool {
    match prior {
        PriorState::InThinkTag => b == tag_channel_close() || b == tag_think_close(),
        PriorState::InTextTag => b == tag_channel_close(),
        PriorState::Text => false,
    }
}

/// Buffered characters `b` given up as a tag go back to the region they came from.
pub open spec fn release(b: Seq<char>, p: PriorState) -> Step {
    if p == PriorState::InThinkTag {
        Step { state: prior_state(p), text: Seq::empty(), thinking: b }
    } else {
        Step { state: prior_state(p), text: b, thinking: Seq::empty() }
    }
}

/// Reading one character.
pub open spec fn step(s: TagState, c: char) -> Step {
    match s {
        TagState::Text => if c == '<' {
            Step { state: TagState::Pending(seq!['<'], PriorState::Text), text: Seq::empty(), thinking: Seq::empty() }
        } else {
            Step { state: TagState::Text, text: seq![c], thinking: Seq::empty() }
        },
        TagState::InThinkTag => if c == '<' {
            Step { state: TagState::Pending(seq!['<'], PriorState::InThinkTag), text: Seq::empty(), thinking: Seq::empty() }
        } else {
            Step { state: TagState::InThinkTag, text: Seq::empty(), thinking: seq![c] }
        },
        TagState::InTextTag => if c == '<' {
            Step { state: TagState::Pending(seq!['<'], PriorState::InTextTag), text: Seq::empty(), thinking: Seq::empty() }
        } else {
            Step { state: TagState::InTextTag, text: seq![c], thinking: Seq::empty() }
        },
        TagState::Pending(b, p) => {
            let nb = b.push(c);
            if let Some(ns) = tag_open_spec(nb) {
                Step { state: ns, text: Seq::empty(), thinking: Seq::empty() }
            } else if is_close_spec(nb, p) {
                Step { state: TagState::Text, text: Seq::empty(), thinking: Seq::empty() }
            } else if is_tag_prefix(nb) {
                Step { state: TagState::Pending(nb, p), text: Seq::empty(), thinking: Seq::empty() }
            } else {
                release(nb, p)
            }
        },
    }
}

/// Reading a whole sequence of characters, one after another.
pub open spec fn run(s: TagState, input: Seq<char>) -> Step
    decreases input.len(),
{
    if input.len() == 0 {
        Step { state: s, text: Seq::empty(), thinking: Seq::empty() }
    } else {
        let r = run(s, input.drop_last());
        let st = step(r.state, input.last());
        Step { state: st.state, text: r.text + st.text, thinking: r.thinking + st.thinking }
    }
}

/// End of stream: a buffered partial tag is released to the region it came from.
pub open spec fn flush_spec(s: TagState) -> Step {
    match s {
        TagState::Pending(b, p) => release(b, p),
        _ => Step { state: s, text: Seq::empty(), thinking: Seq::empty() },
    }
}

} // verus!

verus! {

// ---------------------------------------------------------------------------
// Executable filter
// ---------------------------------------------------------------------------

fn tag_channel_thought_chars() -> (v: Vec<char>)
    ensures
        v@ == tag_channel_thought(),
{
    let v = vec!['<', '|', 'c', 'h', 'a', 'n', 'n', 'e', 'l', '>', 't', 'h', 'o', 'u', 'g', 'h', 't'];
    assert(v@ =~= tag_channel_thought());
    v
}

fn tag_channel_text_chars() -> (v: Vec<char>)
    ensures
        v@ == tag_channel_text(),
{
    let v = vec!['<', '|', 'c', 'h', 'a', 'n', 'n', 'e', 'l', '>', 't', 'e', 'x', 't'];
    assert(v@ =~= tag_channel_text());
    v
}

fn tag_think_chars() -> (v: Vec<char>)
    ensures
        v@ == tag_think(),
{
    let v = vec!['<', 't', 'h', 'i', 'n', 'k', '>'];
    assert(v@ =~= tag_think());
    v
}

fn tag_channel_close_chars() -> (v: Vec<char>)
    ensures
        v@ == tag_channel_close(),
{
    let v = vec!['<', 'c', 'h', 'a', 'n', 'n', 'e', 'l', '|', '>'];
    assert(v@ =~= tag_channel_close());
    v
}

fn tag_think_close_chars() -> (v: Vec<char>)
    ensures
        v@ == tag_think_close(),
{
    let v = vec!['<', '/', 't', 'h', 'i', 'n', 'k', '>'];
    assert(v@ =~= tag_think_close());
    v
}

/// The state an opening tag `b` leads to, if it is one.
fn tag_open(b: &Vec<char>) -> (r: Option<FilterState>)
    ensures
        match tag_open_spec(b@) {
            Some(ns) => r matches Some(fs) && fs@ == ns,
            None => r is None,
        },
{
    if chars_eq(b, &tag_channel_thought_chars()) {
        Some(FilterState::InThinkTag)
    } else if chars_eq(b, &tag_channel_text_chars()) {
        Some(FilterState::InTextTag)
    } else if chars_eq(b, &tag_think_chars()) {
        Some(FilterState::InThinkTag)
    } else {
        None
    }
}

/// Whether `b` closes the region described by `prior`.
fn is_close_tag(b: &Vec<char>, prior: &PriorState) -> (r: bool)
    ensures
        r == is_close_spec(b@, *prior),
{
    match prior {
        PriorState::InThinkTag => chars_eq(b, &tag_channel_close_chars()) || chars_eq(
            b,
            &tag_think_close_chars(),
        ),
        PriorState::InTextTag => chars_eq(b, &tag_channel_close_chars()),
        PriorState::Text => false,
    }
}

fn is_any_tag_prefix(b: &Vec<char>) -> (r: bool)
    ensures
        r == is_tag_prefix(b@),
{
    chars_starts_with(&tag_channel_thought_chars(), b) || chars_starts_with(
        &tag_channel_text_chars(),
        b,
    ) || chars_starts_with(&tag_think_chars(), b) || chars_starts_with(
        &tag_channel_close_chars(),
        b,
    ) || chars_starts_with(&tag_think_close_chars(), b)
}

fn open_bracket() -> (v: Vec<char>)
    ensures
        v@ == seq!['<'],
{
    let v = vec!['<'];
    assert(v@ =~= seq!['<']);
    v
}

enum FilterState {
    Text,
    InThinkTag,
    InTextTag,
    Pending { buf: Vec<char>, prior: PriorState },
}

impl View for FilterState {
    type V = TagState;

    closed spec fn view(&self) -> TagState {
        match self {
            FilterState::Text => TagState::Text,
            FilterState::InThinkTag => TagState::InThinkTag,
            FilterState::InTextTag => TagState::InTextTag,
            FilterState::Pending { buf, prior } => TagState::Pending(buf@, *prior),
        }
    }
}

fn prior_to_state(p: PriorState) -> (r: FilterState)
    ensures
        r@ == prior_state(p),
{
    match p {
        PriorState::Text => FilterState::Text,
        PriorState::InThinkTag => FilterState::InThinkTag,
        PriorState::InTextTag => FilterState::InTextTag,
    }
}

/// Visible text and reasoning text produced by one call.
pub struct FilterOutput {
    pub text: String,
    pub thinking: String,
}

impl FilterOutput {
    fn empty() -> (r: FilterOutput)
        ensures
            r.text@ == Seq::<char>::empty(),
            r.thinking@ == Seq::<char>::empty(),
    {
        FilterOutput { text: String::new(), thinking: String::new() }
    }
}

/// Streaming filter that moves tagged reasoning out of model text.
///
/// Recognises `<|channel>thought ... <channel|>`, `<think> ... </think>` and
/// `<|channel>text ... <channel|>`; tags may be split across calls to `feed`.
pub struct ThinkTagFilter {
    state: FilterState,
}

impl View for ThinkTagFilter {
    type V = TagState;

    closed spec fn view(&self) -> TagState {
        self.state@
    }
}

impl Default for ThinkTagFilter {
    fn default() -> (r: Self)
        ensures
            r@ == TagState::Text,
    {
        Self::new()
    }
}

impl ThinkTagFilter {
    pub fn new() -> (r: Self)
        ensures
            r@ == TagState::Text,
    {
        ThinkTagFilter { state: FilterState::Text }
    }

    /// Feeds a chunk of model text.
    pub fn feed(&mut self, delta: &str) -> (out: FilterOutput)
        ensures
            final(self)@ == run(old(self)@, delta@).state,
            out.text@ == run(old(self)@, delta@).text,
            out.thinking@ == run(old(self)@, delta@).thinking,
    {
        let mut out = FilterOutput::empty();
        let cs = chars_of(delta);
        let n = cs.len();
        for i in 0..n
            invariant
                n == cs@.len(),
                cs@ == delta@,
                self@ == run(old(self)@, cs@.take(i as int)).state,
                out.text@ == run(old(self)@, cs@.take(i as int)).text,
                out.thinking@ == run(old(self)@, cs@.take(i as int)).thinking,
        {
            assert(cs@.take(i + 1).drop_last() =~= cs@.take(i as int));
            self.push_char(cs[i], &mut out);
        }
        assert(cs@.take(n as int) =~= cs@);
        out
    }

    /// Releases a buffered partial tag at the end of a stream.
    pub fn flush(&mut self) -> (out: FilterOutput)
        ensures
            final(self)@ == flush_spec(old(self)@).state,
            out.text@ == flush_spec(old(self)@).text,
            out.thinking@ == flush_spec(old(self)@).thinking,
    {
        let mut out = FilterOutput::empty();
        let next = match &self.state {
            FilterState::Pending { buf, prior } => {
                match prior {
                    PriorState::InThinkTag => push_chars(&mut out.thinking, buf),
                    _ => push_chars(&mut out.text, buf),
                }
                Some(prior_to_state(*prior))
            },
            _ => None,
        };
        if let Some(ns) = next {
            self.state = ns;
        }
        out
    }

    fn push_char(&mut self, ch: char, out: &mut FilterOutput)
        ensures
            final(self)@ == step(old(self)@, ch).state,
            final(out).text@ == old(out).text@ + step(old(self)@, ch).text,
            final(out).thinking@ == old(out).thinking@ + step(old(self)@, ch).thinking,
    {
        let next = match &self.state {
            FilterState::Text => {
                if ch == '<' {
                    FilterState::Pending { buf: open_bracket(), prior: PriorState::Text }
                } else {
                    push_char(&mut out.text, ch);
                    FilterState::Text
                }
            },
            FilterState::InThinkTag => {
                if ch == '<' {
                    FilterState::Pending { buf: open_bracket(), prior: PriorState::InThinkTag }
                } else {
                    push_char(&mut out.thinking, ch);
                    FilterState::InThinkTag
                }
            },
            FilterState::InTextTag => {
                if ch == '<' {
                    FilterState::Pending { buf: open_bracket(), prior: PriorState::InTextTag }
                } else {
                    push_char(&mut out.text, ch);
                    FilterState::InTextTag
                }
            },
            FilterState::Pending { buf, prior } => {
                let mut nb = buf.clone();
                nb.push(ch);
                let p = *prior;
                if let Some(ns) = tag_open(&nb) {
                    ns
                } else if is_close_tag(&nb, &p) {
                    FilterState::Text
                } else if is_any_tag_prefix(&nb) {
                    FilterState::Pending { buf: nb, prior: p }
                } else {
                    match p {
                        PriorState::InThinkTag => push_chars(&mut out.thinking, &nb),
                        _ => push_chars(&mut out.text, &nb),
                    }
                    prior_to_state(p)
                }
            },
        };
        self.state = next;
    }
}

} // verus!

verus! {

// ---------------------------------------------------------------------------
// Laws
// ---------------------------------------------------------------------------

/// Continues a result `r` by reading `b`.
pub open spec fn then_run(r: Step, b: Seq<char>) -> Step {
    let r2 = run(r.state, b);
    Step { state: r2.state, text: r.text + r2.text, thinking: r.thinking + r2.thinking }
}

/// How a stream is cut into chunks does not matter: feeding `a` and then `b`
/// ends in the same state and emits the same text and reasoning as feeding `a + b`.
pub proof fn law_feed_split(s: TagState, a: Seq<char>, b: Seq<char>)
    ensures
        run(s, a + b) == then_run(run(s, a), b),
    decreases b.len(),
{
    if b.len() == 0 {
        assert(a + b =~= a);
        let r = run(s, a);
        assert(r.text + Seq::<char>::empty() =~= r.text);
        assert(r.thinking + Seq::<char>::empty() =~= r.thinking);
    } else {
        law_feed_split(s, a, b.drop_last());
        assert((a + b).drop_last() =~= a + b.drop_last());
        assert((a + b).last() == b.last());
        let ra = run(s, a);
        let rb = run(ra.state, b.drop_last());
        let st = step(rb.state, b.last());
        assert(ra.text + rb.text + st.text =~= ra.text + (rb.text + st.text));
        assert(ra.thinking + rb.thinking + st.thinking =~= ra.thinking + (rb.thinking
            + st.thinking));
    }
}

/// `t` occurs in `s`.
pub open spec fn occurs_in(t: Seq<char>, s: Seq<char>) -> bool {
    exists|i: int| crate::text::occurs_at(s, t, i)
}

/// `s` holds none of the five tags.
pub open spec fn has_no_tag(s: Seq<char>) -> bool {
    &&& !occurs_in(tag_channel_thought(), s)
    &&& !occurs_in(tag_channel_text(), s)
    &&& !occurs_in(tag_think(), s)
    &&& !occurs_in(tag_channel_close(), s)
    &&& !occurs_in(tag_think_close(), s)
}

/// What a step sends to the region `p` (visible text, or reasoning).
pub open spec fn emitted(r: Step, p: PriorState) -> Seq<char> {
    if p == PriorState::InThinkTag {
        r.thinking
    } else {
        r.text
    }
}

/// What a step sends to the other channel.
pub open spec fn other_emitted(r: Step, p: PriorState) -> Seq<char> {
    if p == PriorState::InThinkTag {
        r.text
    } else {
        r.thinking
    }
}

/// Reading a tag-free text from region `p`: all of it went to that region,
/// but for a possible start of a tag held back at the end.
pub open spec fn passed(input: Seq<char>, r: Step, p: PriorState) -> bool {
    &&& other_emitted(r, p) == Seq::<char>::empty()
    &&& {
        ||| (r.state == prior_state(p) && emitted(r, p) == input)
        ||| (r.state matches TagState::Pending(b, q) && q == p && b.len() >= 1 && b.len()
            <= input.len() && emitted(r, p) + b == input && input.skip(input.len() - b.len())
            == b)
    }
}

proof fn lemma_no_tag_prefix(input: Seq<char>, c: char)
    requires
        has_no_tag(input.push(c)),
    ensures
        has_no_tag(input),
{
    let s = input.push(c);
    assert forall|t: Seq<char>, i: int| crate::text::occurs_at(input, t, i) implies crate::text::occurs_at(s, t, i) by {
        assert(s.subrange(i, i + t.len()) =~= input.subrange(i, i + t.len()));
    }
}

proof fn lemma_pass(input: Seq<char>, p: PriorState)
    requires
        has_no_tag(input),
        p != PriorState::InTextTag,
    ensures
        passed(input, run(prior_state(p), input), p),
    decreases input.len(),
{
    if input.len() == 0 {
        assert(input =~= Seq::<char>::empty());
        return;
    }
    let init = input.drop_last();
    let c = input.last();
    assert(init.push(c) =~= input);
    lemma_no_tag_prefix(init, c);
    lemma_pass(init, p);
    let r = run(prior_state(p), init);
    let st = step(r.state, c);
    let n = input.len() as int;
    match r.state {
        TagState::Pending(b, q) => {
            let nb = b.push(c);
            assert(input.skip(n - nb.len()) =~= nb);
            assert(input.subrange(n - nb.len(), n - nb.len() + nb.len()) =~= nb);
            if tag_open_spec(nb) is Some {
                if nb == tag_channel_thought() {
                    assert(crate::text::occurs_at(input, tag_channel_thought(), n - nb.len()));
                } else if nb == tag_channel_text() {
                    assert(crate::text::occurs_at(input, tag_channel_text(), n - nb.len()));
                } else {
                    assert(crate::text::occurs_at(input, tag_think(), n - nb.len()));
                }
                assert(false);
            } else if is_close_spec(nb, q) {
                if nb == tag_channel_close() {
                    assert(crate::text::occurs_at(input, tag_channel_close(), n - nb.len()));
                } else {
                    assert(crate::text::occurs_at(input, tag_think_close(), n - nb.len()));
                }
                assert(false);
            } else if is_tag_prefix(nb) {
                assert(emitted(st, p) == Seq::<char>::empty());
                assert(emitted(r, p) + Seq::<char>::empty() =~= emitted(r, p));
                assert(other_emitted(r, p) + other_emitted(st, p) =~= Seq::<char>::empty());
                assert(emitted(r, p) + nb =~= input);
            } else {
                assert(emitted(r, p) + nb =~= input);
                assert(other_emitted(r, p) + other_emitted(st, p) =~= Seq::<char>::empty());
            }
        },
        _ => {
            assert(r.state == prior_state(p));
            if c == '<' {
                assert(emitted(r, p) + Seq::<char>::empty() =~= emitted(r, p));
                assert(other_emitted(r, p) + Seq::<char>::empty() =~= Seq::<char>::empty());
                assert(input.skip(n - 1) =~= seq!['<']);
                assert(emitted(r, p) + seq!['<'] =~= input);
            } else {
                assert(emitted(r, p) + seq![c] =~= input);
                assert(other_emitted(r, p) + Seq::<char>::empty() =~= Seq::<char>::empty());
            }
        },
    }
}

/// Text that holds none of the five tags passes through unchanged, once the
/// stream is flushed: read as visible text it all stays visible text, read
/// inside a reasoning block it all stays reasoning. A `<` that starts no tag
/// is held back only until it is clear that no tag follows.
pub proof fn law_no_tags_pass_through(input: Seq<char>)
    requires
        has_no_tag(input),
    ensures
        ({
            let r = run(TagState::Text, input);
            let f = flush_spec(r.state);
            r.text + f.text == input && r.thinking + f.thinking == Seq::<char>::empty()
        }),
        ({
            let r = run(TagState::InThinkTag, input);
            let f = flush_spec(r.state);
            r.thinking + f.thinking == input && r.text + f.text == Seq::<char>::empty()
        }),
{
    lemma_pass(input, PriorState::Text);
    lemma_pass(input, PriorState::InThinkTag);
    let r = run(TagState::Text, input);
    let f = flush_spec(r.state);
    assert(r.text + f.text =~= input);
    assert(r.thinking + f.thinking =~= Seq::<char>::empty());
    let r2 = run(TagState::InThinkTag, input);
    let f2 = flush_spec(r2.state);
    assert(r2.thinking + f2.thinking =~= input);
    assert(r2.text + f2.text =~= Seq::<char>::empty());
}

/// After a flush no partial tag is buffered, so a second flush emits nothing.
pub proof fn law_flush_settles(s: TagState)
    ensures
        !(flush_spec(s).state is Pending),
        flush_spec(flush_spec(s).state).text.len() == 0,
        flush_spec(flush_spec(s).state).thinking.len() == 0,
{
}

} // verus!

verus! {

/// A line parser never loses or reorders bytes: what stays buffered is exactly
/// the tail of the stream after its last newline, and holds no newline itself.
pub proof fn law_line_parser_buffers_partial_line(held: Seq<u8>, bytes: Seq<u8>)
    ensures
        ({
            let all = held + bytes;
            let rest = feed_spec(held, bytes).0;
            &&& rest.len() <= all.len()
            &&& all.skip(all.len() - rest.len()) == rest
            &&& forall|j: int| 0 <= j < rest.len() ==> rest[j] != 0x0a
            &&& rest.len() < all.len() ==> all[all.len() - rest.len() - 1] == 0x0a
        }),
{
    let all = held + bytes;
    lemma_last_newline(all);
    match last_newline(all) {
        Some(k) => {
            assert(all.skip(k + 1) =~= all.skip(all.len() - all.skip(k + 1).len()));
        },
        None => {
            assert(all.skip(0) =~= all);
        },
    }
}

} // verus!
