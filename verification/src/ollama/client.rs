//! One streamed chat turn with the model: what each line of the stream
//! carries, the events that the turn reports, the text and tool calls it
//! ends with, and the messages that a request sends.
use vstd::prelude::*;

use super::stream::{flush_spec, run, FilterOutput, ThinkTagFilter, TagState};
use crate::json::{
    json_array, json_as_array, json_as_bool, json_as_str, json_as_u64, json_bool, json_get,
    json_member, json_str, json_u64,
};
use crate::text::{decimal, push_decimal, string_views};
use crate::types::{Message, Role};

verus! {

// ---------------------------------------------------------------------------
// One line of the stream
// ---------------------------------------------------------------------------

/// A tool call as the stream announces it (it gets its id later).
pub struct PendingCall {
    pub name: String,
    pub arguments: serde_json::Value,
}

/// What one line of the stream carries.
pub struct StreamChunk {
    pub calls: Vec<PendingCall>,
    pub thinking: Option<String>,
    pub content: Option<String>,
    pub done: bool,
    pub eval_count: u64,
    pub eval_duration_ns: u64,
    pub prompt_eval_count: u64,
}

/// The function part of a tool call.
pub open spec fn function_of(tc: serde_json::Value) -> serde_json::Value {
    json_get(tc, "function"@)
}

/// The name of a tool call, empty when it has none.
pub open spec fn call_name(tc: serde_json::Value) -> Seq<char> {
    match json_str(json_get(function_of(tc), "name"@)) {
        Some(s) => s,
        None => Seq::empty(),
    }
}

/// The named tool calls of a list, with their arguments (calls without a name are skipped).
pub open spec fn calls_of(arr: Seq<serde_json::Value>) -> Seq<(Seq<char>, serde_json::Value)>
    decreases arr.len(),
{
    if arr.len() == 0 {
        Seq::empty()
    } else {
        let rest = calls_of(arr.drop_last());
        let tc = arr.last();
        if call_name(tc).len() > 0 {
            rest.push((call_name(tc), json_get(function_of(tc), "arguments"@)))
        } else {
            rest
        }
    }
}

/// The message part of a stream line.
pub open spec fn message_of(val: serde_json::Value) -> serde_json::Value {
    json_get(val, "message"@)
}

pub open spec fn chunk_calls(val: serde_json::Value) -> Seq<(Seq<char>, serde_json::Value)> {
    match json_array(json_get(message_of(val), "tool_calls"@)) {
        Some(a) => calls_of(a),
        None => Seq::empty(),
    }
}

pub open spec fn pending_view(v: Seq<PendingCall>) -> Seq<(Seq<char>, serde_json::Value)> {
    v.map_values(|c: PendingCall| (c.name@, c.arguments))
}

pub open spec fn opt_view(o: Option<String>) -> Option<Seq<char>> {
    match o {
        Some(s) => Some(s@),
        None => None,
    }
}

pub open spec fn count_or_zero(val: serde_json::Value, key: Seq<char>) -> u64 {
    match json_u64(json_get(val, key)) {
        Some(n) => n,
        None => 0,
    }
}

fn calls_from_array(arr: &Vec<serde_json::Value>) -> (r: Vec<PendingCall>)
    ensures
        pending_view(r@) == calls_of(arr@),
{
    let n = arr.len();
    let mut out: Vec<PendingCall> = Vec::new();
    assert(arr@.take(0) =~= Seq::<serde_json::Value>::empty());
    for i in 0..n
        invariant
            n == arr@.len(),
            pending_view(out@) == calls_of(arr@.take(i as int)),
    {
        assert(arr@.take(i + 1).drop_last() =~= arr@.take(i as int));
        let f = json_member(&arr[i], "function");
        let name = match json_as_str(&json_member(&f, "name")) {
            Some(s) => s,
            None => String::new(),
        };
        if !name.as_str().is_empty() {
            let arguments = json_member(&f, "arguments");
            let ghost before = out@;
            out.push(PendingCall { name, arguments });
            assert(pending_view(out@) =~= pending_view(before).push(
                (out@.last().name@, out@.last().arguments),
            ));
        }
    }
    assert(arr@.take(n as int) =~= arr@);
    out
}

/// Reads one line of the stream.
pub fn chunk_of(val: &serde_json::Value) -> (r: StreamChunk)
    ensures
        pending_view(r.calls@) == chunk_calls(*val),
        opt_view(r.thinking) == json_str(json_get(message_of(*val), "thinking"@)),
        opt_view(r.content) == json_str(json_get(message_of(*val), "content"@)),
        r.done == (json_bool(json_get(*val, "done"@)) == Some(true)),
        r.eval_count == count_or_zero(*val, "eval_count"@),
        r.eval_duration_ns == count_or_zero(*val, "eval_duration"@),
        r.prompt_eval_count == count_or_zero(*val, "prompt_eval_count"@),
{
    let message = json_member(val, "message");
    let calls = match json_as_array(&json_member(&message, "tool_calls")) {
        Some(a) => calls_from_array(&a),
        None => {
            assert(pending_view(Seq::<PendingCall>::empty()) =~= Seq::<(Seq<char>, serde_json::Value)>::empty());
            Vec::new()
        },
    };
    let thinking = json_as_str(&json_member(&message, "thinking"));
    let content = json_as_str(&json_member(&message, "content"));
    let done = match json_as_bool(&json_member(val, "done")) {
        Some(b) => b,
        None => false,
    };
    let eval_count = match json_as_u64(&json_member(val, "eval_count")) {
        Some(n) => n,
        None => 0,
    };
    let eval_duration_ns = match json_as_u64(&json_member(val, "eval_duration")) {
        Some(n) => n,
        None => 0,
    };
    let prompt_eval_count = match json_as_u64(&json_member(val, "prompt_eval_count")) {
        Some(n) => n,
        None => 0,
    };
    StreamChunk {
        calls,
        thinking,
        content,
        done,
        eval_count,
        eval_duration_ns,
        prompt_eval_count,
    }
}

// ---------------------------------------------------------------------------
// The turn, line by line
// ---------------------------------------------------------------------------

/// What the turn reports while it streams.
pub enum StreamEvent {
    ThinkingStarted,
    ThinkingDelta(String),
    ThinkingDone,
    TextDelta(String),
    TurnStats { eval_count: u64, eval_duration_ns: u64, prompt_eval_count: u64 },
}

/// A reported event, as values.
pub enum EventView {
    ThinkingStarted,
    ThinkingDelta(Seq<char>),
    ThinkingDone,
    TextDelta(Seq<char>),
    TurnStats { eval_count: u64, eval_duration_ns: u64, prompt_eval_count: u64 },
}

impl View for StreamEvent {
    type V = EventView;

    open spec fn view(&self) -> EventView {
        match self {
            StreamEvent::ThinkingStarted => EventView::ThinkingStarted,
            StreamEvent::ThinkingDelta(s) => EventView::ThinkingDelta(s@),
            StreamEvent::ThinkingDone => EventView::ThinkingDone,
            StreamEvent::TextDelta(s) => EventView::TextDelta(s@),
            StreamEvent::TurnStats { eval_count, eval_duration_ns, prompt_eval_count } =>
                EventView::TurnStats {
                eval_count: *eval_count,
                eval_duration_ns: *eval_duration_ns,
                prompt_eval_count: *prompt_eval_count,
            },
        }
    }
}

pub open spec fn events_view(v: Seq<StreamEvent>) -> Seq<EventView> {
    v.map_values(|e: StreamEvent| e@)
}

/// The state of a streamed turn.
pub struct StreamTurn {
    pub in_thinking: bool,
    pub calls: Vec<PendingCall>,
    pub full_text: String,
    pub done: bool,
    pub filter: ThinkTagFilter,
}

/// The state of a streamed turn, as values.
pub struct TurnView {
    pub in_thinking: bool,
    pub calls: Seq<(Seq<char>, serde_json::Value)>,
    pub text: Seq<char>,
    pub done: bool,
    pub filter: TagState,
}

impl View for StreamTurn {
    type V = TurnView;

    open spec fn view(&self) -> TurnView {
        TurnView {
            in_thinking: self.in_thinking,
            calls: pending_view(self.calls@),
            text: self.full_text@,
            done: self.done,
            filter: self.filter@,
        }
    }
}

/// Reasoning text `d`: opens the thinking block if needed, then reports it.
pub open spec fn thinking_part(t: TurnView, d: Seq<char>) -> (TurnView, Seq<EventView>) {
    if d.len() > 0 {
        let opening = if t.in_thinking {
            Seq::<EventView>::empty()
        } else {
            seq![EventView::ThinkingStarted]
        };
        (TurnView { in_thinking: true, ..t }, opening.push(EventView::ThinkingDelta(d)))
    } else {
        (t, Seq::empty())
    }
}

/// Visible text `x`: closes the thinking block if needed, keeps and reports it.
pub open spec fn text_part(t: TurnView, x: Seq<char>) -> (TurnView, Seq<EventView>) {
    if x.len() > 0 {
        let closing = if t.in_thinking {
            seq![EventView::ThinkingDone]
        } else {
            Seq::<EventView>::empty()
        };
        (
            TurnView { in_thinking: false, text: t.text + x, ..t },
            closing.push(EventView::TextDelta(x)),
        )
    } else {
        (t, Seq::empty())
    }
}

/// Model content: split by the tag filter into reasoning and visible text.
pub open spec fn content_part(t: TurnView, d: Seq<char>) -> (TurnView, Seq<EventView>) {
    if d.len() > 0 {
        let r = run(t.filter, d);
        let (t1, e1) = thinking_part(TurnView { filter: r.state, ..t }, r.thinking);
        let (t2, e2) = text_part(t1, r.text);
        (t2, e1 + e2)
    } else {
        (t, Seq::empty())
    }
}

/// The closing line: closes the thinking block and reports the counts, if any.
pub open spec fn done_part(
    t: TurnView,
    done: bool,
    eval_count: u64,
    eval_duration_ns: u64,
    prompt_eval_count: u64,
) -> (TurnView, Seq<EventView>) {
    if done {
        let closing = if t.in_thinking {
            seq![EventView::ThinkingDone]
        } else {
            Seq::<EventView>::empty()
        };
        let stats = if eval_count > 0 || prompt_eval_count > 0 {
            seq![EventView::TurnStats { eval_count, eval_duration_ns, prompt_eval_count }]
        } else {
            Seq::<EventView>::empty()
        };
        (TurnView { in_thinking: false, done: true, ..t }, closing + stats)
    } else {
        (t, Seq::empty())
    }
}

pub open spec fn opt_text(o: Option<Seq<char>>) -> Seq<char> {
    match o {
        Some(s) => s,
        None => Seq::empty(),
    }
}

/// A line of the stream: its tool calls are kept; its reasoning, its content
/// and its closing are reported in that order.
pub open spec fn feed_spec(
    t: TurnView,
    calls: Seq<(Seq<char>, serde_json::Value)>,
    thinking: Option<Seq<char>>,
    content: Option<Seq<char>>,
    done: bool,
    eval_count: u64,
    eval_duration_ns: u64,
    prompt_eval_count: u64,
) -> (TurnView, Seq<EventView>) {
    let t0 = TurnView { calls: t.calls + calls, ..t };
    let (t1, e1) = thinking_part(t0, opt_text(thinking));
    let (t2, e2) = content_part(t1, opt_text(content));
    let (t3, e3) = done_part(t2, done, eval_count, eval_duration_ns, prompt_eval_count);
    (t3, e1 + e2 + e3)
}

/// The end of the stream: what the tag filter still holds is released
/// (reasoning first, then text), and an open thinking block is closed.
pub open spec fn finish_spec(t: TurnView) -> (TurnView, Seq<EventView>) {
    let r = flush_spec(t.filter);
    let (t1, e1) = thinking_part(TurnView { filter: r.state, ..t }, r.thinking);
    let t2 = if r.text.len() > 0 {
        TurnView { text: t1.text + r.text, ..t1 }
    } else {
        t1
    };
    let e2 = if r.text.len() > 0 {
        seq![EventView::TextDelta(r.text)]
    } else {
        Seq::<EventView>::empty()
    };
    let e3 = if t2.in_thinking {
        seq![EventView::ThinkingDone]
    } else {
        Seq::<EventView>::empty()
    };
    (t2, e1 + e2 + e3)
}

impl StreamTurn {
    pub fn new() -> (r: Self)
        ensures
            r@ == (TurnView {
                in_thinking: false,
                calls: Seq::empty(),
                text: Seq::empty(),
                done: false,
                filter: TagState::Text,
            }),
    {
        let r = StreamTurn {
            in_thinking: false,
            calls: Vec::new(),
            full_text: String::new(),
            done: false,
            filter: ThinkTagFilter::new(),
        };
        assert(pending_view(r.calls@) =~= Seq::<(Seq<char>, serde_json::Value)>::empty());
        r
    }

    fn thinking(&mut self, d: String, events: &mut Vec<StreamEvent>)
        ensures
            final(self)@ == thinking_part(old(self)@, d@).0,
            events_view(final(events)@) == events_view(old(events)@) + thinking_part(old(self)@, d@).1,
    {
        let ghost before = events@;
        if !d.as_str().is_empty() {
            if !self.in_thinking {
                self.in_thinking = true;
                events.push(StreamEvent::ThinkingStarted);
            }
            events.push(StreamEvent::ThinkingDelta(d));
            assert(events_view(events@) =~= events_view(before) + thinking_part(old(self)@, d@).1);
        } else {
            assert(events_view(events@) =~= events_view(before) + Seq::<EventView>::empty());
        }
    }

    fn text(&mut self, x: String, events: &mut Vec<StreamEvent>)
        ensures
            final(self)@ == text_part(old(self)@, x@).0,
            events_view(final(events)@) == events_view(old(events)@) + text_part(old(self)@, x@).1,
    {
        let ghost before = events@;
        if !x.as_str().is_empty() {
            if self.in_thinking {
                self.in_thinking = false;
                events.push(StreamEvent::ThinkingDone);
            }
            self.full_text.append(x.as_str());
            events.push(StreamEvent::TextDelta(x));
            assert(events_view(events@) =~= events_view(before) + text_part(old(self)@, x@).1);
        } else {
            assert(events_view(events@) =~= events_view(before) + Seq::<EventView>::empty());
        }
    }

    fn content(&mut self, content: Option<String>, events: &mut Vec<StreamEvent>)
        ensures
            final(self)@ == content_part(old(self)@, opt_text(opt_view(content))).0,
            events_view(final(events)@) == events_view(old(events)@) + content_part(
                old(self)@,
                opt_text(opt_view(content)),
            ).1,
    {
        let ghost before = events@;
        match content {
            Some(d) => {
                if !d.as_str().is_empty() {
                    let out: FilterOutput = self.filter.feed(d.as_str());
                    let FilterOutput { text, thinking } = out;
                    self.thinking(thinking, events);
                    self.text(text, events);
                    assert(events_view(events@) =~= events_view(before) + content_part(
                        old(self)@,
                        d@,
                    ).1);
                } else {
                    assert(events_view(events@) =~= events_view(before) + Seq::<EventView>::empty());
                }
            },
            None => {
                assert(events_view(events@) =~= events_view(before) + Seq::<EventView>::empty());
            },
        }
    }

    fn closing(
        &mut self,
        done: bool,
        eval_count: u64,
        eval_duration_ns: u64,
        prompt_eval_count: u64,
        events: &mut Vec<StreamEvent>,
    )
        ensures
            final(self)@ == done_part(
                old(self)@,
                done,
                eval_count,
                eval_duration_ns,
                prompt_eval_count,
            ).0,
            events_view(final(events)@) == events_view(old(events)@) + done_part(
                old(self)@,
                done,
                eval_count,
                eval_duration_ns,
                prompt_eval_count,
            ).1,
    {
        let ghost before = events@;
        if done {
            if self.in_thinking {
                self.in_thinking = false;
                events.push(StreamEvent::ThinkingDone);
            }
            if eval_count > 0 || prompt_eval_count > 0 {
                events.push(
                    StreamEvent::TurnStats { eval_count, eval_duration_ns, prompt_eval_count },
                );
            }
            self.done = true;
        }
        assert(events_view(events@) =~= events_view(before) + done_part(
            old(self)@,
            done,
            eval_count,
            eval_duration_ns,
            prompt_eval_count,
        ).1);
    }

    /// Takes in one line of the stream; the events to report, in order.
    pub fn feed(&mut self, chunk: StreamChunk) -> (events: Vec<StreamEvent>)
        ensures
            (final(self)@, events_view(events@)) == feed_spec(
                old(self)@,
                pending_view(chunk.calls@),
                opt_view(chunk.thinking),
                opt_view(chunk.content),
                chunk.done,
                chunk.eval_count,
                chunk.eval_duration_ns,
                chunk.prompt_eval_count,
            ),
    {
        let StreamChunk {
            calls,
            thinking,
            content,
            done,
            eval_count,
            eval_duration_ns,
            prompt_eval_count,
        } = chunk;
        let mut events: Vec<StreamEvent> = Vec::new();
        let mut calls = calls;
        let ghost added = pending_view(calls@);
        let ghost before_calls = self.calls@;
        self.calls.append(&mut calls);
        assert(pending_view(self.calls@) =~= pending_view(before_calls) + added);
        let th = match thinking {
            Some(d) => d,
            None => String::new(),
        };
        assert(events_view(events@) =~= Seq::<EventView>::empty());
        self.thinking(th, &mut events);
        self.content(content, &mut events);
        self.closing(done, eval_count, eval_duration_ns, prompt_eval_count, &mut events);
        events
    }

    /// Ends the stream; the last events to report, in order.
    pub fn finish(&mut self) -> (events: Vec<StreamEvent>)
        ensures
            (final(self)@, events_view(events@)) == finish_spec(old(self)@),
    {
        let mut events: Vec<StreamEvent> = Vec::new();
        let out: FilterOutput = self.filter.flush();
        let FilterOutput { text, thinking } = out;
        assert(events_view(events@) =~= Seq::<EventView>::empty());
        self.thinking(thinking, &mut events);
        let ghost mid = events@;
        if !text.as_str().is_empty() {
            self.full_text.append(text.as_str());
            events.push(StreamEvent::TextDelta(text));
        }
        let ghost mid2 = events@;
        if self.in_thinking {
            events.push(StreamEvent::ThinkingDone);
        }
        assert(events_view(events@) =~= finish_spec(old(self)@).1);
        events
    }
}

/// How a streamed turn ends: with tool calls when the model asked for any,
/// else with its text.
pub enum TurnOutcome {
    Text(String),
    ToolCalls(String, Vec<PendingCall>),
}

impl StreamTurn {
    /// The outcome of a finished turn.
    pub fn into_outcome(self) -> (r: TurnOutcome)
        ensures
            self.calls@.len() == 0 ==> (r matches TurnOutcome::Text(t) && t@ == self.full_text@),
            self.calls@.len() > 0 ==> (r matches TurnOutcome::ToolCalls(t, c) && t@
                == self.full_text@ && pending_view(c@) == pending_view(self.calls@)),
    {
        if self.calls.len() == 0 {
            TurnOutcome::Text(self.full_text)
        } else {
            TurnOutcome::ToolCalls(self.full_text, self.calls)
        }
    }
}

/// The visible text that a list of events reports.
pub open spec fn streamed_text(evs: Seq<EventView>) -> Seq<char>
    decreases evs.len(),
{
    if evs.len() == 0 {
        Seq::empty()
    } else {
        streamed_text(evs.drop_last()) + match evs.last() {
            EventView::TextDelta(x) => x,
            _ => Seq::empty(),
        }
    }
}

/// The text a turn ends with when reporting event `k` fails: the text before
/// the line and the visible text reported up to and including that event.
pub fn partial_text(before: &String, events: &Vec<StreamEvent>, k: usize) -> (r: String)
    requires
        k < events@.len(),
    ensures
        r@ == before@ + streamed_text(events_view(events@).take(k + 1)),
{
    let ghost ev = events_view(events@);
    let n = events.len();
    let end = k + 1;
    let mut r = before.clone();
    assert(ev.take(0) =~= Seq::<EventView>::empty());
    assert(r@ =~= before@ + streamed_text(ev.take(0)));
    for i in 0..end
        invariant
            end == k + 1,
            k < events@.len(),
            ev == events_view(events@),
            r@ == before@ + streamed_text(ev.take(i as int)),
    {
        assert(ev.take(i + 1).drop_last() =~= ev.take(i as int));
        assert(ev.take(i + 1).last() == events@[i as int]@);
        match &events[i] {
            StreamEvent::TextDelta(x) => {
                r.append(x.as_str());
            },
            _ => {},
        }
        assert(r@ =~= before@ + streamed_text(ev.take(i + 1)));
    }
    r
}

proof fn lemma_streamed_concat(a: Seq<EventView>, b: Seq<EventView>)
    ensures
        streamed_text(a + b) == streamed_text(a) + streamed_text(b),
    decreases b.len(),
{
    if b.len() == 0 {
        assert(a + b =~= a);
        assert(streamed_text(a) + Seq::<char>::empty() =~= streamed_text(a));
    } else {
        lemma_streamed_concat(a, b.drop_last());
        assert((a + b).drop_last() =~= a + b.drop_last());
        assert((a + b).last() == b.last());
    }
}

proof fn lemma_streamed_small(x: Seq<char>)
    ensures
        streamed_text(Seq::empty()) == Seq::<char>::empty(),
        streamed_text(seq![EventView::ThinkingStarted]) == Seq::<char>::empty(),
        streamed_text(seq![EventView::ThinkingDone]) == Seq::<char>::empty(),
        streamed_text(seq![EventView::ThinkingDelta(x)]) == Seq::<char>::empty(),
        streamed_text(seq![EventView::TextDelta(x)]) == x,
{
    assert(seq![EventView::ThinkingStarted].drop_last() =~= Seq::<EventView>::empty());
    assert(seq![EventView::ThinkingDone].drop_last() =~= Seq::<EventView>::empty());
    assert(seq![EventView::ThinkingDelta(x)].drop_last() =~= Seq::<EventView>::empty());
    assert(seq![EventView::TextDelta(x)].drop_last() =~= Seq::<EventView>::empty());
    assert(Seq::<char>::empty() + x =~= x);
}

proof fn lemma_text_part_streamed(t: TurnView, x: Seq<char>)
    ensures
        text_part(t, x).0.text == t.text + streamed_text(text_part(t, x).1),
{
    lemma_streamed_small(x);
    if x.len() > 0 {
        if t.in_thinking {
            lemma_streamed_concat(seq![EventView::ThinkingDone], seq![EventView::TextDelta(x)]);
            assert(seq![EventView::ThinkingDone].push(EventView::TextDelta(x)) =~= seq![
                EventView::ThinkingDone,
            ] + seq![EventView::TextDelta(x)]);
        } else {
            assert(Seq::<EventView>::empty().push(EventView::TextDelta(x)) =~= seq![
                EventView::TextDelta(x),
            ]);
        }
    } else {
        assert(t.text + Seq::<char>::empty() =~= t.text);
    }
}

proof fn lemma_thinking_part_streamed(t: TurnView, d: Seq<char>)
    ensures
        thinking_part(t, d).0.text == t.text,
        streamed_text(thinking_part(t, d).1) == Seq::<char>::empty(),
{
    lemma_streamed_small(d);
    if d.len() > 0 {
        if !t.in_thinking {
            lemma_streamed_concat(seq![EventView::ThinkingStarted], seq![EventView::ThinkingDelta(d)]);
            assert(seq![EventView::ThinkingStarted].push(EventView::ThinkingDelta(d)) =~= seq![
                EventView::ThinkingStarted,
            ] + seq![EventView::ThinkingDelta(d)]);
        } else {
            assert(Seq::<EventView>::empty().push(EventView::ThinkingDelta(d)) =~= seq![
                EventView::ThinkingDelta(d),
            ]);
        }
    }
}

proof fn lemma_done_part_streamed(t: TurnView, done: bool, a: u64, b: u64, c: u64)
    ensures
        done_part(t, done, a, b, c).0.text == t.text,
        streamed_text(done_part(t, done, a, b, c).1) == Seq::<char>::empty(),
{
    let stats = seq![EventView::TurnStats { eval_count: a, eval_duration_ns: b, prompt_eval_count: c }];
    assert(stats.drop_last() =~= Seq::<EventView>::empty());
    lemma_streamed_small(Seq::empty());
    lemma_streamed_concat(seq![EventView::ThinkingDone], stats);
    lemma_streamed_concat(Seq::empty(), stats);
    lemma_streamed_concat(seq![EventView::ThinkingDone], Seq::empty());
    lemma_streamed_concat(Seq::empty(), Seq::empty());
}

/// What a turn says is exactly what it streamed: after each line of the
/// stream, the turn's text has grown by the visible text of the reported
/// events, and by nothing else.
pub proof fn law_text_is_streamed(
    t: TurnView,
    calls: Seq<(Seq<char>, serde_json::Value)>,
    thinking: Option<Seq<char>>,
    content: Option<Seq<char>>,
    done: bool,
    eval_count: u64,
    eval_duration_ns: u64,
    prompt_eval_count: u64,
)
    ensures
        ({
            let (t2, evs) = feed_spec(
                t,
                calls,
                thinking,
                content,
                done,
                eval_count,
                eval_duration_ns,
                prompt_eval_count,
            );
            t2.text == t.text + streamed_text(evs)
        }),
{
    let t0 = TurnView { calls: t.calls + calls, ..t };
    let (t1, e1) = thinking_part(t0, opt_text(thinking));
    lemma_thinking_part_streamed(t0, opt_text(thinking));
    let d = opt_text(content);
    let (t2, e2) = content_part(t1, d);
    if d.len() > 0 {
        let r = run(t1.filter, d);
        let ta = TurnView { filter: r.state, ..t1 };
        lemma_thinking_part_streamed(ta, r.thinking);
        let (tb, ea) = thinking_part(ta, r.thinking);
        lemma_text_part_streamed(tb, r.text);
        lemma_streamed_concat(ea, text_part(tb, r.text).1);
    } else {
        lemma_streamed_small(d);
        assert(t1.text + Seq::<char>::empty() =~= t1.text);
    }
    let (t3, e3) = done_part(t2, done, eval_count, eval_duration_ns, prompt_eval_count);
    lemma_done_part_streamed(t2, done, eval_count, eval_duration_ns, prompt_eval_count);
    lemma_streamed_concat(e1, e2);
    lemma_streamed_concat(e1 + e2, e3);
    assert(t.text + (Seq::<char>::empty() + streamed_text(e2) + Seq::<char>::empty()) =~= t.text
        + streamed_text(e2));
}

/// Whether the thinking block is open after the events, starting from
/// `open`; `None` when an event does not fit: a block opened while open,
/// closed while closed, reasoning outside a block, or (when `strict`)
/// visible text inside one.
pub open spec fn thinking_balance(open: bool, evs: Seq<EventView>, strict: bool) -> Option<bool>
    decreases evs.len(),
{
    if evs.len() == 0 {
        Some(open)
    } else {
        let next = match evs[0] {
            EventView::ThinkingStarted => if open {
                None
            } else {
                Some(true)
            },
            EventView::ThinkingDone => if open {
                Some(false)
            } else {
                None
            },
            EventView::ThinkingDelta(_) => if open {
                Some(true)
            } else {
                None
            },
            EventView::TextDelta(_) => if open && strict {
                None
            } else {
                Some(open)
            },
            EventView::TurnStats { .. } => Some(open),
        };
        match next {
            Some(o) => thinking_balance(o, evs.skip(1), strict),
            None => None,
        }
    }
}

proof fn lemma_balance_concat(open: bool, a: Seq<EventView>, b: Seq<EventView>, strict: bool)
    ensures
        thinking_balance(open, a + b, strict) == match thinking_balance(open, a, strict) {
            Some(o) => thinking_balance(o, b, strict),
            None => None,
        },
    decreases a.len(),
{
    if a.len() == 0 {
        assert(a + b =~= b);
    } else {
        assert((a + b)[0] == a[0]);
        assert((a + b).skip(1) =~= a.skip(1) + b);
        let next = match a[0] {
            EventView::ThinkingStarted => if open {
                None
            } else {
                Some(true)
            },
            EventView::ThinkingDone => if open {
                Some(false)
            } else {
                None
            },
            EventView::ThinkingDelta(_) => if open {
                Some(true)
            } else {
                None
            },
            EventView::TextDelta(_) => if open && strict {
                None
            } else {
                Some(open)
            },
            EventView::TurnStats { .. } => Some(open),
        };
        if let Some(o) = next {
            lemma_balance_concat(o, a.skip(1), b, strict);
        }
    }
}

proof fn lemma_balance_one(open: bool, e: EventView, strict: bool)
    ensures
        thinking_balance(open, seq![e], strict) == match e {
            EventView::ThinkingStarted => if open {
                None
            } else {
                Some(true)
            },
            EventView::ThinkingDone => if open {
                Some(false)
            } else {
                None
            },
            EventView::ThinkingDelta(_) => if open {
                Some(true)
            } else {
                None
            },
            EventView::TextDelta(_) => if open && strict {
                None
            } else {
                Some(open)
            },
            EventView::TurnStats { .. } => Some(open),
        },
{
    assert(seq![e].skip(1) =~= Seq::<EventView>::empty());
    assert(thinking_balance(true, Seq::<EventView>::empty(), strict) == Some(true));
    assert(thinking_balance(false, Seq::<EventView>::empty(), strict) == Some(false));
}

proof fn lemma_thinking_part_balanced(t: TurnView, d: Seq<char>, strict: bool)
    ensures
        thinking_balance(t.in_thinking, thinking_part(t, d).1, strict) == Some(
            thinking_part(t, d).0.in_thinking,
        ),
{
    if d.len() > 0 {
        lemma_balance_one(true, EventView::ThinkingDelta(d), strict);
        if !t.in_thinking {
            lemma_balance_one(false, EventView::ThinkingStarted, strict);
            lemma_balance_concat(false, seq![EventView::ThinkingStarted], seq![EventView::ThinkingDelta(d)], strict);
            assert(seq![EventView::ThinkingStarted].push(EventView::ThinkingDelta(d)) =~= seq![
                EventView::ThinkingStarted,
            ] + seq![EventView::ThinkingDelta(d)]);
        } else {
            assert(Seq::<EventView>::empty().push(EventView::ThinkingDelta(d)) =~= seq![
                EventView::ThinkingDelta(d),
            ]);
        }
    }
}

proof fn lemma_text_part_balanced(t: TurnView, x: Seq<char>)
    ensures
        thinking_balance(t.in_thinking, text_part(t, x).1, true) == Some(text_part(t, x).0.in_thinking),
{
    if x.len() > 0 {
        lemma_balance_one(false, EventView::TextDelta(x), true);
        if t.in_thinking {
            lemma_balance_one(true, EventView::ThinkingDone, true);
            lemma_balance_concat(true, seq![EventView::ThinkingDone], seq![EventView::TextDelta(x)], true);
            assert(seq![EventView::ThinkingDone].push(EventView::TextDelta(x)) =~= seq![
                EventView::ThinkingDone,
            ] + seq![EventView::TextDelta(x)]);
        } else {
            assert(Seq::<EventView>::empty().push(EventView::TextDelta(x)) =~= seq![
                EventView::TextDelta(x),
            ]);
        }
    }
}

proof fn lemma_done_part_balanced(t: TurnView, done: bool, a: u64, b: u64, c: u64)
    ensures
        thinking_balance(t.in_thinking, done_part(t, done, a, b, c).1, true) == Some(
            done_part(t, done, a, b, c).0.in_thinking,
        ),
{
    let stats = EventView::TurnStats { eval_count: a, eval_duration_ns: b, prompt_eval_count: c };
    lemma_balance_one(false, stats, true);
    lemma_balance_one(true, EventView::ThinkingDone, true);
    lemma_balance_concat(true, seq![EventView::ThinkingDone], seq![stats], true);
    lemma_balance_concat(false, Seq::empty(), seq![stats], true);
    lemma_balance_concat(true, seq![EventView::ThinkingDone], Seq::empty(), true);
    assert(seq![EventView::ThinkingDone] + Seq::<EventView>::empty() =~= seq![EventView::ThinkingDone]);
    assert(Seq::<EventView>::empty() + seq![stats] =~= seq![stats]);
}

/// The reports of a line keep thinking blocks well formed: a block opens
/// only when none is open, reasoning and closing come only inside one,
/// visible text only outside one, and the turn's own flag says whether one
/// is open afterwards.
pub proof fn law_thinking_blocks_well_formed(
    t: TurnView,
    calls: Seq<(Seq<char>, serde_json::Value)>,
    thinking: Option<Seq<char>>,
    content: Option<Seq<char>>,
    done: bool,
    eval_count: u64,
    eval_duration_ns: u64,
    prompt_eval_count: u64,
)
    ensures
        ({
            let (t2, evs) = feed_spec(
                t,
                calls,
                thinking,
                content,
                done,
                eval_count,
                eval_duration_ns,
                prompt_eval_count,
            );
            thinking_balance(t.in_thinking, evs, true) == Some(t2.in_thinking)
        }),
{
    let t0 = TurnView { calls: t.calls + calls, ..t };
    let (t1, e1) = thinking_part(t0, opt_text(thinking));
    lemma_thinking_part_balanced(t0, opt_text(thinking), true);
    let d = opt_text(content);
    let (t2, e2) = content_part(t1, d);
    if d.len() > 0 {
        let r = run(t1.filter, d);
        let ta = TurnView { filter: r.state, ..t1 };
        lemma_thinking_part_balanced(ta, r.thinking, true);
        let (tb, ea) = thinking_part(ta, r.thinking);
        lemma_text_part_balanced(tb, r.text);
        lemma_balance_concat(ta.in_thinking, ea, text_part(tb, r.text).1, true);
    }
    let (t3, e3) = done_part(t2, done, eval_count, eval_duration_ns, prompt_eval_count);
    lemma_done_part_balanced(t2, done, eval_count, eval_duration_ns, prompt_eval_count);
    lemma_balance_concat(t.in_thinking, e1, e2, true);
    lemma_balance_concat(t.in_thinking, e1 + e2, e3, true);
}

/// The end of a stream closes the thinking block: its reports fit the open
/// block (visible text released from the filter may still come inside it)
/// and leave no block open.
pub proof fn law_finish_closes_thinking(t: TurnView)
    ensures
        thinking_balance(t.in_thinking, finish_spec(t).1, false) == Some(false),
{
    let r = flush_spec(t.filter);
    let ta = TurnView { filter: r.state, ..t };
    lemma_thinking_part_balanced(ta, r.thinking, false);
    let (t1, e1) = thinking_part(ta, r.thinking);
    let e2 = if r.text.len() > 0 {
        seq![EventView::TextDelta(r.text)]
    } else {
        Seq::<EventView>::empty()
    };
    lemma_balance_one(t1.in_thinking, EventView::TextDelta(r.text), false);
    lemma_balance_one(true, EventView::ThinkingDone, false);
    lemma_balance_concat(t.in_thinking, e1, e2, false);
    let e3 = if t1.in_thinking {
        seq![EventView::ThinkingDone]
    } else {
        Seq::<EventView>::empty()
    };
    lemma_balance_concat(t.in_thinking, e1 + e2, e3, false);
}

// ---------------------------------------------------------------------------
// The request
// ---------------------------------------------------------------------------

/// A tool call as a request carries it.
pub struct WireCall {
    pub name: String,
    pub arguments: serde_json::Value,
}

/// A message as a request carries it.
pub struct WireMessage {
    pub role: Role,
    pub content: String,
    pub images: Vec<String>,
    pub tool_calls: Vec<WireCall>,
}

/// A message of a request, as values.
pub struct WireSpec {
    pub role: Role,
    pub content: Seq<char>,
    pub images: Seq<Seq<char>>,
    pub calls: Seq<(Seq<char>, serde_json::Value)>,
}

pub open spec fn wire_view(w: WireMessage) -> WireSpec {
    WireSpec {
        role: w.role,
        content: w.content@,
        images: string_views(w.images@),
        calls: w.tool_calls@.map_values(|c: WireCall| (c.name@, c.arguments)),
    }
}

/// The content of a message that follows a system prompt `sys`.
pub open spec fn with_system(sys: Seq<char>, content: Seq<char>) -> Seq<char> {
    "<system>\n"@ + sys + "\n</system>\n\n"@ + content
}

/// The messages of a request. The system prompt does not go as a message of
/// its own (models that think suppress their thinking when it comes with
/// tools): it is prepended, in `<system>` tags, to the next message.
pub open spec fn wire_from(hs: Seq<Message>, sys: Option<Seq<char>>) -> Seq<WireSpec>
    decreases hs.len(),
{
    if hs.len() == 0 {
        Seq::empty()
    } else {
        let m = hs[0];
        if m.role == Role::System {
            wire_from(hs.skip(1), Some(m.content@))
        } else {
            let content = match sys {
                Some(s) => with_system(s, m.content@),
                None => m.content@,
            };
            seq![
                WireSpec {
                    role: m.role,
                    content,
                    images: string_views(m.images@),
                    calls: m.tool_calls@.map_values(
                        |c: crate::types::ToolCall| (c.name@, c.arguments),
                    ),
                },
            ] + wire_from(hs.skip(1), None)
        }
    }
}

fn copy_images(v: &Vec<String>) -> (r: Vec<String>)
    ensures
        string_views(r@) == string_views(v@),
{
    let n = v.len();
    let mut r: Vec<String> = Vec::new();
    for i in 0..n
        invariant
            n == v@.len(),
            string_views(r@) =~= string_views(v@).take(i as int),
    {
        r.push(v[i].clone());
        assert(string_views(v@).take(i + 1) =~= string_views(v@).take(i as int).push(v@[i as int]@));
    }
    assert(string_views(v@).take(n as int) =~= string_views(v@));
    r
}

fn wire_calls(calls: &Vec<crate::types::ToolCall>) -> (r: Vec<WireCall>)
    ensures
        r@.map_values(|c: WireCall| (c.name@, c.arguments)) == calls@.map_values(
            |c: crate::types::ToolCall| (c.name@, c.arguments),
        ),
{
    let n = calls.len();
    let mut r: Vec<WireCall> = Vec::new();
    for i in 0..n
        invariant
            n == calls@.len(),
            r@.map_values(|c: WireCall| (c.name@, c.arguments)) =~= calls@.map_values(
                |c: crate::types::ToolCall| (c.name@, c.arguments),
            ).take(i as int),
    {
        let ghost before = r@;
        r.push(
            WireCall {
                name: calls[i].name.clone(),
                arguments: crate::types::clone_json(&calls[i].arguments),
            },
        );
        assert(r@.map_values(|c: WireCall| (c.name@, c.arguments)) =~= before.map_values(
            |c: WireCall| (c.name@, c.arguments),
        ).push((calls@[i as int].name@, calls@[i as int].arguments)));
        assert(calls@.map_values(|c: crate::types::ToolCall| (c.name@, c.arguments)).take(i + 1)
            =~= calls@.map_values(|c: crate::types::ToolCall| (c.name@, c.arguments)).take(
            i as int,
        ).push((calls@[i as int].name@, calls@[i as int].arguments)));
    }
    assert(calls@.map_values(|c: crate::types::ToolCall| (c.name@, c.arguments)).take(n as int)
        =~= calls@.map_values(|c: crate::types::ToolCall| (c.name@, c.arguments)));
    r
}

/// The messages of a request for the history `history`.
pub fn wire_messages(history: &Vec<Message>) -> (r: Vec<WireMessage>)
    ensures
        r@.map_values(|w: WireMessage| wire_view(w)) == wire_from(history@, None),
{
    let n = history.len();
    let mut out: Vec<WireMessage> = Vec::new();
    let mut sys: Option<String> = None;
    assert(history@.skip(0) =~= history@);
    let ghost mut done: Seq<WireSpec> = Seq::empty();
    let mut i: usize = 0;
    while i < n
        invariant
            n == history@.len(),
            i <= n,
            out@.map_values(|w: WireMessage| wire_view(w)) == done,
            done + wire_from(history@.skip(i as int), opt_view(sys)) == wire_from(history@, None),
        decreases n - i,
    {
        let m = &history[i];
        let ghost sys_before = opt_view(sys);
        assert(history@.skip(i as int)[0] == history@[i as int]);
        assert(history@.skip(i as int).skip(1) =~= history@.skip(i + 1));
        if m.role == Role::System {
            sys = Some(m.content.clone());
        } else {
            let content = match sys {
                Some(ref s) => {
                    let mut c = String::new();
                    c.append("<system>\n");
                    c.append(s.as_str());
                    c.append("\n</system>\n\n");
                    c.append(m.content.as_str());
                    c
                },
                None => m.content.clone(),
            };
            sys = None;
            let w = WireMessage {
                role: m.role,
                content,
                images: copy_images(&m.images),
                tool_calls: wire_calls(&m.tool_calls),
            };
            let ghost ws = wire_view(w);
            let ghost before = out@;
            out.push(w);
            proof {
                assert(out@.map_values(|w: WireMessage| wire_view(w)) =~= before.map_values(
                    |w: WireMessage| wire_view(w),
                ).push(ws));
                assert(done.push(ws) + wire_from(history@.skip(i + 1), None) =~= done + wire_from(
                    history@.skip(i as int),
                    sys_before,
                ));
                done = done.push(ws);
            }
        }
        i = i + 1;
    }
    assert(history@.skip(n as int) =~= Seq::<Message>::empty());
    assert(done + Seq::<WireSpec>::empty() =~= done);
    out
}

/// The server address without trailing slashes (`str::trim_end_matches('/')`).
pub fn base_url_of(url: &str) -> (r: String)
    ensures
        r@ == crate::text::trim_either_end(url@, '/', '/'),
{
    let cs = crate::text::chars_of(url);
    let mut j: usize = cs.len();
    assert(cs@.take(j as int) =~= cs@);
    while j > 0 && cs[j - 1] == '/'
        invariant
            j <= cs@.len(),
            cs@ == url@,
            crate::text::trim_either_end(cs@, '/', '/') == crate::text::trim_either_end(
                cs@.take(j as int),
                '/',
                '/',
            ),
        decreases j,
    {
        assert(cs@.take(j as int).drop_last() =~= cs@.take(j - 1));
        j -= 1;
    }
    let t = crate::text::slice_chars(&cs, 0, j);
    assert(t@ =~= cs@.take(j as int));
    crate::text::string_from_chars(&t)
}

/// The URL of the chat endpoint.
pub fn chat_url(base_url: &str) -> (r: String)
    ensures
        r@ == base_url@ + "/api/chat"@,
{
    let mut r = base_url.to_owned();
    r.append("/api/chat");
    r
}

/// The id of the `n`-th tool call of the process.
pub fn call_id_text(n: u64) -> (r: String)
    ensures
        r@ == "call-"@ + decimal(n as nat),
{
    let mut r = String::new();
    r.append("call-");
    push_decimal_u64(&mut r, n);
    r
}

fn push_decimal_u64(s: &mut String, n: u64)
    ensures
        final(s)@ == old(s)@ + decimal(n as nat),
    decreases n,
{
    if n >= 10 {
        push_decimal_u64(s, n / 10);
    }
    let d = (n % 10) as usize;
    let mut digit = String::new();
    push_decimal(&mut digit, d);
    s.append(digit.as_str());
    assert(s@ =~= old(s)@ + decimal(n as nat));
}

} // verus!
