//! The histories sent to the model, built from the persisted messages.
use vstd::prelude::*;

use super::{Session, SessionMessage, SessionView};
use crate::ollama::stream::{json_parse, parse_json};
use crate::text::{
    byte_len, byte_offset, char_len, decimal, push_decimal, char_width, chars_of, lines, lines_of, string_from_chars,
    string_views,
};
use crate::types::{json_is_null, json_null, Message, Role, ToolCall};

verus! {

/// A tool call to send: its id, tool name, and the JSON text of its arguments.
pub struct CallSpec {
    pub id: Seq<char>,
    pub name: Seq<char>,
    pub arguments: Seq<char>,
}

/// A message to send, with tool-call arguments as JSON text.
pub struct MessageSpec {
    pub role: Role,
    pub content: Seq<char>,
    pub images: Seq<Seq<char>>,
    pub calls: Seq<CallSpec>,
}

/// The arguments of a sent tool call: the parsed JSON text, or `null` when
/// the text is not JSON.
pub open spec fn args_from(text: Seq<char>, v: serde_json::Value) -> bool {
    match json_parse(text) {
        Some(p) => v == p,
        None => json_is_null(v),
    }
}

pub open spec fn call_matches(tc: ToolCall, c: CallSpec) -> bool {
    &&& tc.id@ == c.id
    &&& tc.name@ == c.name
    &&& args_from(c.arguments, tc.arguments)
}

/// A message holds what its description says.
pub open spec fn message_matches(m: Message, s: MessageSpec) -> bool {
    &&& m.role == s.role
    &&& m.content@ == s.content
    &&& string_views(m.images@) == s.images
    &&& m.tool_calls@.len() == s.calls.len()
    &&& forall|k: int| 0 <= k < s.calls.len() ==> call_matches(#[trigger] m.tool_calls@[k], s.calls[k])
}

/// Each message holds what the description at its position says.
pub open spec fn history_matches(hs: Seq<Message>, ss: Seq<MessageSpec>) -> bool {
    hs.len() == ss.len() && forall|k: int| 0 <= k < hs.len() ==> message_matches(#[trigger] hs[k], ss[k])
}

/// The persisted messages as text.
pub open spec fn session_views(ms: Seq<SessionMessage>) -> Seq<SessionView> {
    ms.map_values(|m: SessionMessage| m@)
}

/// The tool calls of the run of consecutive tool-call messages at `i`.
pub open spec fn calls_from(ms: Seq<SessionView>, i: nat) -> Seq<CallSpec>
    decreases ms.len() - i,
{
    if i < ms.len() {
        match ms[i as int] {
            SessionView::ToolCall { id, name, arguments } => seq![
                CallSpec { id, name, arguments },
            ] + calls_from(ms, i + 1),
            _ => Seq::empty(),
        }
    } else {
        Seq::empty()
    }
}

pub open spec fn plain(role: Role, content: Seq<char>, images: Seq<Seq<char>>) -> MessageSpec {
    MessageSpec { role, content, images, calls: Seq::empty() }
}

/// One assistant message asking for all the calls of a run.
pub open spec fn request(calls: Seq<CallSpec>) -> MessageSpec {
    MessageSpec { role: Role::Assistant, content: Seq::empty(), images: Seq::empty(), calls }
}

/// The history from message `i` on: texts as they are, thinking left out, each
/// run of tool calls as one request, tool results as tool messages.
pub open spec fn history_tail(ms: Seq<SessionView>, i: nat) -> Seq<MessageSpec>
    decreases ms.len() - i,
{
    if i < ms.len() {
        match ms[i as int] {
            SessionView::Text { role, content, images } => seq![plain(role, content, images)]
                + history_tail(ms, i + 1),
            SessionView::Thinking { .. } => history_tail(ms, i + 1),
            SessionView::ToolCall { .. } => {
                let cs = calls_from(ms, i);
                proof {
                    lemma_calls_len(ms, i);
                }
                seq![request(cs)] + history_tail(ms, i + cs.len())
            },
            SessionView::ToolResult { content, images, .. } => seq![
                plain(Role::Tool, content, images),
            ] + history_tail(ms, i + 1),
        }
    } else {
        Seq::empty()
    }
}

/// The history sent to the model: the system prompt, then the conversation.
pub open spec fn ollama_history(ms: Seq<SessionView>, system: Seq<char>) -> Seq<MessageSpec> {
    seq![plain(Role::System, system, Seq::empty())] + history_tail(ms, 0)
}

pub proof fn lemma_calls_len(ms: Seq<SessionView>, i: nat)
    ensures
        i <= ms.len() ==> i + calls_from(ms, i).len() <= ms.len(),
        i < ms.len() && ms[i as int] is ToolCall ==> calls_from(ms, i).len() >= 1,
    decreases ms.len() - i,
{
    if i < ms.len() {
        lemma_calls_len(ms, i + 1);
    }
}

proof fn lemma_history_matches_push(hs: Seq<Message>, ss: Seq<MessageSpec>, m: Message, s: MessageSpec)
    requires
        history_matches(hs, ss),
        message_matches(m, s),
    ensures
        history_matches(hs.push(m), ss.push(s)),
{
    assert forall|k: int| 0 <= k < hs.push(m).len() implies message_matches(
        #[trigger] hs.push(m)[k],
        ss.push(s)[k],
    ) by {
        if k < hs.len() {
            assert(hs.push(m)[k] == hs[k]);
        }
    }
}

/// A copy of a list of strings.
fn copy_strings(v: &Vec<String>) -> (r: Vec<String>)
    ensures
        string_views(r@) == string_views(v@),
{
    let n = v.len();
    let mut r: Vec<String> = Vec::new();
    for i in 0..n
        invariant
            n == v@.len(),
            string_views(r@) =~= string_views(v@).take(i as int),
    {
        r.push(v[i].clone());
        assert(string_views(v@).take(i + 1) =~= string_views(v@).take(i as int).push(v@[i as int]@));
    }
    assert(string_views(v@).take(n as int) =~= string_views(v@));
    r
}

/// The parsed arguments of a tool call, or `null` when the text is not JSON.
fn call_arguments(text: &String) -> (r: serde_json::Value)
    ensures
        args_from(text@, r),
{
    match parse_json(text.as_str()) {
        Some(v) => v,
        None => json_null(),
    }
}

/// The tool calls of the run at `i`, and the position after the run.
fn collect_calls(msgs: &Vec<SessionMessage>, i: usize) -> (r: (Vec<ToolCall>, usize))
    requires
        i <= msgs@.len(),
    ensures
        r.1 == i + calls_from(session_views(msgs@), i as nat).len(),
        r.1 <= msgs@.len(),
        r.0@.len() == calls_from(session_views(msgs@), i as nat).len(),
        forall|k: int|
            0 <= k < r.0@.len() ==> call_matches(
                #[trigger] r.0@[k],
                calls_from(session_views(msgs@), i as nat)[k],
            ),
{
    let ghost ms = session_views(msgs@);
    let n = msgs.len();
    let mut calls: Vec<ToolCall> = Vec::new();
    let ghost mut done: Seq<CallSpec> = Seq::empty();
    let mut j = i;
    assert(done + calls_from(ms, i as nat) =~= calls_from(ms, i as nat));
    loop
        invariant_except_break
            ms == session_views(msgs@),
            n == msgs@.len(),
            i <= j <= n,
            j == i + done.len(),
            done + calls_from(ms, j as nat) == calls_from(ms, i as nat),
            calls@.len() == done.len(),
            forall|k: int| 0 <= k < calls@.len() ==> call_matches(#[trigger] calls@[k], done[k]),
        ensures
            j <= n,
            j == i + done.len(),
            done == calls_from(ms, i as nat),
            calls@.len() == done.len(),
            forall|k: int| 0 <= k < calls@.len() ==> call_matches(#[trigger] calls@[k], done[k]),
        decreases n - j,
    {
        if j >= n {
            assert(done + calls_from(ms, j as nat) =~= done);
            break;
        }
        match &msgs[j] {
            SessionMessage::ToolCall { id, name, arguments } => {
                let tc = ToolCall {
                    id: id.clone(),
                    name: name.clone(),
                    arguments: call_arguments(arguments),
                };
                let ghost c = CallSpec { id: id@, name: name@, arguments: arguments@ };
                assert(ms[j as int] == msgs@[j as int]@);
                assert(calls_from(ms, j as nat) == seq![c] + calls_from(ms, (j + 1) as nat));
                calls.push(tc);
                proof {
                    assert(done.push(c) + calls_from(ms, (j + 1) as nat) =~= done + calls_from(
                        ms,
                        j as nat,
                    ));
                    assert forall|k: int| 0 <= k < calls@.len() implies call_matches(
                        #[trigger] calls@[k],
                        done.push(c)[k],
                    ) by {
                        if k < done.len() {
                            assert(done.push(c)[k] == done[k]);
                        }
                    }
                    done = done.push(c);
                }
                j = j + 1;
            },
            _ => {
                assert(ms[j as int] == msgs@[j as int]@);
                assert(done + calls_from(ms, j as nat) =~= done);
                break;
            },
        }
    }
    (calls, j)
}

impl Session {
    /// The history sent to the model, with `system_prompt` first.
    pub fn to_ollama_history(&self, system_prompt: &str) -> (r: Vec<Message>)
        ensures
            history_matches(r@, ollama_history(session_views(self.messages@), system_prompt@)),
    {
        let ghost ms = session_views(self.messages@);
        let mut history: Vec<Message> = Vec::new();
        let first = Message::new(Role::System, system_prompt.to_owned());
        let ghost sys = plain(Role::System, system_prompt@, Seq::empty());
        assert(string_views(first.images@) =~= Seq::<Seq<char>>::empty());
        proof {
            lemma_history_matches_push(Seq::empty(), Seq::empty(), first, sys);
        }
        history.push(first);
        let ghost mut done: Seq<MessageSpec> = seq![sys];
        assert(Seq::<Message>::empty().push(first) =~= history@);
        assert(Seq::<MessageSpec>::empty().push(sys) =~= done);
        let n = self.messages.len();
        let mut i: usize = 0;
        while i < n
            invariant
                ms == session_views(self.messages@),
                n == ms.len(),
                i <= n,
                history_matches(history@, done),
                done + history_tail(ms, i as nat) == ollama_history(ms, system_prompt@),
            decreases n - i,
        {
            assert(ms[i as int] == self.messages@[i as int]@);
            match &self.messages[i] {
                SessionMessage::Text { role, content, images } => {
                    let mut msg = Message::new(*role, content.clone());
                    msg.images = copy_strings(images);
                    let ghost s = plain(*role, content@, string_views(images@));
                    proof {
                        lemma_history_matches_push(history@, done, msg, s);
                        assert(done.push(s) + history_tail(ms, (i + 1) as nat) =~= done
                            + history_tail(ms, i as nat));
                        done = done.push(s);
                    }
                    history.push(msg);
                    i = i + 1;
                },
                SessionMessage::Thinking { .. } => {
                    i = i + 1;
                },
                SessionMessage::ToolCall { .. } => {
                    let (calls, j) = collect_calls(&self.messages, i);
                    let ghost cs = calls_from(ms, i as nat);
                    proof {
                        lemma_calls_len(ms, i as nat);
                    }
                    let msg = Message::tool_request(String::new(), calls);
                    let ghost s = request(cs);
                    assert(string_views(msg.images@) =~= Seq::<Seq<char>>::empty());
                    proof {
                        lemma_history_matches_push(history@, done, msg, s);
                        assert(done.push(s) + history_tail(ms, j as nat) =~= done + history_tail(
                            ms,
                            i as nat,
                        ));
                        done = done.push(s);
                    }
                    history.push(msg);
                    i = j;
                },
                SessionMessage::ToolResult { content, images, .. } => {
                    let mut msg = Message::new(Role::Tool, content.clone());
                    msg.images = copy_strings(images);
                    let ghost s = plain(Role::Tool, content@, string_views(images@));
                    proof {
                        lemma_history_matches_push(history@, done, msg, s);
                        assert(done.push(s) + history_tail(ms, (i + 1) as nat) =~= done
                            + history_tail(ms, i as nat));
                        done = done.push(s);
                    }
                    history.push(msg);
                    i = i + 1;
                },
            }
        }
        assert(done + history_tail(ms, i as nat) =~= done);
        history
    }
}

// ---------------------------------------------------------------------------
// The compressed history of the orchestrator
// ---------------------------------------------------------------------------

/// The longest prefix of `s` whose UTF-8 encoding fits in `b` bytes.
pub open spec fn bytes_prefix(s: Seq<char>, b: nat) -> Seq<char>
    decreases s.len(),
{
    if s.len() == 0 || char_width(s[0]) > b {
        Seq::empty()
    } else {
        seq![s[0]] + bytes_prefix(s.skip(1), (b - char_width(s[0])) as nat)
    }
}

fn take_bytes(s: &Vec<char>, b: usize) -> (r: Vec<char>)
    ensures
        r@ == bytes_prefix(s@, b as nat),
{
    let n = s.len();
    let mut i: usize = 0;
    let mut used: usize = 0;
    assert(s@.skip(0) =~= s@);
    assert(s@.take(0) + bytes_prefix(s@, b as nat) =~= bytes_prefix(s@, b as nat));
    loop
        invariant_except_break
            n == s@.len(),
            i <= n,
            used <= b,
            s@.take(i as int) + bytes_prefix(s@.skip(i as int), (b - used) as nat) == bytes_prefix(
                s@,
                b as nat,
            ),
        ensures
            i <= n,
            s@.take(i as int) == bytes_prefix(s@, b as nat),
        decreases n - i,
    {
        if i >= n {
            assert(s@.skip(i as int) =~= Seq::<char>::empty());
            assert(s@.take(i as int) + Seq::<char>::empty() =~= s@.take(i as int));
            break;
        }
        let w = char_len(s[i]);
        assert(s@.skip(i as int)[0] == s@[i as int]);
        if w > b - used {
            assert(s@.take(i as int) + Seq::<char>::empty() =~= s@.take(i as int));
            break;
        }
        assert(s@.skip(i as int).skip(1) =~= s@.skip(i + 1));
        assert(s@.take(i + 1) =~= s@.take(i as int) + seq![s@[i as int]]);
        assert(s@.take(i as int) + (seq![s@[i as int]] + bytes_prefix(
            s@.skip(i + 1),
            (b - used - w) as nat,
        )) =~= s@.take(i + 1) + bytes_prefix(s@.skip(i + 1), (b - used - w) as nat));
        used = used + w;
        i = i + 1;
    }
    slice_chars_prefix(s, i)
}

fn slice_chars_prefix(s: &Vec<char>, i: usize) -> (r: Vec<char>)
    requires
        i <= s@.len(),
    ensures
        r@ == s@.take(i as int),
{
    let r = crate::text::slice_chars(s, 0, i);
    assert(r@ =~= s@.take(i as int));
    r
}

/// The first line of `s` (`str::lines().next()`), empty when there is none.
pub open spec fn first_line(s: Seq<char>) -> Seq<char> {
    if lines(s).len() > 0 {
        lines(s)[0]
    } else {
        Seq::empty()
    }
}

/// Tool results longer than this many bytes are summarized.
pub const SUMMARY_THRESHOLD: usize = 200;

/// A summary keeps at most this many bytes of the first line.
pub const SUMMARY_HEAD_BYTES: usize = 150;

/// An old tool result as the orchestrator sees it: when longer than the
/// threshold, its first line (cut to the head size) and its length in bytes.
pub open spec fn summary(content: Seq<char>) -> Seq<char> {
    if byte_len(content) > SUMMARY_THRESHOLD {
        bytes_prefix(first_line(content), SUMMARY_HEAD_BYTES as nat) + " ["@ + decimal(
            byte_len(content),
        ) + " chars, summarized]"@
    } else {
        content
    }
}

/// The summary's cut of the first line falls between two characters (a cut
/// inside a character is refused by `str` slicing).
pub open spec fn cuts_cleanly(content: Seq<char>) -> bool {
    byte_len(content) > SUMMARY_THRESHOLD ==> {
        let f = first_line(content);
        byte_len(bytes_prefix(f, SUMMARY_HEAD_BYTES as nat)) == if byte_len(f)
            < SUMMARY_HEAD_BYTES {
            byte_len(f)
        } else {
            SUMMARY_HEAD_BYTES as nat
        }
    }
}

fn summarize(content: &String) -> (r: String)
    requires
        byte_len(content@) <= usize::MAX,
    ensures
        r@ == summary(content@),
{
    let cs = chars_of(content.as_str());
    let total = byte_offset(&cs, cs.len());
    assert(cs@.take(cs@.len() as int) =~= cs@);
    if total > SUMMARY_THRESHOLD {
        let ls = lines_of(&cs);
        let head = if ls.len() > 0 {
            take_bytes(&ls[0], SUMMARY_HEAD_BYTES)
        } else {
            assert(first_line(cs@) =~= Seq::<char>::empty());
            take_bytes(&Vec::new(), SUMMARY_HEAD_BYTES)
        };
        let mut r = string_from_chars(&head);
        r.append(" [");
        push_decimal(&mut r, total);
        r.append(" chars, summarized]");
        r
    } else {
        content.clone()
    }
}

/// The message is the user's own text.
pub open spec fn is_user_text(m: SessionView) -> bool {
    m matches SessionView::Text { role, .. } && role == Role::User
}

/// How many messages are the user's own text.
pub open spec fn user_count(ms: Seq<SessionView>) -> nat
    decreases ms.len(),
{
    if ms.len() == 0 {
        0
    } else {
        user_count(ms.drop_last()) + if is_user_text(ms.last()) {
            1nat
        } else {
            0nat
        }
    }
}

/// `a - b`, or zero when `b` is larger (`usize::saturating_sub`).
pub open spec fn minus(a: nat, b: nat) -> nat {
    if a > b {
        (a - b) as nat
    } else {
        0
    }
}

/// The compressed history from message `i` on: as the full history, except
/// that tool results are sent without images, and summarized while no more
/// than `before` user texts precede them.
pub open spec fn compressed_tail(ms: Seq<SessionView>, i: nat, before: nat) -> Seq<MessageSpec>
    decreases ms.len() - i,
{
    if i < ms.len() {
        match ms[i as int] {
            SessionView::Text { role, content, images } => seq![plain(role, content, images)]
                + compressed_tail(ms, i + 1, before),
            SessionView::Thinking { .. } => compressed_tail(ms, i + 1, before),
            SessionView::ToolCall { .. } => {
                let cs = calls_from(ms, i);
                proof {
                    lemma_calls_len(ms, i);
                }
                seq![request(cs)] + compressed_tail(ms, i + cs.len(), before)
            },
            SessionView::ToolResult { content, .. } => {
                let c = if user_count(ms.take(i as int)) <= before {
                    summary(content)
                } else {
                    content
                };
                seq![plain(Role::Tool, c, Seq::empty())] + compressed_tail(ms, i + 1, before)
            },
        }
    } else {
        Seq::empty()
    }
}

/// The orchestrator's history: the system prompt and every text intact, and
/// tool results from before the last `keep_recent` user texts summarized.
pub open spec fn compressed_history(ms: Seq<SessionView>, system: Seq<char>, keep_recent: nat) -> Seq<
    MessageSpec,
> {
    seq![plain(Role::System, system, Seq::empty())] + compressed_tail(
        ms,
        0,
        minus(user_count(ms), keep_recent),
    )
}

/// Every tool result fits the machine, and the ones to be summarized can be cut.
pub open spec fn compressible(ms: Seq<SessionView>, keep_recent: nat) -> bool {
    forall|i: int|
        0 <= i < ms.len() ==> match #[trigger] ms[i] {
            SessionView::ToolResult { content, .. } => byte_len(content) <= usize::MAX && (user_count(
                ms.take(i),
            ) <= minus(user_count(ms), keep_recent) ==> cuts_cleanly(content)),
            _ => true,
        }
}

proof fn lemma_user_count_step(ms: Seq<SessionView>, i: int)
    requires
        0 <= i < ms.len(),
    ensures
        user_count(ms.take(i + 1)) == user_count(ms.take(i)) + if is_user_text(ms[i]) {
            1nat
        } else {
            0nat
        },
{
    assert(ms.take(i + 1).drop_last() =~= ms.take(i));
}

proof fn lemma_user_count_run(ms: Seq<SessionView>, i: nat)
    requires
        i <= ms.len(),
    ensures
        user_count(ms.take((i + calls_from(ms, i).len()) as int)) == user_count(ms.take(i as int)),
    decreases ms.len() - i,
{
    if i < ms.len() && ms[i as int] is ToolCall {
        lemma_user_count_run(ms, i + 1);
        lemma_user_count_step(ms, i as int);
        assert(calls_from(ms, i).len() == 1 + calls_from(ms, i + 1).len());
        assert(i + calls_from(ms, i).len() == (i + 1) + calls_from(ms, i + 1).len());
    }
}

fn count_user_texts(msgs: &Vec<SessionMessage>) -> (r: usize)
    ensures
        r == user_count(session_views(msgs@)),
{
    let ghost ms = session_views(msgs@);
    let n = msgs.len();
    let mut c: usize = 0;
    assert(ms.take(0) =~= Seq::<SessionView>::empty());
    for i in 0..n
        invariant
            n == ms.len(),
            ms == session_views(msgs@),
            c == user_count(ms.take(i as int)),
            c <= i,
    {
        proof {
            lemma_user_count_step(ms, i as int);
        }
        assert(ms[i as int] == msgs@[i as int]@);
        match &msgs[i] {
            SessionMessage::Text { role: Role::User, .. } => {
                c = c + 1;
            },
            _ => {},
        }
    }
    assert(ms.take(n as int) =~= ms);
    c
}

impl Session {
    /// The orchestrator's history, keeping the last `keep_recent` exchanges whole.
    pub fn to_compressed_history(&self, system_prompt: &str, keep_recent: usize) -> (r: Vec<
        Message,
    >)
        requires
            compressible(session_views(self.messages@), keep_recent as nat),
        ensures
            history_matches(
                r@,
                compressed_history(session_views(self.messages@), system_prompt@, keep_recent as nat),
            ),
    {
        let ghost ms = session_views(self.messages@);
        let user_total = count_user_texts(&self.messages);
        let compress_before = user_total.saturating_sub(keep_recent);
        let ghost before = minus(user_count(ms), keep_recent as nat);
        assert(compress_before == before);
        let mut history: Vec<Message> = Vec::new();
        let first = Message::new(Role::System, system_prompt.to_owned());
        let ghost sys = plain(Role::System, system_prompt@, Seq::empty());
        assert(string_views(first.images@) =~= Seq::<Seq<char>>::empty());
        proof {
            lemma_history_matches_push(Seq::empty(), Seq::empty(), first, sys);
        }
        history.push(first);
        let ghost mut done: Seq<MessageSpec> = seq![sys];
        assert(Seq::<Message>::empty().push(first) =~= history@);
        assert(Seq::<MessageSpec>::empty().push(sys) =~= done);
        let n = self.messages.len();
        let mut i: usize = 0;
        let mut user_seen: usize = 0;
        assert(ms.take(0) =~= Seq::<SessionView>::empty());
        while i < n
            invariant
                ms == session_views(self.messages@),
                compressible(ms, keep_recent as nat),
                n == ms.len(),
                i <= n,
                compress_before == before,
                before == minus(user_count(ms), keep_recent as nat),
                user_seen == user_count(ms.take(i as int)),
                user_seen <= i,
                history_matches(history@, done),
                done + compressed_tail(ms, i as nat, before) == compressed_history(
                    ms,
                    system_prompt@,
                    keep_recent as nat,
                ),
            decreases n - i,
        {
            assert(ms[i as int] == self.messages@[i as int]@);
            proof {
                lemma_user_count_step(ms, i as int);
            }
            match &self.messages[i] {
                SessionMessage::Text { role, content, images } => {
                    if *role == Role::User {
                        user_seen = user_seen + 1;
                    }
                    let mut msg = Message::new(*role, content.clone());
                    msg.images = copy_strings(images);
                    let ghost s = plain(*role, content@, string_views(images@));
                    proof {
                        lemma_history_matches_push(history@, done, msg, s);
                        assert(done.push(s) + compressed_tail(ms, (i + 1) as nat, before) =~= done
                            + compressed_tail(ms, i as nat, before));
                        done = done.push(s);
                    }
                    history.push(msg);
                    i = i + 1;
                },
                SessionMessage::Thinking { .. } => {
                    i = i + 1;
                },
                SessionMessage::ToolCall { .. } => {
                    let (calls, j) = collect_calls(&self.messages, i);
                    let ghost cs = calls_from(ms, i as nat);
                    proof {
                        lemma_calls_len(ms, i as nat);
                        lemma_user_count_run(ms, i as nat);
                    }
                    let msg = Message::tool_request(String::new(), calls);
                    let ghost s = request(cs);
                    assert(string_views(msg.images@) =~= Seq::<Seq<char>>::empty());
                    proof {
                        lemma_history_matches_push(history@, done, msg, s);
                        assert(done.push(s) + compressed_tail(ms, j as nat, before) =~= done
                            + compressed_tail(ms, i as nat, before));
                        done = done.push(s);
                    }
                    history.push(msg);
                    i = j;
                },
                SessionMessage::ToolResult { content, .. } => {
                    let compressed = if user_seen <= compress_before {
                        summarize(content)
                    } else {
                        content.clone()
                    };
                    let msg = Message::new(Role::Tool, compressed);
                    let ghost c = if user_count(ms.take(i as int)) <= before {
                        summary(content@)
                    } else {
                        content@
                    };
                    let ghost s = plain(Role::Tool, c, Seq::empty());
                    assert(string_views(msg.images@) =~= Seq::<Seq<char>>::empty());
                    proof {
                        lemma_history_matches_push(history@, done, msg, s);
                        assert(done.push(s) + compressed_tail(ms, (i + 1) as nat, before) =~= done
                            + compressed_tail(ms, i as nat, before));
                        done = done.push(s);
                    }
                    history.push(msg);
                    i = i + 1;
                },
            }
        }
        assert(done + compressed_tail(ms, i as nat, before) =~= done);
        history
    }
}

/// Position by position the same messages, except the content and images of
/// tool messages.
pub open spec fn same_but_tool_output(a: Seq<MessageSpec>, b: Seq<MessageSpec>) -> bool {
    &&& a.len() == b.len()
    &&& forall|k: int|
        0 <= k < a.len() ==> (#[trigger] a[k]).role == b[k].role && a[k].calls == b[k].calls && (
        a[k].role != Role::Tool ==> a[k] == b[k])
}

/// Position by position, each message of `b` says what the one of `a` says
/// or its summary, and carries its images or none.
pub open spec fn kept_or_summarized(a: Seq<MessageSpec>, b: Seq<MessageSpec>) -> bool {
    &&& a.len() == b.len()
    &&& forall|k: int|
        0 <= k < a.len() ==> ((#[trigger] b[k]).content == a[k].content || b[k].content == summary(
            a[k].content,
        )) && (b[k].images == a[k].images || b[k].images.len() == 0)
}

proof fn lemma_same_tail(ms: Seq<SessionView>, i: nat, before: nat)
    ensures
        same_but_tool_output(history_tail(ms, i), compressed_tail(ms, i, before)),
        kept_or_summarized(history_tail(ms, i), compressed_tail(ms, i, before)),
    decreases ms.len() - i,
{
    if i < ms.len() {
        let h = history_tail(ms, i);
        let c = compressed_tail(ms, i, before);
        match ms[i as int] {
            SessionView::Thinking { .. } => {
                lemma_same_tail(ms, i + 1, before);
            },
            SessionView::ToolCall { .. } => {
                lemma_calls_len(ms, i);
                let n = calls_from(ms, i).len();
                lemma_same_tail(ms, i + n, before);
                let h1 = history_tail(ms, i + n);
                let c1 = compressed_tail(ms, i + n, before);
                assert forall|k: int| 0 <= k < h.len() implies (#[trigger] h[k]).role == c[k].role
                    && h[k].calls == c[k].calls && (h[k].role != Role::Tool ==> h[k] == c[k]) by {
                    if k > 0 {
                        assert(h[k] == h1[k - 1]);
                        assert(c[k] == c1[k - 1]);
                    }
                }
                assert forall|k: int| 0 <= k < h.len() implies ((#[trigger] c[k]).content
                    == h[k].content || c[k].content == summary(h[k].content)) && (c[k].images
                    == h[k].images || c[k].images.len() == 0) by {
                    if k > 0 {
                        assert(h[k] == h1[k - 1]);
                        assert(c[k] == c1[k - 1]);
                    }
                }
            },
            _ => {
                lemma_same_tail(ms, i + 1, before);
                let h1 = history_tail(ms, i + 1);
                let c1 = compressed_tail(ms, i + 1, before);
                assert forall|k: int| 0 <= k < h.len() implies (#[trigger] h[k]).role == c[k].role
                    && h[k].calls == c[k].calls && (h[k].role != Role::Tool ==> h[k] == c[k]) by {
                    if k > 0 {
                        assert(h[k] == h1[k - 1]);
                        assert(c[k] == c1[k - 1]);
                    }
                }
                assert forall|k: int| 0 <= k < h.len() implies ((#[trigger] c[k]).content
                    == h[k].content || c[k].content == summary(h[k].content)) && (c[k].images
                    == h[k].images || c[k].images.len() == 0) by {
                    if k > 0 {
                        assert(h[k] == h1[k - 1]);
                        assert(c[k] == c1[k - 1]);
                    }
                }
            },
        }
    }
}

/// Position by position, the messages of `b` say what those of `a` say.
pub open spec fn same_contents(a: Seq<MessageSpec>, b: Seq<MessageSpec>) -> bool {
    &&& a.len() == b.len()
    &&& forall|k: int| 0 <= k < a.len() ==> (#[trigger] b[k]).content == a[k].content
}

proof fn lemma_tail_kept(ms: Seq<SessionView>, i: nat, before: nat)
    requires
        forall|j: int|
            i <= j < ms.len() && (#[trigger] ms[j]) is ToolResult ==> user_count(ms.take(j))
                > before,
    ensures
        same_contents(history_tail(ms, i), compressed_tail(ms, i, before)),
    decreases ms.len() - i,
{
    if i < ms.len() {
        let h = history_tail(ms, i);
        let c = compressed_tail(ms, i, before);
        match ms[i as int] {
            SessionView::Thinking { .. } => {
                lemma_tail_kept(ms, i + 1, before);
            },
            SessionView::ToolCall { .. } => {
                lemma_calls_len(ms, i);
                let n = calls_from(ms, i).len();
                lemma_tail_kept(ms, i + n, before);
                let h1 = history_tail(ms, i + n);
                let c1 = compressed_tail(ms, i + n, before);
                assert forall|k: int| 0 <= k < h.len() implies (#[trigger] c[k]).content
                    == h[k].content by {
                    if k > 0 {
                        assert(h[k] == h1[k - 1]);
                        assert(c[k] == c1[k - 1]);
                    }
                }
            },
            _ => {
                lemma_tail_kept(ms, i + 1, before);
                let h1 = history_tail(ms, i + 1);
                let c1 = compressed_tail(ms, i + 1, before);
                assert forall|k: int| 0 <= k < h.len() implies (#[trigger] c[k]).content
                    == h[k].content by {
                    if k > 0 {
                        assert(h[k] == h1[k - 1]);
                        assert(c[k] == c1[k - 1]);
                    }
                }
            },
        }
    }
}

/// The last `keep_recent` exchanges are kept whole: when every tool result
/// of the session comes after more than `user texts - keep_recent` user texts
/// (and after at least one), the compressed history says, message by
/// message, exactly what the full history says.
pub proof fn law_recent_exchanges_kept(ms: Seq<SessionView>, system: Seq<char>, keep_recent: nat)
    requires
        forall|j: int|
            0 <= j < ms.len() && (#[trigger] ms[j]) is ToolResult ==> user_count(ms.take(j)) > 0
                && user_count(ms.take(j)) + keep_recent > user_count(ms),
    ensures
        same_contents(ollama_history(ms, system), compressed_history(ms, system, keep_recent)),
{
    let before = minus(user_count(ms), keep_recent);
    lemma_tail_kept(ms, 0, before);
    let h = ollama_history(ms, system);
    let c = compressed_history(ms, system, keep_recent);
    assert forall|k: int| 0 <= k < h.len() implies (#[trigger] c[k]).content == h[k].content by {
        if k > 0 {
            assert(h[k] == history_tail(ms, 0)[k - 1]);
            assert(c[k] == compressed_tail(ms, 0, before)[k - 1]);
        }
    }
}

/// Keeping at least as many exchanges as there are user texts summarizes
/// nothing that follows a user text: when every tool result comes after a
/// user text, the compressed history says what the full history says.
pub proof fn law_keep_all_summarizes_nothing(ms: Seq<SessionView>, system: Seq<char>, keep_recent: nat)
    requires
        keep_recent >= user_count(ms),
        forall|j: int| 0 <= j < ms.len() && (#[trigger] ms[j]) is ToolResult ==> user_count(ms.take(j)) > 0,
    ensures
        same_contents(ollama_history(ms, system), compressed_history(ms, system, keep_recent)),
{
    law_recent_exchanges_kept(ms, system, keep_recent);
}

/// The orchestrator's compressed history differs from the full history only
/// in what tool messages say: the same messages in the same order, with the
/// same roles and tool calls, and every message that is not the tool's,
/// the system prompt and the user's texts among them, left intact; and each
/// message says what it said or its summary, with its images or none.
pub proof fn law_compressed_keeps_conversation(
    ms: Seq<SessionView>,
    system: Seq<char>,
    keep_recent: nat,
)
    ensures
        same_but_tool_output(
            ollama_history(ms, system),
            compressed_history(ms, system, keep_recent),
        ),
        kept_or_summarized(
            ollama_history(ms, system),
            compressed_history(ms, system, keep_recent),
        ),
{
    let before = minus(user_count(ms), keep_recent);
    lemma_same_tail(ms, 0, before);
    let h = ollama_history(ms, system);
    let c = compressed_history(ms, system, keep_recent);
    assert forall|k: int| 0 <= k < h.len() implies (#[trigger] h[k]).role == c[k].role
        && h[k].calls == c[k].calls && (h[k].role != Role::Tool ==> h[k] == c[k]) by {
        if k > 0 {
            assert(h[k] == history_tail(ms, 0)[k - 1]);
            assert(c[k] == compressed_tail(ms, 0, before)[k - 1]);
        }
    }
    assert forall|k: int| 0 <= k < h.len() implies ((#[trigger] c[k]).content == h[k].content
        || c[k].content == summary(h[k].content)) && (c[k].images == h[k].images
        || c[k].images.len() == 0) by {
        if k > 0 {
            assert(h[k] == history_tail(ms, 0)[k - 1]);
            assert(c[k] == compressed_tail(ms, 0, before)[k - 1]);
        }
    }
}


fn cuts_cleanly_exec(content: &String) -> (r: bool)
    ensures
        r == (byte_len(content@) <= usize::MAX && cuts_cleanly(content@)),
{
    let total = content.as_str().as_bytes().len();
    if total <= SUMMARY_THRESHOLD {
        return true;
    }
    let cs = chars_of(content.as_str());
    let ls = lines_of(&cs);
    let f: Vec<char> = if ls.len() > 0 {
        crate::text::slice_chars(&ls[0], 0, ls[0].len())
    } else {
        Vec::new()
    };
    assert(f@ =~= first_line(cs@));
    let head = take_bytes(&f, SUMMARY_HEAD_BYTES);
    let fb = string_from_chars(&f).as_str().as_bytes().len();
    let hb = string_from_chars(&head).as_str().as_bytes().len();
    let want = if fb < SUMMARY_HEAD_BYTES {
        fb
    } else {
        SUMMARY_HEAD_BYTES
    };
    hb == want
}

impl Session {
    /// Whether the orchestrator's history can be built with `keep_recent`
    /// exchanges kept whole: each long tool result that gets summarized is
    /// cut between two characters.
    pub fn is_compressible(&self, keep_recent: usize) -> (r: bool)
        ensures
            r == compressible(session_views(self.messages@), keep_recent as nat),
    {
        let ghost ms = session_views(self.messages@);
        let total = count_user_texts(&self.messages);
        let before: usize = if total > keep_recent {
            total - keep_recent
        } else {
            0
        };
        let n = self.messages.len();
        let mut seen: usize = 0;
        for i in 0..n
            invariant
                n == ms.len(),
                ms == session_views(self.messages@),
                total == user_count(ms),
                before == minus(user_count(ms), keep_recent as nat),
                seen == user_count(ms.take(i as int)),
                seen <= i,
                forall|q: int|
                    0 <= q < i ==> match #[trigger] ms[q] {
                        SessionView::ToolResult { content, .. } => byte_len(content) <= usize::MAX
                            && (user_count(ms.take(q)) <= minus(user_count(ms), keep_recent as nat)
                            ==> cuts_cleanly(content)),
                        _ => true,
                    },
        {
            proof {
                lemma_user_count_step(ms, i as int);
            }
            assert(ms[i as int] == self.messages@[i as int]@);
            match &self.messages[i] {
                SessionMessage::Text { role: Role::User, .. } => {
                    seen = seen + 1;
                },
                SessionMessage::ToolResult { content, .. } => {
                    let fits = content.as_str().as_bytes().len() <= usize::MAX;
                    let ok = if seen <= before {
                        cuts_cleanly_exec(content)
                    } else {
                        fits
                    };
                    if !ok {
                        return false;
                    }
                },
                _ => {},
            }
        }
        true
    }
}

} // verus!
