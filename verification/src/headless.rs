//! The decisions of a headless test run: what a script message means, and
//! how the events of one step are logged and counted until the step ends.
use vstd::prelude::*;

use crate::script::{StepStatus, TokenSummary};
use crate::text::{
    byte_len, chars_of, decimal, push_chars, push_decimal, push_decimal_u64, slice_chars, trim,
    trim_chars,
};
use crate::tools::file_io::{cut_at, find_cut_at};

verus! {

/// What a message line of a script asks for.
#[derive(Clone, Copy, Debug, PartialEq, Eq, Structural)]
pub enum SendKind {
    /// `/mode`: switch to the next agent mode.
    CycleMode,
    /// `/flat`: toggle flat mode.
    ToggleFlat,
    /// `/clear` or `/new`: clear the conversation.
    Clear,
    /// A message for the agent.
    Message,
}

pub open spec fn send_kind_spec(text: Seq<char>) -> SendKind {
    let t = trim(text);
    if t == "/mode"@ {
        SendKind::CycleMode
    } else if t == "/flat"@ {
        SendKind::ToggleFlat
    } else if t == "/clear"@ || t == "/new"@ {
        SendKind::Clear
    } else {
        SendKind::Message
    }
}

pub fn send_kind(text: &str) -> (r: SendKind)
    ensures
        r == send_kind_spec(text@),
{
    let cs = chars_of(text);
    let t = trim_chars(&cs);
    let ts = crate::text::string_from_chars(&t);
    if crate::text::str_eq(ts.as_str(), "/mode") {
        SendKind::CycleMode
    } else if crate::text::str_eq(ts.as_str(), "/flat") {
        SendKind::ToggleFlat
    } else if crate::text::str_eq(ts.as_str(), "/clear") || crate::text::str_eq(ts.as_str(), "/new") {
        SendKind::Clear
    } else {
        SendKind::Message
    }
}

/// An event of the agent, as a step of a run sees it.
pub enum StepEvent {
    ThinkingStarted,
    ThinkingDelta(String),
    ThinkingDone,
    TextDelta(String),
    ToolRequested { name: String, arguments: String },
    ToolCompleted { call_id: String },
    TurnStats { eval_count: u64, eval_duration_ns: u64, prompt_eval_count: u64 },
    TurnDone,
    Error(String),
    LoopDetected,
    SubtaskEnter { depth: usize, label: String },
    SubtaskExit { depth: usize },
    InterviewQuestion { question: String },
    PlanUpdated { items: usize },
    /// The agent's channel closed.
    Closed,
}

/// The event log and token counts of a step.
pub struct StepTracker {
    pub log: Vec<String>,
    pub current_depth: usize,
    pub orch_prompt_max: u64,
    pub subtask_prompt_max: u64,
    pub total_eval: u64,
}

/// The log line of an event (none for a closed channel).
pub open spec fn log_line(e: StepEvent, depth: usize) -> Option<Seq<char>> {
    match e {
        StepEvent::ThinkingStarted => Some("ThinkingStarted"@),
        StepEvent::ThinkingDelta(d) => Some("ThinkingDelta: "@ + d@),
        StepEvent::ThinkingDone => Some("ThinkingDone"@),
        StepEvent::TextDelta(d) => Some("TextDelta: "@ + d@),
        StepEvent::ToolRequested { name, arguments } => Some(
            "ToolRequested: "@ + name@ + "("@ + arguments@ + ")"@,
        ),
        StepEvent::ToolCompleted { call_id } => Some("ToolCompleted: "@ + call_id@),
        StepEvent::TurnStats { eval_count, eval_duration_ns, prompt_eval_count } => Some(
            "TurnStats: depth="@ + decimal(depth as nat) + " eval="@ + decimal(eval_count as nat)
                + " prompt="@ + decimal(prompt_eval_count as nat) + " ns="@ + decimal(
                eval_duration_ns as nat,
            ),
        ),
        StepEvent::TurnDone => Some("TurnDone"@),
        StepEvent::Error(e) => Some("Error: "@ + e@),
        StepEvent::LoopDetected => Some("Error: Loop detected"@),
        StepEvent::SubtaskEnter { depth: d, label } => Some(
            "SubtaskEnter: depth="@ + decimal(d as nat) + " "@ + label@,
        ),
        StepEvent::SubtaskExit { depth: d } => Some("SubtaskExit: depth="@ + decimal(d as nat)),
        StepEvent::InterviewQuestion { question } => Some("InterviewQuestion: "@ + question@),
        StepEvent::PlanUpdated { items } => Some(
            "PlanUpdated: "@ + decimal(items as nat) + " items"@,
        ),
        StepEvent::Closed => None,
    }
}

/// How an event ends the step, if it does.
pub open spec fn step_end(e: StepEvent) -> Option<(bool, Seq<char>)> {
    match e {
        StepEvent::TurnDone => Some((true, Seq::empty())),
        StepEvent::Error(m) => Some((false, m@)),
        StepEvent::LoopDetected => Some((false, "Loop detected"@)),
        StepEvent::Closed => Some((false, "channel closed"@)),
        _ => None,
    }
}

/// The status a step ends with: completed, or failed with a message.
pub open spec fn status_is(s: StepStatus, end: (bool, Seq<char>)) -> bool {
    if end.0 {
        s is Completed
    } else {
        s matches StepStatus::Failed(m) && m@ == end.1
    }
}

impl StepTracker {
    pub fn new() -> (r: Self)
        ensures
            r.log@.len() == 0,
            r.current_depth == 0,
            r.orch_prompt_max == 0 && r.subtask_prompt_max == 0 && r.total_eval == 0,
    {
        StepTracker {
            log: Vec::new(),
            current_depth: 0,
            orch_prompt_max: 0,
            subtask_prompt_max: 0,
            total_eval: 0,
        }
    }

    /// Takes in one event; the status of the step when the event ends it.
    /// Generated tokens are summed; the largest prompt is kept apart for the
    /// orchestrator (depth 0) and for subtasks, by the depth of the last
    /// subtask entered or left.
    pub fn on_event(&mut self, e: StepEvent) -> (r: Option<StepStatus>)
        requires
            e matches StepEvent::TurnStats { eval_count, .. } ==> old(self).total_eval + eval_count
                <= u64::MAX,
        ensures
            final(self).log@.len() == old(self).log@.len() + if log_line(e, old(self).current_depth) is Some {
                1int
            } else {
                0int
            },
            forall|i: int| 0 <= i < old(self).log@.len() ==> final(self).log@[i] == old(self).log@[i],
            log_line(e, old(self).current_depth) matches Some(l) ==> final(self).log@.last()@ == l,
            match step_end(e) {
                Some(end) => r matches Some(s) && status_is(s, end),
                None => r is None,
            },
            final(self).current_depth == match e {
                StepEvent::SubtaskEnter { depth, .. } => depth,
                StepEvent::SubtaskExit { depth } => if depth > 0 {
                    (depth - 1) as usize
                } else {
                    0
                },
                _ => old(self).current_depth,
            },
            final(self).total_eval == match e {
                StepEvent::TurnStats { eval_count, .. } => (old(self).total_eval + eval_count) as u64,
                _ => old(self).total_eval,
            },
            final(self).orch_prompt_max == match e {
                StepEvent::TurnStats { prompt_eval_count, .. } => if old(self).current_depth == 0
                    && prompt_eval_count > old(self).orch_prompt_max {
                    prompt_eval_count
                } else {
                    old(self).orch_prompt_max
                },
                _ => old(self).orch_prompt_max,
            },
            final(self).subtask_prompt_max == match e {
                StepEvent::TurnStats { prompt_eval_count, .. } => if old(self).current_depth != 0
                    && prompt_eval_count > old(self).subtask_prompt_max {
                    prompt_eval_count
                } else {
                    old(self).subtask_prompt_max
                },
                _ => old(self).subtask_prompt_max,
            },
    {
        let ghost e0 = e;
        let depth0 = self.current_depth;
        let mut line = String::new();
        let r = match e {
            StepEvent::ThinkingStarted => {
                line.append("ThinkingStarted");
                None
            },
            StepEvent::ThinkingDelta(d) => {
                line.append("ThinkingDelta: ");
                line.append(d.as_str());
                None
            },
            StepEvent::ThinkingDone => {
                line.append("ThinkingDone");
                None
            },
            StepEvent::TextDelta(d) => {
                line.append("TextDelta: ");
                line.append(d.as_str());
                None
            },
            StepEvent::ToolRequested { name, arguments } => {
                line.append("ToolRequested: ");
                line.append(name.as_str());
                line.append("(");
                line.append(arguments.as_str());
                line.append(")");
                None
            },
            StepEvent::ToolCompleted { call_id } => {
                line.append("ToolCompleted: ");
                line.append(call_id.as_str());
                None
            },
            StepEvent::TurnStats { eval_count, eval_duration_ns, prompt_eval_count } => {
                line.append("TurnStats: depth=");
                push_decimal(&mut line, depth0);
                line.append(" eval=");
                push_u64(&mut line, eval_count);
                line.append(" prompt=");
                push_u64(&mut line, prompt_eval_count);
                line.append(" ns=");
                push_u64(&mut line, eval_duration_ns);
                self.total_eval = self.total_eval + eval_count;
                if depth0 == 0 {
                    if prompt_eval_count > self.orch_prompt_max {
                        self.orch_prompt_max = prompt_eval_count;
                    }
                } else {
                    if prompt_eval_count > self.subtask_prompt_max {
                        self.subtask_prompt_max = prompt_eval_count;
                    }
                }
                None
            },
            StepEvent::TurnDone => {
                line.append("TurnDone");
                Some(StepStatus::Completed)
            },
            StepEvent::Error(m) => {
                line.append("Error: ");
                line.append(m.as_str());
                Some(StepStatus::Failed(m))
            },
            StepEvent::LoopDetected => {
                line.append("Error: Loop detected");
                Some(StepStatus::Failed("Loop detected".to_owned()))
            },
            StepEvent::SubtaskEnter { depth, label } => {
                line.append("SubtaskEnter: depth=");
                push_decimal(&mut line, depth);
                line.append(" ");
                line.append(label.as_str());
                self.current_depth = depth;
                None
            },
            StepEvent::SubtaskExit { depth } => {
                line.append("SubtaskExit: depth=");
                push_decimal(&mut line, depth);
                self.current_depth = depth.saturating_sub(1);
                None
            },
            StepEvent::InterviewQuestion { question } => {
                line.append("InterviewQuestion: ");
                line.append(question.as_str());
                None
            },
            StepEvent::PlanUpdated { items } => {
                line.append("PlanUpdated: ");
                push_decimal(&mut line, items);
                line.append(" items");
                None
            },
            StepEvent::Closed => {
                return Some(StepStatus::Failed("channel closed".to_owned()));
            },
        };
        assert(log_line(e0, depth0) == Some(line@));
        self.log.push(line);
        r
    }
}

fn push_u64(s: &mut String, n: u64)
    ensures
        final(s)@ == old(s)@ + decimal(n as nat),
    decreases n,
{
    if n >= 10 {
        push_u64(s, n / 10);
    }
    let mut digit = String::new();
    push_decimal(&mut digit, (n % 10) as usize);
    s.append(digit.as_str());
    assert(s@ =~= old(s)@ + decimal(n as nat));
}

/// The answer given to an interview question in a headless run: the first
/// suggestion, else `yes`.
pub fn auto_answer(suggestions: &Vec<String>) -> (r: String)
    ensures
        suggestions@.len() > 0 ==> r@ == suggestions@[0]@,
        suggestions@.len() == 0 ==> r@ == "yes"@,
{
    if suggestions.len() > 0 {
        suggestions[0].clone()
    } else {
        "yes".to_owned()
    }
}

impl StepTracker {
    /// The token counts of the step.
    pub fn token_summary(&self) -> (r: TokenSummary)
        ensures
            r.orchestrator_prompt_max == self.orch_prompt_max,
            r.subtask_prompt_max == self.subtask_prompt_max,
            r.total_eval == self.total_eval,
    {
        TokenSummary {
            orchestrator_prompt_max: self.orch_prompt_max,
            subtask_prompt_max: self.subtask_prompt_max,
            total_eval: self.total_eval,
        }
    }
}

/// At most this many bytes of a tool call's arguments go into a transcript.
pub const DESCRIBED_ARGS_BYTES: usize = 200;

/// The arguments as a transcript shows them: their first 200 bytes.
pub open spec fn shown_args(a: Seq<char>) -> Seq<char> {
    if byte_len(a) <= 200 {
        a
    } else {
        a.take(cut_at(a, 200)->Some_0)
    }
}

/// The transcript line of an event at `ms` milliseconds into a run (none
/// for a closed channel): streamed text only by its length in bytes, a tool
/// call's arguments cut to 200 bytes.
pub open spec fn describe_spec(e: StepEvent, ms: u64) -> Option<Seq<char>> {
    let t = decimal(ms as nat) + " "@;
    match e {
        StepEvent::ThinkingStarted => Some(t + "ThinkingStarted"@),
        StepEvent::ThinkingDelta(d) => Some(
            t + "ThinkingDelta("@ + decimal(byte_len(d@)) + " chars)"@,
        ),
        StepEvent::ThinkingDone => Some(t + "ThinkingDone"@),
        StepEvent::TextDelta(d) => Some(t + "TextDelta("@ + decimal(byte_len(d@)) + " chars)"@),
        StepEvent::ToolRequested { name, arguments } => Some(
            t + "ToolRequested "@ + name@ + " "@ + shown_args(arguments@),
        ),
        StepEvent::ToolCompleted { call_id } => Some(t + "ToolCompleted "@ + call_id@),
        StepEvent::TurnStats { eval_count, prompt_eval_count, .. } => Some(
            t + "TurnStats eval="@ + decimal(eval_count as nat) + " prompt="@ + decimal(
                prompt_eval_count as nat,
            ),
        ),
        StepEvent::TurnDone => Some(t + "TurnDone"@),
        StepEvent::Error(m) => Some(t + "Error "@ + m@),
        StepEvent::LoopDetected => Some(t + "LoopDetected"@),
        StepEvent::SubtaskEnter { depth, label } => Some(
            t + "SubtaskEnter depth="@ + decimal(depth as nat) + " "@ + label@,
        ),
        StepEvent::SubtaskExit { depth } => Some(t + "SubtaskExit depth="@ + decimal(depth as nat)),
        StepEvent::InterviewQuestion { question } => Some(t + "InterviewQuestion "@ + question@),
        StepEvent::PlanUpdated { items } => Some(
            t + "PlanUpdated "@ + decimal(items as nat) + " items"@,
        ),
        StepEvent::Closed => None,
    }
}

fn push_len(s: &mut String, d: &String)
    ensures
        final(s)@ == old(s)@ + decimal(byte_len(d@)),
{
    let n = d.as_str().as_bytes().len();
    push_decimal(s, n);
}

/// The transcript line of an event at `elapsed_ms` into a run. A tool
/// call's arguments are cut at 200 bytes, which must fall between two
/// characters (string slicing refuses a cut inside one).
pub fn describe_event(e: &StepEvent, elapsed_ms: u64) -> (r: Option<String>)
    requires
        e matches StepEvent::ToolRequested { arguments, .. } ==> byte_len(arguments@) <= 200
            || cut_at(arguments@, 200) is Some,
    ensures
        match describe_spec(*e, elapsed_ms) {
            Some(l) => r matches Some(x) && x@ == l,
            None => r is None,
        },
{
    let mut s = String::new();
    push_decimal_u64(&mut s, elapsed_ms);
    s.append(" ");
    match e {
        StepEvent::ThinkingStarted => s.append("ThinkingStarted"),
        StepEvent::ThinkingDelta(d) => {
            s.append("ThinkingDelta(");
            push_len(&mut s, d);
            s.append(" chars)");
        },
        StepEvent::ThinkingDone => s.append("ThinkingDone"),
        StepEvent::TextDelta(d) => {
            s.append("TextDelta(");
            push_len(&mut s, d);
            s.append(" chars)");
        },
        StepEvent::ToolRequested { name, arguments } => {
            s.append("ToolRequested ");
            s.append(name.as_str());
            s.append(" ");
            let n = arguments.as_str().as_bytes().len();
            if n <= DESCRIBED_ARGS_BYTES {
                s.append(arguments.as_str());
            } else {
                let cs = chars_of(arguments.as_str());
                let k = find_cut_at(&cs, DESCRIBED_ARGS_BYTES);
                let kept = slice_chars(&cs, 0, k);
                assert(kept@ =~= arguments@.take(k as int));
                push_chars(&mut s, &kept);
            }
        },
        StepEvent::ToolCompleted { call_id } => {
            s.append("ToolCompleted ");
            s.append(call_id.as_str());
        },
        StepEvent::TurnStats { eval_count, prompt_eval_count, .. } => {
            s.append("TurnStats eval=");
            push_decimal_u64(&mut s, *eval_count);
            s.append(" prompt=");
            push_decimal_u64(&mut s, *prompt_eval_count);
        },
        StepEvent::TurnDone => s.append("TurnDone"),
        StepEvent::Error(m) => {
            s.append("Error ");
            s.append(m.as_str());
        },
        StepEvent::LoopDetected => s.append("LoopDetected"),
        StepEvent::SubtaskEnter { depth, label } => {
            s.append("SubtaskEnter depth=");
            push_decimal(&mut s, *depth);
            s.append(" ");
            s.append(label.as_str());
        },
        StepEvent::SubtaskExit { depth } => {
            s.append("SubtaskExit depth=");
            push_decimal(&mut s, *depth);
        },
        StepEvent::InterviewQuestion { question } => {
            s.append("InterviewQuestion ");
            s.append(question.as_str());
        },
        StepEvent::PlanUpdated { items } => {
            s.append("PlanUpdated ");
            push_decimal(&mut s, *items);
            s.append(" items");
        },
        StepEvent::Closed => {
            return None;
        },
    }
    Some(s)
}

} // verus!
