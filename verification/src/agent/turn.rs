//! The decisions of the agent task's turn loop: after each model turn, what
//! happens next (another round, a nudge, the end of the turn); and the
//! bookkeeping of tool calls and plan updates. The task itself performs the
//! steps: it talks to the model, saves the session and sends the events.
use vstd::prelude::*;

use super::{check_repeated_text, fingerprint_spec, repeated_spec, text_fingerprint};
use crate::json::{str_at, str_member};
use crate::text::{chars_of, decimal, push_decimal, str_eq, string_views, trim, trim_chars};
use crate::tools::file_io::{text_arg_or, text_list_arg, text_list_spec};
use crate::types::{AgentMode, PlanItem, PlanStatus, ToolCall, ToolDefinition, ToolSource};
use std::collections::VecDeque;

verus! {

/// Model rounds allowed in one turn.
pub const MAX_TOOL_ROUNDS: u32 = 25;

/// From this round on, a turn with only thinking gets a nudge.
pub const EMPTY_NUDGE_ROUND: u32 = 3;

/// From this round on, a turn with only thinking ends the turn with an error.
pub const EMPTY_GIVE_UP_ROUND: u32 = 5;

/// How many fingerprints of recent texts are remembered.
pub const FINGERPRINT_WINDOW: usize = 20;

pub const THINKING_ONLY_ERROR: &'static str =
    "Model returned only thinking content with no visible response after multiple retries";

pub const THINKING_ONLY_NUDGE: &'static str = "Your previous responses contained only thinking with no visible text. You MUST respond with either a tool call or visible text. Do not only think — take action.";

pub const REPEAT_NUDGE: &'static str =
    "You are repeating yourself. Provide a different, complete response.";

/// What one model turn came back with.
pub enum TurnPhaseResult {
    /// Visible text and no tool calls.
    Text(String),
    /// Tool calls, with the text that came with them.
    ToolCalls(String),
    Cancelled,
    Error(String),
    Quit,
}

/// What the task does next.
#[derive(Clone, Copy, Debug, PartialEq, Eq, Structural)]
pub enum TurnStep {
    /// Too many rounds: report a loop, report the turn done, end the turn.
    RoundCap,
    /// Thinking only, too often: report the error, end the turn.
    GiveUpEmpty,
    /// Thinking only again: add the thinking-only nudge as a user message,
    /// save, and ask the model again.
    NudgeEmpty,
    /// Thinking only: ask the model again.
    RetryEmpty,
    /// The text repeats after a nudge: drop the messages from the nudge on,
    /// save, report a loop and the end of the turn when `report`, end the turn.
    LoopPersists { truncate_to: usize, report: bool },
    /// The text repeats: add the repetition nudge as a user message (at
    /// position `nudge_at`), save, and ask the model again.
    NudgeRepeat { nudge_at: usize },
    /// Store the text as the assistant's answer, save, report the turn done.
    FinishText,
    /// Run the tool calls, then ask the model again.
    RunTools,
    /// Report the turn done, end the turn.
    Cancelled,
    /// Report the error, end the turn.
    Failed,
    /// Stop the task.
    Quit,
}

/// Whether the turn goes on with another model round after this step.
pub open spec fn continues(step: TurnStep) -> bool {
    match step {
        TurnStep::NudgeEmpty | TurnStep::RetryEmpty | TurnStep::NudgeRepeat { .. }
        | TurnStep::RunTools => true,
        _ => false,
    }
}

/// The state of the loop within one turn.
pub struct TurnState {
    pub round: u32,
    pub recent_fps: VecDeque<u64>,
    pub nudged: bool,
    pub nudge_msg_idx: usize,
}

/// The loop state, as values.
pub struct TurnStateView {
    pub round: nat,
    pub fps: Seq<u64>,
    pub nudged: bool,
    pub nudge_msg_idx: usize,
}

impl View for TurnState {
    type V = TurnStateView;

    open spec fn view(&self) -> TurnStateView {
        TurnStateView {
            round: self.round as nat,
            fps: self.recent_fps@,
            nudged: self.nudged,
            nudge_msg_idx: self.nudge_msg_idx,
        }
    }
}

/// The window of fingerprints after `fp` was seen: the most recent ones, at most the window size.
pub open spec fn push_window(fps: Seq<u64>, fp: u64) -> Seq<u64> {
    if fps.push(fp).len() > FINGERPRINT_WINDOW {
        fps.push(fp).drop_first()
    } else {
        fps.push(fp)
    }
}

/// The repetition check on `text`: a step when it repeats a recent text,
/// else the window with its fingerprint added (when it is not blank).
pub open spec fn loop_check(s: TurnStateView, text: Seq<char>, depth: nat, message_count: usize) -> (
    TurnStateView,
    Option<TurnStep>,
) {
    match repeated_spec(text, s.fps) {
        Some(_) => if s.nudged {
            (
                s,
                Some(
                    TurnStep::LoopPersists { truncate_to: s.nudge_msg_idx, report: depth == 0 },
                ),
            )
        } else {
            (
                TurnStateView { nudged: true, nudge_msg_idx: message_count, ..s },
                Some(TurnStep::NudgeRepeat { nudge_at: message_count }),
            )
        },
        None => {
            let t = trim(text);
            if t.len() > 0 {
                (TurnStateView { fps: push_window(s.fps, fingerprint_spec(t)), ..s }, None)
            } else {
                (s, None)
            }
        },
    }
}

/// The next step after a model turn, and the loop state after it.
pub open spec fn step_spec(
    s: TurnStateView,
    phase: TurnPhaseResult,
    depth: nat,
    message_count: usize,
) -> (TurnStateView, TurnStep) {
    match phase {
        TurnPhaseResult::Text(content) => {
            let s1 = TurnStateView { round: s.round + 1, ..s };
            if s1.round > MAX_TOOL_ROUNDS {
                (s1, TurnStep::RoundCap)
            } else if trim(content@).len() == 0 {
                if s1.round >= EMPTY_GIVE_UP_ROUND {
                    (s1, TurnStep::GiveUpEmpty)
                } else if s1.round >= EMPTY_NUDGE_ROUND {
                    (s1, TurnStep::NudgeEmpty)
                } else {
                    (s1, TurnStep::RetryEmpty)
                }
            } else {
                let (s2, found) = loop_check(s1, content@, depth, message_count);
                match found {
                    Some(step) => (s2, step),
                    None => (s2, TurnStep::FinishText),
                }
            }
        },
        TurnPhaseResult::ToolCalls(text) => {
            let s1 = TurnStateView { round: s.round + 1, ..s };
            if s1.round > MAX_TOOL_ROUNDS {
                (s1, TurnStep::RoundCap)
            } else {
                let (s2, found) = loop_check(s1, text@, depth, message_count);
                match found {
                    Some(step) => (s2, step),
                    None => (s2, TurnStep::RunTools),
                }
            }
        },
        TurnPhaseResult::Cancelled => (s, TurnStep::Cancelled),
        TurnPhaseResult::Error(_) => (s, TurnStep::Failed),
        TurnPhaseResult::Quit => (s, TurnStep::Quit),
    }
}

impl TurnState {
    /// The state at the start of a turn.
    pub fn new() -> (r: Self)
        ensures
            r@ == (TurnStateView { round: 0, fps: Seq::empty(), nudged: false, nudge_msg_idx: 0 }),
    {
        TurnState { round: 0, recent_fps: VecDeque::new(), nudged: false, nudge_msg_idx: 0 }
    }

    fn remember_text(&mut self, text: &str)
        ensures
            final(self)@ == (if trim(text@).len() > 0 {
                TurnStateView { fps: push_window(old(self)@.fps, fingerprint_spec(trim(text@))), ..old(self)@ }
            } else {
                old(self)@
            }),
    {
        let cs = chars_of(text);
        let t = trim_chars(&cs);
        if t.len() > 0 {
            let ts = crate::text::string_from_chars(&t);
            let fp = text_fingerprint(ts.as_str());
            self.recent_fps.push_back(fp);
            if self.recent_fps.len() > FINGERPRINT_WINDOW {
                let _ = self.recent_fps.pop_front();
            }
        }
    }

    pub(crate) fn check_loop(&mut self, text: &str, depth: usize, message_count: usize) -> (r: Option<TurnStep>)
        ensures
            (final(self)@, r) == loop_check(old(self)@, text@, depth as nat, message_count),
    {
        match check_repeated_text(text, &self.recent_fps) {
            Some(_) => {
                if self.nudged {
                    Some(TurnStep::LoopPersists { truncate_to: self.nudge_msg_idx, report: depth == 0 })
                } else {
                    self.nudged = true;
                    self.nudge_msg_idx = message_count;
                    Some(TurnStep::NudgeRepeat { nudge_at: message_count })
                }
            },
            None => {
                self.remember_text(text);
                None
            },
        }
    }

    /// Decides what follows a model turn; `message_count` is the number of
    /// messages in the session.
    pub fn next_step(&mut self, phase: &TurnPhaseResult, depth: usize, message_count: usize) -> (r:
        TurnStep)
        requires
            old(self).round <= MAX_TOOL_ROUNDS,
        ensures
            (final(self)@, r) == step_spec(old(self)@, *phase, depth as nat, message_count),
            continues(r) ==> final(self).round <= MAX_TOOL_ROUNDS,
    {
        match phase {
            TurnPhaseResult::Text(content) => {
                self.round = self.round + 1;
                if self.round > MAX_TOOL_ROUNDS {
                    return TurnStep::RoundCap;
                }
                let cs = chars_of(content.as_str());
                let t = trim_chars(&cs);
                if t.len() == 0 {
                    if self.round >= EMPTY_GIVE_UP_ROUND {
                        TurnStep::GiveUpEmpty
                    } else if self.round >= EMPTY_NUDGE_ROUND {
                        TurnStep::NudgeEmpty
                    } else {
                        TurnStep::RetryEmpty
                    }
                } else {
                    match self.check_loop(content.as_str(), depth, message_count) {
                        Some(step) => step,
                        None => TurnStep::FinishText,
                    }
                }
            },
            TurnPhaseResult::ToolCalls(text) => {
                self.round = self.round + 1;
                if self.round > MAX_TOOL_ROUNDS {
                    return TurnStep::RoundCap;
                }
                match self.check_loop(text.as_str(), depth, message_count) {
                    Some(step) => step,
                    None => TurnStep::RunTools,
                }
            },
            TurnPhaseResult::Cancelled => TurnStep::Cancelled,
            TurnPhaseResult::Error(_) => TurnStep::Failed,
            TurnPhaseResult::Quit => TurnStep::Quit,
        }
    }
}

/// A turn ends after at most `MAX_TOOL_ROUNDS + 1` model rounds: each text
/// or tool-call answer adds a round, and a step that asks the model again
/// leaves at most `MAX_TOOL_ROUNDS` of them.
pub proof fn law_rounds_bounded(s: TurnStateView, phase: TurnPhaseResult, depth: nat, message_count: usize)
    requires
        s.round <= MAX_TOOL_ROUNDS,
    ensures
        ({
            let (s2, step) = step_spec(s, phase, depth, message_count);
            &&& (phase is Text || phase is ToolCalls) ==> s2.round == s.round + 1
            &&& continues(step) ==> s2.round <= MAX_TOOL_ROUNDS
        }),
{
}

/// A turn's model rounds, each with its answer and the number of messages
/// then in the session, all followed by another round.
pub open spec fn turn_goes_on(s: TurnStateView, ps: Seq<(TurnPhaseResult, usize)>, depth: nat) -> bool
    decreases ps.len(),
{
    if ps.len() == 0 {
        true
    } else {
        let (s2, step) = step_spec(s, ps[0].0, depth, ps[0].1);
        continues(step) && turn_goes_on(s2, ps.drop_first(), depth)
    }
}

/// A turn asks the model at most `MAX_TOOL_ROUNDS + 1` times: from a fresh
/// turn (round 0), at most `MAX_TOOL_ROUNDS` answers are followed by another
/// round, so the round after them is the last.
pub proof fn law_turn_rounds_bounded(s: TurnStateView, ps: Seq<(TurnPhaseResult, usize)>, depth: nat)
    requires
        s.round <= MAX_TOOL_ROUNDS,
        turn_goes_on(s, ps, depth),
    ensures
        s.round + ps.len() <= MAX_TOOL_ROUNDS,
    decreases ps.len(),
{
    if ps.len() > 0 {
        let (s2, step) = step_spec(s, ps[0].0, depth, ps[0].1);
        law_rounds_bounded(s, ps[0].0, depth, ps[0].1);
        law_turn_rounds_bounded(s2, ps.drop_first(), depth);
    }
}

/// The window of recent fingerprints never holds more than its size.
pub proof fn law_window_bounded(s: TurnStateView, phase: TurnPhaseResult, depth: nat, message_count: usize)
    requires
        s.fps.len() <= FINGERPRINT_WINDOW,
    ensures
        step_spec(s, phase, depth, message_count).0.fps.len() <= FINGERPRINT_WINDOW,
{
}

/// A turn nudges a repeating model once: after the nudge, a repeat ends the
/// turn and the messages from the nudge on are dropped.
pub proof fn law_one_repeat_nudge(s: TurnStateView, phase: TurnPhaseResult, depth: nat, message_count: usize)
    requires
        s.nudged,
    ensures
        !(step_spec(s, phase, depth, message_count).1 is NudgeRepeat),
        step_spec(s, phase, depth, message_count).1 matches TurnStep::LoopPersists { truncate_to, .. }
            ==> truncate_to == s.nudge_msg_idx,
        step_spec(s, phase, depth, message_count).0.nudged,
{
}

// ---------------------------------------------------------------------------
// Tool calls of a turn
// ---------------------------------------------------------------------------

/// At the root, a subtask's answer is kept in the session cut to this many characters.
pub const SUBTASK_RESULT_LIMIT: usize = 6000;

/// What the screen shows of a tool's output: a subtask's answer is only
/// counted, since it is meant for the orchestrator, not the terminal.
pub open spec fn display_output_spec(name: Seq<char>, output: Seq<char>) -> Seq<char> {
    if name == "delegate_task"@ {
        "[subtask done: "@ + decimal(output.len()) + " chars passed to orchestrator context]"@
    } else {
        output
    }
}

pub fn display_output(name: &str, output: &str) -> (r: String)
    ensures
        r@ == display_output_spec(name@, output@),
{
    if crate::text::str_eq(name, "delegate_task") {
        let cs = chars_of(output);
        let mut r = String::new();
        r.append("[subtask done: ");
        push_decimal(&mut r, cs.len());
        r.append(" chars passed to orchestrator context]");
        r
    } else {
        output.to_owned()
    }
}

/// What the session keeps of a tool's output: at the root, a subtask's
/// answer is truncated.
pub open spec fn stored_output_spec(name: Seq<char>, output: Seq<char>, depth: nat) -> Seq<char> {
    if name == "delegate_task"@ && depth == 0 {
        super::truncate_spec(output, SUBTASK_RESULT_LIMIT as nat)
    } else {
        output
    }
}

pub fn stored_output(name: &str, output: String, depth: usize) -> (r: String)
    ensures
        r@ == stored_output_spec(name@, output@, depth as nat),
{
    if depth == 0 && crate::text::str_eq(name, "delegate_task") {
        super::truncate_subtask_result(output, SUBTASK_RESULT_LIMIT)
    } else {
        output
    }
}

/// Tools after which the system prompt is rebuilt (the memory index changed).
pub open spec fn refreshes_prompt_spec(name: Seq<char>) -> bool {
    name == "remember"@ || name == "forget"@
}

pub fn refreshes_prompt(name: &str) -> (r: bool)
    ensures
        r == refreshes_prompt_spec(name@),
{
    crate::text::str_eq(name, "remember") || crate::text::str_eq(name, "forget")
}

/// The answer to a call of a tool that this agent level does not offer.
pub open spec fn unavailable_message_spec(name: Seq<char>) -> Seq<char> {
    "'"@ + name
        + "' is not available at this agent level. Use delegate_task to have a sub-agent perform this operation."@
}

pub fn unavailable_message(name: &str) -> (r: String)
    ensures
        r@ == unavailable_message_spec(name@),
{
    let mut r = String::new();
    r.append("'");
    r.append(name);
    r.append(
        "' is not available at this agent level. Use delegate_task to have a sub-agent perform this operation.",
    );
    r
}

/// How a requested tool call is carried out.
pub enum CallRoute {
    /// `delegate_task`: the task for a child agent, with a system prompt of its own if given.
    Delegate { prompt: String, system_prompt: Option<String> },
    /// `interview_question`: a question for the user, with suggested answers.
    Interview { question: String, suggestions: Vec<String> },
    /// `update_plan`.
    UpdatePlan,
    /// Any other tool: run from its definition.
    Dispatch,
}

/// A text argument, empty when it is missing or not text.
pub open spec fn text_or_empty(args: serde_json::Value, name: Seq<char>) -> Seq<char> {
    match str_at(args, name) {
        Some(s) => s,
        None => Seq::empty(),
    }
}

/// Routes a tool call by its name, reading the arguments that the agent itself
/// handles.
pub fn call_route(call: &ToolCall) -> (r: CallRoute)
    ensures
        call.name@ == "delegate_task"@ ==> (r matches CallRoute::Delegate { prompt, system_prompt }
            && prompt@ == text_or_empty(call.arguments, "prompt"@) && match str_at(
            call.arguments,
            "system_prompt"@,
        ) {
            Some(s) => system_prompt matches Some(t) && t@ == s,
            None => system_prompt is None,
        }),
        call.name@ == "interview_question"@ ==> (r matches CallRoute::Interview {
            question,
            suggestions,
        } && question@ == text_or_empty(call.arguments, "question"@) && string_views(suggestions@)
            == text_list_spec(call.arguments, "suggestions"@)),
        call.name@ == "update_plan"@ ==> r is UpdatePlan,
        call.name@ != "delegate_task"@ && call.name@ != "interview_question"@ && call.name@
            != "update_plan"@ ==> r is Dispatch,
{
    proof {
        reveal_strlit("delegate_task");
        reveal_strlit("interview_question");
        reveal_strlit("update_plan");
        reveal_strlit("");
        assert("delegate_task"@.len() != "update_plan"@.len());
        assert("interview_question"@.len() != "update_plan"@.len());
        assert("delegate_task"@.len() != "interview_question"@.len());
    }
    let name = call.name.as_str();
    if str_eq(name, "delegate_task") {
        let prompt = text_arg_or(&call.arguments, "prompt", "");
        let system_prompt = str_member(&call.arguments, "system_prompt");
        CallRoute::Delegate { prompt, system_prompt }
    } else if str_eq(name, "interview_question") {
        let question = text_arg_or(&call.arguments, "question", "");
        let suggestions = text_list_arg(&call.arguments, "suggestions");
        CallRoute::Interview { question, suggestions }
    } else if str_eq(name, "update_plan") {
        CallRoute::UpdatePlan
    } else {
        CallRoute::Dispatch
    }
}

/// Where the first offered tool with this name is implemented, if one is offered.
pub open spec fn tool_source_spec(tools: Seq<ToolDefinition>, name: Seq<char>) -> Option<ToolSource>
    decreases tools.len(),
{
    if tools.len() == 0 {
        None
    } else if tools[0].name@ == name {
        Some(tools[0].source)
    } else {
        tool_source_spec(tools.drop_first(), name)
    }
}

pub fn find_tool_source(tools: &[ToolDefinition], name: &str) -> (r: Option<ToolSource>)
    ensures
        r == tool_source_spec(tools@, name@),
{
    let mut i: usize = 0;
    assert(tools@.skip(0) =~= tools@);
    while i < tools.len()
        invariant
            i <= tools@.len(),
            tool_source_spec(tools@, name@) == tool_source_spec(tools@.skip(i as int), name@),
        decreases tools@.len() - i,
    {
        assert(tools@.skip(i as int).drop_first() =~= tools@.skip(i + 1));
        if str_eq(tools[i].name.as_str(), name) {
            return Some(tools[i].source);
        }
        i = i + 1;
    }
    None
}

// ---------------------------------------------------------------------------
// Plan updates
// ---------------------------------------------------------------------------

/// The `items` argument of an `update_plan` call, as read from its JSON.
pub enum PlanArgs {
    /// No `items` array.
    Missing,
    /// The items, read from the array.
    Items(Vec<PlanItem>),
    /// The array does not hold plan items; the reader's message.
    Invalid(String),
}

pub const PLAN_NOT_ROOT: &'static str = "update_plan is only available to the root agent. Complete your current task and return results; the root will update the plan.";

pub const PLAN_ITEMS_MISSING: &'static str = "error: 'items' array is required";

pub const PLAN_ITEMS_EMPTY: &'static str = "error: 'items' must not be empty";

/// How many plan steps have `status`.
pub open spec fn status_count(items: Seq<(Seq<char>, PlanStatus)>, status: PlanStatus) -> nat
    decreases items.len(),
{
    if items.len() == 0 {
        0
    } else {
        status_count(items.drop_last(), status) + if items.last().1 == status {
            1nat
        } else {
            0nat
        }
    }
}

/// The answer to an accepted plan.
pub open spec fn plan_summary(items: Seq<(Seq<char>, PlanStatus)>) -> Seq<char> {
    "plan updated: "@ + decimal(items.len()) + " items ("@ + decimal(
        status_count(items, PlanStatus::Pending),
    ) + " pending, "@ + decimal(status_count(items, PlanStatus::InProgress)) + " in_progress, "@
        + decimal(status_count(items, PlanStatus::Completed)) + " completed)"@
}

/// The answer to an `update_plan` call (its text and whether it is an
/// error), and whether the plan is replaced: only the root may publish a
/// plan, and only a non-empty list of valid items.
pub open spec fn plan_update_spec(depth: nat, args: PlanArgs) -> (Seq<char>, bool, bool) {
    if depth > 0 {
        (PLAN_NOT_ROOT@, true, false)
    } else {
        match args {
            PlanArgs::Missing => (PLAN_ITEMS_MISSING@, true, false),
            PlanArgs::Invalid(e) => ("error: invalid plan items: "@ + e@, true, false),
            PlanArgs::Items(items) => if items@.len() == 0 {
                (PLAN_ITEMS_EMPTY@, true, false)
            } else {
                (plan_summary(crate::types::plan_view(items@)), false, true)
            },
        }
    }
}

fn count_status(items: &Vec<PlanItem>, status: PlanStatus) -> (r: usize)
    ensures
        r == status_count(crate::types::plan_view(items@), status),
{
    let ghost pv = crate::types::plan_view(items@);
    let n = items.len();
    let mut c: usize = 0;
    assert(pv.take(0) =~= Seq::<(Seq<char>, PlanStatus)>::empty());
    for i in 0..n
        invariant
            n == items@.len(),
            pv == crate::types::plan_view(items@),
            c == status_count(pv.take(i as int), status),
            c <= i,
    {
        assert(pv.take(i + 1).drop_last() =~= pv.take(i as int));
        if items[i].status == status {
            c = c + 1;
        }
    }
    assert(pv.take(n as int) =~= pv);
    c
}

/// Answers an `update_plan` call; `Some` holds the plan to publish.
pub fn plan_update(depth: usize, args: PlanArgs) -> (r: (String, bool, Option<Vec<PlanItem>>))
    ensures
        ({
            let (text, is_error, replaces) = plan_update_spec(depth as nat, args);
            &&& r.0@ == text
            &&& r.1 == is_error
            &&& r.2 is Some == replaces
            &&& replaces ==> (args matches PlanArgs::Items(items) && r.2 == Some(items))
        }),
{
    if depth > 0 {
        return (PLAN_NOT_ROOT.to_owned(), true, None);
    }
    match args {
        PlanArgs::Missing => (PLAN_ITEMS_MISSING.to_owned(), true, None),
        PlanArgs::Invalid(e) => {
            let mut m = String::new();
            m.append("error: invalid plan items: ");
            m.append(e.as_str());
            (m, true, None)
        },
        PlanArgs::Items(items) => {
            if items.len() == 0 {
                return (PLAN_ITEMS_EMPTY.to_owned(), true, None);
            }
            let ghost pv = crate::types::plan_view(items@);
            let mut m = String::new();
            m.append("plan updated: ");
            push_decimal(&mut m, items.len());
            m.append(" items (");
            push_decimal(&mut m, count_status(&items, PlanStatus::Pending));
            m.append(" pending, ");
            push_decimal(&mut m, count_status(&items, PlanStatus::InProgress));
            m.append(" in_progress, ");
            push_decimal(&mut m, count_status(&items, PlanStatus::Completed));
            m.append(" completed)");
            assert(pv.len() == items@.len());
            (m, false, Some(items))
        },
    }
}

// ---------------------------------------------------------------------------
// The task between turns
// ---------------------------------------------------------------------------

/// The root agent's history keeps this many recent exchanges uncompressed.
pub const ROOT_KEEP_RECENT: usize = 2;

/// What the system prompt gets for the agent mode.
pub open spec fn mode_appendix(mode: AgentMode) -> Seq<char> {
    match mode {
        AgentMode::Plan => crate::prompts::PLAN_PROMPT_APPENDIX@,
        AgentMode::Thorough => crate::prompts::THOROUGH_PROMPT_APPENDIX@,
        AgentMode::Oneshot => Seq::empty(),
    }
}

/// A system prompt with the instructions of the agent mode appended.
pub fn with_mode_appendix(prompt: String, mode: AgentMode) -> (r: String)
    ensures
        r@ == prompt@ + mode_appendix(mode),
{
    let mut p = prompt;
    match mode {
        AgentMode::Plan => p.append(crate::prompts::PLAN_PROMPT_APPENDIX),
        AgentMode::Thorough => p.append(crate::prompts::THOROUGH_PROMPT_APPENDIX),
        AgentMode::Oneshot => {
            assert(p@ + Seq::<char>::empty() =~= p@);
        },
    }
    p
}

/// What the task does with a user action between turns.
#[derive(Clone, Copy, Debug, PartialEq, Eq, Structural)]
pub enum ActionStep {
    /// Stop the task.
    Stop,
    /// Nothing to cancel: report the turn done.
    TurnDone,
    /// Clear the messages and the plan, save, report the turn done.
    ClearHistory,
    /// Switch the model, set the flat flag, rebuild tools and prompt, report the turn done.
    ChangeModel { flat: bool },
    /// Set the flat flag, rebuild tools and prompt, report the turn done.
    SetFlat { flat: bool },
    /// Set the compression level, rebuild the prompt, report the turn done.
    SetCaveman,
    /// Take on the mode (rebuilding tools and prompt when it changed), add
    /// the user's message, save, and run a turn.
    StartTurn { mode_changed: bool },
}

pub open spec fn action_step_spec(action: crate::agent::UserAction, mode: AgentMode) -> ActionStep {
    match action {
        crate::agent::UserAction::Quit => ActionStep::Stop,
        crate::agent::UserAction::Cancel => ActionStep::TurnDone,
        crate::agent::UserAction::ClearHistory => ActionStep::ClearHistory,
        crate::agent::UserAction::ChangeModel(m) => ActionStep::ChangeModel {
            flat: crate::text::contains_seq(crate::text::lowercase(m@), "31b"@)
                || crate::text::contains_seq(crate::text::lowercase(m@), "dense"@),
        },
        crate::agent::UserAction::ToggleFlat(f) => ActionStep::SetFlat { flat: f },
        crate::agent::UserAction::SetCaveman(_) => ActionStep::SetCaveman,
        crate::agent::UserAction::SendMessage { mode: m, .. } => ActionStep::StartTurn {
            mode_changed: m != mode,
        },
    }
}

pub fn action_step(action: &crate::agent::UserAction, mode: AgentMode) -> (r: ActionStep)
    ensures
        r == action_step_spec(*action, mode),
{
    match action {
        crate::agent::UserAction::Quit => ActionStep::Stop,
        crate::agent::UserAction::Cancel => ActionStep::TurnDone,
        crate::agent::UserAction::ClearHistory => ActionStep::ClearHistory,
        crate::agent::UserAction::ChangeModel(m) => ActionStep::ChangeModel {
            flat: crate::tools::selection::is_flat_model(m.as_str()),
        },
        crate::agent::UserAction::ToggleFlat(f) => ActionStep::SetFlat { flat: *f },
        crate::agent::UserAction::SetCaveman(_) => ActionStep::SetCaveman,
        crate::agent::UserAction::SendMessage { mode: m, .. } => ActionStep::StartTurn {
            mode_changed: *m != mode,
        },
    }
}

} // verus!
