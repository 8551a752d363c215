//! Delegated subtasks: whether one may start, how the child is set up, and
//! what the child's turn loop does after each model turn.
use vstd::prelude::*;

use super::turn::{loop_check, TurnPhaseResult, TurnState, TurnStateView, TurnStep, MAX_TOOL_ROUNDS};
use crate::prompts::PLAN_SUBTASK_APPENDIX;
use crate::text::{chars_of, push_str_chars, string_from_chars, trim, trim_chars};
use crate::types::AgentMode;

verus! {

/// Subtasks may nest until this depth.
pub const MAX_DEPTH: usize = 3;

/// The refusal of a delegation from `depth` when a child would reach the
/// maximum depth; none when the child may run.
pub fn delegation_refused(depth: usize) -> (r: Option<String>)
    ensures
        depth + 1 >= MAX_DEPTH ==> (r matches Some(m)
            && m@ == "error: max delegation depth (3) reached — execute the task directly"@),
        depth + 1 < MAX_DEPTH ==> r is None,
{
    if depth >= MAX_DEPTH - 1 {
        Some("error: max delegation depth (3) reached — execute the task directly".to_owned())
    } else {
        None
    }
}

/// The label of a subtask: the first 40 characters of its prompt.
pub fn subtask_label(prompt: &str) -> (r: String)
    ensures
        r@ == (if prompt@.len() > 40 {
            prompt@.take(40)
        } else {
            prompt@
        }),
{
    let cs = chars_of(prompt);
    let end = if cs.len() > 40 {
        40
    } else {
        cs.len()
    };
    let kept = crate::text::slice_chars(&cs, 0, end);
    assert(kept@ =~= (if prompt@.len() > 40 {
        prompt@.take(40)
    } else {
        prompt@
    }));
    string_from_chars(&kept)
}

/// The mode of a child: plan mode carries over; otherwise one-shot.
pub open spec fn child_mode_spec(mode: AgentMode) -> AgentMode {
    if mode == AgentMode::Plan {
        AgentMode::Plan
    } else {
        AgentMode::Oneshot
    }
}

pub fn child_mode(mode: AgentMode) -> (r: AgentMode)
    ensures
        r == child_mode_spec(mode),
{
    if mode == AgentMode::Plan {
        AgentMode::Plan
    } else {
        AgentMode::Oneshot
    }
}

/// The system prompt of a child: its depth's prompt, then the
/// orchestrator's instructions when given, then the plan-mode note in plan
/// mode.
pub open spec fn child_prompt_spec(base: Seq<char>, extra: Option<Seq<char>>, mode: AgentMode) -> Seq<char> {
    let with_extra = match extra {
        Some(e) => base + "\n\n## Instructions from orchestrator\n"@ + e,
        None => base,
    };
    if mode == AgentMode::Plan {
        with_extra + PLAN_SUBTASK_APPENDIX@
    } else {
        with_extra
    }
}

pub fn child_system_prompt(base: String, extra: Option<String>, mode: AgentMode) -> (r: String)
    ensures
        r@ == child_prompt_spec(
            base@,
            match extra {
                Some(e) => Some(e@),
                None => None,
            },
            mode,
        ),
{
    proof {
        reveal_strlit("\n\n## Instructions from orchestrator\n");
    }
    let mut s = base;
    match extra {
        Some(e) => {
            push_str_chars(&mut s, "\n\n## Instructions from orchestrator\n");
            push_str_chars(&mut s, e.as_str());
        },
        None => {},
    }
    if mode == AgentMode::Plan {
        push_str_chars(&mut s, PLAN_SUBTASK_APPENDIX);
    }
    s
}

/// What a subtask does after a model turn.
#[derive(Clone, Copy, Debug, PartialEq, Eq, Structural)]
pub enum SubtaskStep {
    /// Too many rounds: the subtask ends.
    RoundCap,
    /// Only thinking, too often: the subtask ends.
    OnlyThinking,
    /// Only thinking: ask the model again.
    Retry,
    /// The text repeats: add the repetition nudge as a user message (at
    /// position `nudge_at`) and ask again.
    Nudge { nudge_at: usize },
    /// The text repeats after a nudge: drop the messages from the nudge on;
    /// the subtask ends.
    LoopDetected { truncate_to: usize },
    /// Store the text as the assistant's answer; it is the subtask's result.
    Finish,
    /// Run the tool calls, then ask again.
    RunTools,
    Cancelled,
    Failed,
    Quit,
}

/// Whether the subtask asks the model again after this step.
pub open spec fn subtask_continues(step: SubtaskStep) -> bool {
    step is Retry || step is Nudge || step is RunTools
}

/// The round from which a subtask that only thinks gives up.
pub const SUBTASK_EMPTY_LIMIT: u32 = 5;

/// The repetition check of a subtask: a nudge, or the end when it repeats
/// after a nudge.
pub open spec fn subtask_loop_step(found: Option<TurnStep>) -> Option<SubtaskStep> {
    match found {
        Some(TurnStep::NudgeRepeat { nudge_at }) => Some(SubtaskStep::Nudge { nudge_at }),
        Some(TurnStep::LoopPersists { truncate_to, .. }) => Some(
            SubtaskStep::LoopDetected { truncate_to },
        ),
        _ => None,
    }
}

/// The next step of a subtask after a model turn, and the loop state after it.
pub open spec fn subtask_step_spec(s: TurnStateView, phase: TurnPhaseResult, message_count: usize) -> (
    TurnStateView,
    SubtaskStep,
) {
    match phase {
        TurnPhaseResult::Text(content) => {
            let s1 = TurnStateView { round: s.round + 1, ..s };
            if s1.round > MAX_TOOL_ROUNDS {
                (s1, SubtaskStep::RoundCap)
            } else if trim(content@).len() == 0 {
                if s1.round >= SUBTASK_EMPTY_LIMIT {
                    (s1, SubtaskStep::OnlyThinking)
                } else {
                    (s1, SubtaskStep::Retry)
                }
            } else {
                let (s2, found) = loop_check(s1, content@, 1, message_count);
                match subtask_loop_step(found) {
                    Some(step) => (s2, step),
                    None => (s2, SubtaskStep::Finish),
                }
            }
        },
        TurnPhaseResult::ToolCalls(text) => {
            let s1 = TurnStateView { round: s.round + 1, ..s };
            if s1.round > MAX_TOOL_ROUNDS {
                (s1, SubtaskStep::RoundCap)
            } else {
                let (s2, found) = loop_check(s1, text@, 1, message_count);
                match subtask_loop_step(found) {
                    Some(step) => (s2, step),
                    None => (s2, SubtaskStep::RunTools),
                }
            }
        },
        TurnPhaseResult::Cancelled => (s, SubtaskStep::Cancelled),
        TurnPhaseResult::Error(_) => (s, SubtaskStep::Failed),
        TurnPhaseResult::Quit => (s, SubtaskStep::Quit),
    }
}

impl TurnState {
    /// Decides what a subtask does after a model turn; `message_count` is
    /// the number of messages in its session.
    pub fn next_subtask_step(&mut self, phase: &TurnPhaseResult, message_count: usize) -> (r:
        SubtaskStep)
        requires
            old(self).round <= MAX_TOOL_ROUNDS,
        ensures
            (final(self)@, r) == subtask_step_spec(old(self)@, *phase, message_count),
            final(self).round <= MAX_TOOL_ROUNDS + 1,
            subtask_continues(r) ==> final(self).round <= MAX_TOOL_ROUNDS,
    {
        match phase {
            TurnPhaseResult::Text(content) => {
                self.round = self.round + 1;
                if self.round > MAX_TOOL_ROUNDS {
                    return SubtaskStep::RoundCap;
                }
                let cs = chars_of(content.as_str());
                let t = trim_chars(&cs);
                if t.len() == 0 {
                    if self.round >= SUBTASK_EMPTY_LIMIT {
                        SubtaskStep::OnlyThinking
                    } else {
                        SubtaskStep::Retry
                    }
                } else {
                    match self.check_loop(content.as_str(), 1, message_count) {
                        Some(TurnStep::NudgeRepeat { nudge_at }) => SubtaskStep::Nudge { nudge_at },
                        Some(TurnStep::LoopPersists { truncate_to, .. }) => SubtaskStep::LoopDetected {
                            truncate_to,
                        },
                        _ => SubtaskStep::Finish,
                    }
                }
            },
            TurnPhaseResult::ToolCalls(text) => {
                self.round = self.round + 1;
                if self.round > MAX_TOOL_ROUNDS {
                    return SubtaskStep::RoundCap;
                }
                match self.check_loop(text.as_str(), 1, message_count) {
                    Some(TurnStep::NudgeRepeat { nudge_at }) => SubtaskStep::Nudge { nudge_at },
                    Some(TurnStep::LoopPersists { truncate_to, .. }) => SubtaskStep::LoopDetected {
                        truncate_to,
                    },
                    _ => SubtaskStep::RunTools,
                }
            },
            TurnPhaseResult::Cancelled => SubtaskStep::Cancelled,
            TurnPhaseResult::Error(_) => SubtaskStep::Failed,
            TurnPhaseResult::Quit => SubtaskStep::Quit,
        }
    }
}

/// The result a subtask ends with at a final step (other than `Finish`,
/// whose result is the model's text); `error` is the error of a failed turn.
pub open spec fn subtask_end_spec(step: SubtaskStep, error: Seq<char>) -> Option<Seq<char>> {
    match step {
        SubtaskStep::RoundCap => Some("subtask: hard tool-round cap reached"@),
        SubtaskStep::OnlyThinking => Some("subtask: model returned only thinking content"@),
        SubtaskStep::LoopDetected { .. } => Some("subtask: loop detected"@),
        SubtaskStep::Cancelled => Some("subtask cancelled"@),
        SubtaskStep::Failed => Some("subtask error: "@ + error),
        SubtaskStep::Quit => Some("subtask quit"@),
        _ => None,
    }
}

pub fn subtask_end(step: SubtaskStep, error: &str) -> (r: Option<String>)
    ensures
        match subtask_end_spec(step, error@) {
            Some(t) => r matches Some(s) && s@ == t,
            None => r is None,
        },
{
    match step {
        SubtaskStep::RoundCap => Some("subtask: hard tool-round cap reached".to_owned()),
        SubtaskStep::OnlyThinking => Some("subtask: model returned only thinking content".to_owned()),
        SubtaskStep::LoopDetected { .. } => Some("subtask: loop detected".to_owned()),
        SubtaskStep::Cancelled => Some("subtask cancelled".to_owned()),
        SubtaskStep::Failed => {
            let mut s = "subtask error: ".to_owned();
            push_str_chars(&mut s, error);
            Some(s)
        },
        SubtaskStep::Quit => Some("subtask quit".to_owned()),
        _ => None,
    }
}

} // verus!
