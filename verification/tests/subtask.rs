use agent::agent::subtask::{
    child_mode, child_system_prompt, delegation_refused, subtask_end, subtask_label, SubtaskStep,
};
use agent::agent::turn::{TurnPhaseResult, TurnState, MAX_TOOL_ROUNDS};
use agent::prompts::PLAN_SUBTASK_APPENDIX;
use agent::types::AgentMode;

#[test]
fn delegation_depth_cap() {
    assert_eq!(delegation_refused(0), None);
    assert_eq!(delegation_refused(1), None);
    assert_eq!(
        delegation_refused(2),
        Some("error: max delegation depth (3) reached — execute the task directly".to_string())
    );
}

#[test]
fn child_setup() {
    assert_eq!(subtask_label("short"), "short");
    let long = "é".repeat(50);
    assert_eq!(subtask_label(&long), "é".repeat(40));
    assert_eq!(child_mode(AgentMode::Plan), AgentMode::Plan);
    assert_eq!(child_mode(AgentMode::Thorough), AgentMode::Oneshot);
    assert_eq!(
        child_system_prompt("base".to_string(), Some("do x".to_string()), AgentMode::Oneshot),
        "base\n\n## Instructions from orchestrator\ndo x"
    );
    assert_eq!(
        child_system_prompt("base".to_string(), None, AgentMode::Plan),
        format!("base{PLAN_SUBTASK_APPENDIX}")
    );
}

#[test]
fn subtask_steps() {
    let mut st = TurnState::new();
    let empty = TurnPhaseResult::Text(" ".to_string());
    for _ in 0..4 {
        assert_eq!(st.next_subtask_step(&empty, 1), SubtaskStep::Retry);
    }
    assert_eq!(st.next_subtask_step(&empty, 1), SubtaskStep::OnlyThinking);

    let mut st2 = TurnState::new();
    let tools = TurnPhaseResult::ToolCalls("same".to_string());
    assert_eq!(st2.next_subtask_step(&tools, 2), SubtaskStep::RunTools);
    assert_eq!(st2.next_subtask_step(&tools, 5), SubtaskStep::Nudge { nudge_at: 5 });
    assert_eq!(st2.next_subtask_step(&tools, 6), SubtaskStep::LoopDetected { truncate_to: 5 });
    assert_eq!(st2.next_subtask_step(&TurnPhaseResult::Text("done".to_string()), 6), SubtaskStep::Finish);
}

#[test]
fn subtask_round_cap() {
    let mut st = TurnState::new();
    for i in 0..MAX_TOOL_ROUNDS {
        let t = TurnPhaseResult::ToolCalls(format!("call {i}"));
        assert_eq!(st.next_subtask_step(&t, 1), SubtaskStep::RunTools);
    }
    let t = TurnPhaseResult::ToolCalls("one more".to_string());
    assert_eq!(st.next_subtask_step(&t, 1), SubtaskStep::RoundCap);
}

#[test]
fn subtask_results() {
    assert_eq!(subtask_end(SubtaskStep::RoundCap, ""), Some("subtask: hard tool-round cap reached".to_string()));
    assert_eq!(subtask_end(SubtaskStep::Failed, "boom"), Some("subtask error: boom".to_string()));
    assert_eq!(subtask_end(SubtaskStep::Cancelled, ""), Some("subtask cancelled".to_string()));
    assert_eq!(subtask_end(SubtaskStep::Quit, ""), Some("subtask quit".to_string()));
    assert_eq!(subtask_end(SubtaskStep::LoopDetected { truncate_to: 1 }, ""), Some("subtask: loop detected".to_string()));
    assert_eq!(subtask_end(SubtaskStep::Finish, ""), None);
}
