use agent::agent::turn::{
    action_step, call_route, display_output, find_tool_source, CallRoute, plan_update, refreshes_prompt, stored_output,
    unavailable_message, with_mode_appendix, ActionStep, PlanArgs, TurnPhaseResult, TurnState,
    TurnStep, MAX_TOOL_ROUNDS,
};
use agent::agent::UserAction;
use agent::prompts::PLAN_PROMPT_APPENDIX;
use agent::tools::dispatch::{route_builtin, BuiltinTool, Route};
use agent::types::{
    AgentMode, PlanItem, PlanStatus, ToolCall, ToolDefinition, ToolResult, ToolSource,
};

fn text(s: &str) -> TurnPhaseResult {
    TurnPhaseResult::Text(s.to_string())
}

#[test]
fn empty_turns_retry_then_nudge_then_give_up() {
    let mut st = TurnState::new();
    assert_eq!(st.next_step(&text("  "), 0, 1), TurnStep::RetryEmpty);
    assert_eq!(st.next_step(&text(""), 0, 1), TurnStep::RetryEmpty);
    assert_eq!(st.next_step(&text(""), 0, 1), TurnStep::NudgeEmpty);
    assert_eq!(st.next_step(&text(""), 0, 2), TurnStep::NudgeEmpty);
    assert_eq!(st.next_step(&text(""), 0, 3), TurnStep::GiveUpEmpty);
}

#[test]
fn repeated_text_is_nudged_once() {
    let mut st = TurnState::new();
    let tools = TurnPhaseResult::ToolCalls("same   words".to_string());
    assert_eq!(st.next_step(&tools, 0, 4), TurnStep::RunTools);
    assert_eq!(st.next_step(&tools, 0, 7), TurnStep::NudgeRepeat { nudge_at: 7 });
    assert_eq!(
        st.next_step(&text("same words"), 0, 9),
        TurnStep::LoopPersists { truncate_to: 7, report: true }
    );
    let mut sub = TurnState::new();
    assert_eq!(sub.next_step(&text("x"), 1, 0), TurnStep::FinishText);
}

#[test]
fn round_cap_ends_turn() {
    let mut st = TurnState::new();
    for i in 0..MAX_TOOL_ROUNDS {
        let t = TurnPhaseResult::ToolCalls(format!("step {i}"));
        assert_eq!(st.next_step(&t, 0, 0), TurnStep::RunTools);
    }
    let t = TurnPhaseResult::ToolCalls("one more".to_string());
    assert_eq!(st.next_step(&t, 0, 0), TurnStep::RoundCap);
}

#[test]
fn other_phases() {
    let mut st = TurnState::new();
    assert_eq!(st.next_step(&TurnPhaseResult::Cancelled, 0, 0), TurnStep::Cancelled);
    assert_eq!(st.next_step(&TurnPhaseResult::Error("x".into()), 0, 0), TurnStep::Failed);
    assert_eq!(st.next_step(&TurnPhaseResult::Quit, 0, 0), TurnStep::Quit);
}

#[test]
fn tool_output_bookkeeping() {
    assert_eq!(
        display_output("delegate_task", "héllo"),
        "[subtask done: 5 chars passed to orchestrator context]"
    );
    assert_eq!(display_output("read_file", "abc"), "abc");
    let long = "x".repeat(6001);
    assert!(stored_output("delegate_task", long.clone(), 0).contains("[truncated: 6001 chars total"));
    assert_eq!(stored_output("delegate_task", long.clone(), 1), long);
    assert!(refreshes_prompt("remember") && refreshes_prompt("forget"));
    assert!(!refreshes_prompt("recall"));
    assert_eq!(
        unavailable_message("write_file"),
        "'write_file' is not available at this agent level. Use delegate_task to have a sub-agent perform this operation."
    );
}

fn item(content: &str, status: PlanStatus) -> PlanItem {
    PlanItem { content: content.to_string(), status }
}

#[test]
fn plan_updates() {
    let (m, err, plan) = plan_update(1, PlanArgs::Missing);
    assert!(err && plan.is_none() && m.starts_with("update_plan is only available to the root agent."));
    let (m, err, _) = plan_update(0, PlanArgs::Missing);
    assert!(err);
    assert_eq!(m, "error: 'items' array is required");
    let (m, _, _) = plan_update(0, PlanArgs::Items(Vec::new()));
    assert_eq!(m, "error: 'items' must not be empty");
    let (m, _, _) = plan_update(0, PlanArgs::Invalid("bad".into()));
    assert_eq!(m, "error: invalid plan items: bad");
    let items = vec![
        item("a", PlanStatus::Completed),
        item("b", PlanStatus::InProgress),
        item("c", PlanStatus::Pending),
        item("d", PlanStatus::Pending),
    ];
    let (m, err, plan) = plan_update(0, PlanArgs::Items(items));
    assert!(!err);
    assert_eq!(m, "plan updated: 4 items (2 pending, 1 in_progress, 1 completed)");
    assert_eq!(plan.map(|p| p.len()), Some(4));
}

#[test]
fn actions_between_turns() {
    assert_eq!(action_step(&UserAction::Quit, AgentMode::Oneshot), ActionStep::Stop);
    assert_eq!(
        action_step(&UserAction::ChangeModel("gemma4:31b".into()), AgentMode::Oneshot),
        ActionStep::ChangeModel { flat: true }
    );
    assert_eq!(
        action_step(
            &UserAction::SendMessage { text: "x".into(), images: vec![], mode: AgentMode::Plan },
            AgentMode::Oneshot
        ),
        ActionStep::StartTurn { mode_changed: true }
    );
    let p = with_mode_appendix("base".to_string(), AgentMode::Plan);
    assert_eq!(p, format!("base{PLAN_PROMPT_APPENDIX}"));
    assert_eq!(with_mode_appendix("base".to_string(), AgentMode::Oneshot), "base");
}

#[test]
fn builtin_routes() {
    match route_builtin("write_file", AgentMode::Plan) {
        Route::Refuse(m) => assert!(m.contains("disabled in plan mode")),
        Route::Run(_) => panic!("write tools are refused in plan mode"),
    }
    assert!(matches!(route_builtin("write_file", AgentMode::Oneshot), Route::Run(BuiltinTool::WriteFile)));
    assert!(matches!(route_builtin("read_file", AgentMode::Plan), Route::Run(BuiltinTool::ReadFile)));
    match route_builtin("frobnicate", AgentMode::Oneshot) {
        Route::Refuse(m) => assert_eq!(m, "unknown built-in tool: frobnicate"),
        Route::Run(_) => panic!("unknown tools are refused"),
    }
    match route_builtin("delegate_task", AgentMode::Oneshot) {
        Route::Refuse(m) => assert_eq!(m, "delegate_task must be intercepted before dispatch"),
        Route::Run(_) => panic!("delegate_task is not a built-in"),
    }
    let ok = ToolResult::from_outcome("id".into(), Ok("fine".into()));
    assert!(!ok.is_error && ok.output == "fine");
    let bad = ToolResult::from_outcome("id".into(), Err("nope".into()));
    assert!(bad.is_error && bad.output == "nope");
}

fn call(name: &str, args: &str) -> ToolCall {
    ToolCall {
        id: "c1".to_string(),
        name: name.to_string(),
        arguments: serde_json::from_str(args).unwrap(),
    }
}

#[test]
fn tool_calls_are_routed_by_name() {
    match call_route(&call("delegate_task", r#"{"prompt": "look", "system_prompt": "be brief"}"#)) {
        CallRoute::Delegate { prompt, system_prompt } => {
            assert_eq!(prompt, "look");
            assert_eq!(system_prompt, Some("be brief".to_string()));
        }
        _ => panic!("expected a delegation"),
    }
    match call_route(&call("delegate_task", "{}")) {
        CallRoute::Delegate { prompt, system_prompt } => {
            assert_eq!(prompt, "");
            assert_eq!(system_prompt, None);
        }
        _ => panic!("expected a delegation"),
    }
    match call_route(&call("interview_question", r#"{"question": "Which?", "suggestions": ["a", 2, "b"]}"#)) {
        CallRoute::Interview { question, suggestions } => {
            assert_eq!(question, "Which?");
            assert_eq!(suggestions, vec!["a".to_string(), "b".to_string()]);
        }
        _ => panic!("expected a question"),
    }
    assert!(matches!(call_route(&call("update_plan", "{}")), CallRoute::UpdatePlan));
    assert!(matches!(call_route(&call("read_file", "{}")), CallRoute::Dispatch));
}

#[test]
fn tools_are_found_by_name() {
    let tool = |name: &str, source: ToolSource| ToolDefinition {
        name: name.to_string(),
        description: String::new(),
        parameters: serde_json::Value::Null,
        source,
    };
    let tools = vec![
        tool("read_file", ToolSource::BuiltIn),
        tool("search", ToolSource::Mcp),
        tool("search", ToolSource::BuiltIn),
    ];
    assert_eq!(find_tool_source(&tools, "read_file"), Some(ToolSource::BuiltIn));
    assert_eq!(find_tool_source(&tools, "search"), Some(ToolSource::Mcp));
    assert_eq!(find_tool_source(&tools, "write_file"), None);
}
