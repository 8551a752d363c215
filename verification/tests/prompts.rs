use agent::prompts::{
    mcp_tools_prompt_section, system_prompt_for_depth, PLAN_PROMPT_APPENDIX,
    PLAN_SUBTASK_APPENDIX, REVIEW_SKILL_PREAMBLE, SIMPLIFY_SKILL_PREAMBLE,
    THOROUGH_PROMPT_APPENDIX,
};
use agent::types::{ToolDefinition, ToolSource};

#[test]
fn orchestrator_system_prompt_empty_memory() {
    let dir = "/tmp/test";
    let prompt = system_prompt_for_depth(0, dir, "", "", false);
    assert!(prompt.contains("orchestration layer"));
    assert!(prompt.contains("/tmp/test"));
    assert!(!prompt.contains("Stored memories"));
}

#[test]
fn orchestrator_system_prompt_with_memory() {
    let dir = "/tmp/test";
    let prompt = system_prompt_for_depth(0, dir, "Memory 1: hello", "", false);
    assert!(prompt.contains("Stored memories"));
    assert!(prompt.contains("Memory 1: hello"));
}

#[test]
fn coordinator_system_prompt_basic() {
    let dir = "/tmp/test";
    let prompt = system_prompt_for_depth(1, dir, "", "", false);
    assert!(prompt.contains("coordination layer"));
    assert!(prompt.contains("/tmp/test"));
    assert!(!prompt.contains("update_plan"));
}

#[test]
fn worker_system_prompt_basic() {
    let dir = "/tmp/test";
    let prompt = system_prompt_for_depth(2, dir, "", "", false);
    assert!(prompt.contains("execution layer"));
    assert!(prompt.contains("/tmp/test"));
}

#[test]
fn prompts_flat_mode_prompt_has_no_delegation() {
    let dir = "/tmp/test";
    let prompt = system_prompt_for_depth(0, dir, "", "", true);
    assert!(!prompt.contains("delegate_task"));
    assert!(prompt.contains("coding AI agent"));
}

#[test]
fn prompts_plan_prompt_contains_three_phases() {
    assert!(PLAN_PROMPT_APPENDIX.contains("interview_question"));
    assert!(PLAN_PROMPT_APPENDIX.contains("Clarify"));
    assert!(PLAN_PROMPT_APPENDIX.contains("Plan"));
    assert!(PLAN_PROMPT_APPENDIX.contains("Execute"));
}

#[test]
fn plan_prompt_mentions_update_plan_and_writes_disabled() {
    assert!(PLAN_PROMPT_APPENDIX.contains("update_plan"));
    assert!(PLAN_PROMPT_APPENDIX.contains("write_file"));
    assert!(PLAN_PROMPT_APPENDIX
        .to_lowercase()
        .contains("disabled in plan mode"));
}

#[test]
fn plan_prompt_mentions_shift_tab_hint() {
    assert!(PLAN_PROMPT_APPENDIX.contains("Shift+Tab"));
}

#[test]
fn plan_subtask_appendix_names_disabled_tools() {
    assert!(PLAN_SUBTASK_APPENDIX.contains("write_file"));
    assert!(PLAN_SUBTASK_APPENDIX.contains("DISABLED"));
}

#[test]
fn orchestrator_prompt_no_longer_says_only_tool() {
    let dir = "/tmp/test";
    let prompt = system_prompt_for_depth(0, dir, "", "", false);
    assert!(!prompt.contains("Your ONLY tool"));
    assert!(!prompt.contains("primary tool"));
    assert!(prompt.contains("read_file"));
    assert!(prompt.contains("delegate_task"));
}

#[test]
fn prompts_thorough_prompt_contains_must_call() {
    assert!(THOROUGH_PROMPT_APPENDIX.contains("interview_question"));
    assert!(THOROUGH_PROMPT_APPENDIX.contains("MUST call it"));
}

#[test]
fn plan_prompt_recommends_thorough_mode_for_execution() {
    assert!(
        PLAN_PROMPT_APPENDIX.contains("Thorough"),
        "plan mode should explicitly recommend Thorough as the next step when ready to execute"
    );
}

#[test]
fn prompts_mcp_tools_prompt_section_with_tools() {
    let tools = vec![
        ToolDefinition {
            name: "gradle_build".into(),
            description: "Run gradle build".into(),
            parameters: serde_json::Value::Object(serde_json::Map::new()),
            source: ToolSource::Mcp,
        },
        ToolDefinition {
            name: "gradle_test".into(),
            description: "Run gradle test".into(),
            parameters: serde_json::Value::Object(serde_json::Map::new()),
            source: ToolSource::Mcp,
        },
    ];
    let section = mcp_tools_prompt_section(&tools);
    assert!(section.contains("## MCP tools"));
    assert!(section.contains("`gradle_build`"));
    assert!(section.contains("`gradle_test`"));
    assert!(section.contains("Run gradle build"));
}

#[test]
fn prompts_mcp_tools_prompt_section_empty() {
    let section = mcp_tools_prompt_section(&[]);
    assert!(section.is_empty());
}

#[test]
fn prompts_system_prompt_includes_mcp_tools_context() {
    let dir = "/tmp/test";
    let ctx = "## MCP tools\n- `gradle_build`: Run gradle build\n";
    let prompt = system_prompt_for_depth(0, dir, "", ctx, true);
    assert!(prompt.contains("## MCP tools"));
    assert!(prompt.contains("`gradle_build`"));
}

#[test]
fn prompts_system_prompt_omits_empty_mcp_context() {
    let dir = "/tmp/test";
    let prompt = system_prompt_for_depth(0, dir, "", "", true);
    assert!(!prompt.contains("## MCP tools"));
}

#[test]
fn review_skill_preamble_has_key_guidance() {
    assert!(REVIEW_SKILL_PREAMBLE.contains("Skill: review"));
    assert!(REVIEW_SKILL_PREAMBLE.contains("file:line"));
    assert!(REVIEW_SKILL_PREAMBLE.contains("User's review scope:"));
    assert!(REVIEW_SKILL_PREAMBLE.contains("test coverage"));
    assert!(REVIEW_SKILL_PREAMBLE.contains("Do NOT refactor"));
    assert!(REVIEW_SKILL_PREAMBLE.contains("orchestrator"));
    assert!(REVIEW_SKILL_PREAMBLE.contains("read_file"));
}

#[test]
fn simplify_skill_preamble_has_key_guidance() {
    assert!(SIMPLIFY_SKILL_PREAMBLE.contains("Skill: simplify"));
    assert!(SIMPLIFY_SKILL_PREAMBLE.contains("performance"));
    assert!(SIMPLIFY_SKILL_PREAMBLE.contains("reuse"));
    assert!(SIMPLIFY_SKILL_PREAMBLE.contains("idiomatic"));
    assert!(SIMPLIFY_SKILL_PREAMBLE.contains("User's simplify scope:"));
}

