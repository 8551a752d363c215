use agent::agent::{
    caveman_appendix, check_repeated_text, compress_prompt, is_flat_model, mcp_tools_prompt_section,
    system_prompt_for_depth, text_fingerprint, tools_for_depth, truncate_subtask_result,
    PLAN_PROMPT_APPENDIX, THOROUGH_PROMPT_APPENDIX,
};
use agent::tools::built_in_tool_definitions;
use agent::types::{AgentMode, CavemanLevel, ToolDefinition, ToolSource};

#[test]
fn text_fingerprint_same_text() {
    let a = text_fingerprint("hello world");
    let b = text_fingerprint("hello world");
    assert_eq!(a, b);
}

#[test]
fn text_fingerprint_whitespace_normalized() {
    let a = text_fingerprint("hello   world");
    let b = text_fingerprint("hello world");
    assert_eq!(a, b);
}

#[test]
fn text_fingerprint_different_text() {
    let a = text_fingerprint("hello world");
    let b = text_fingerprint("goodbye world");
    assert_ne!(a, b);
}

#[test]
fn check_repeated_text_empty_returns_none() {
    let window = std::collections::VecDeque::new();
    assert!(check_repeated_text("", &window).is_none());
    assert!(check_repeated_text("   ", &window).is_none());
}

#[test]
fn check_repeated_text_detects_repeat() {
    let mut window = std::collections::VecDeque::new();
    window.push_back(text_fingerprint("hello world"));
    assert!(check_repeated_text("hello world", &window).is_some());
}

#[test]
fn check_repeated_text_no_false_positive() {
    let mut window = std::collections::VecDeque::new();
    window.push_back(text_fingerprint("hello world"));
    assert!(check_repeated_text("different text", &window).is_none());
}

#[test]
fn check_repeated_text_window_catches_cycle() {
    let mut window = std::collections::VecDeque::new();
    window.push_back(text_fingerprint("message A"));
    window.push_back(text_fingerprint("message B"));
    window.push_back(text_fingerprint("message C"));
    // A appears again — should detect
    assert!(check_repeated_text("message A", &window).is_some());
}

#[test]
fn test_orchestrator_system_prompt_empty_memory() {
    let dir = "/tmp/test";
    let prompt = system_prompt_for_depth(0, dir, "", "", false, CavemanLevel::Off);
    assert!(prompt.contains("orchestration layer"));
    assert!(prompt.contains("/tmp/test"));
    assert!(!prompt.contains("Stored memories"));
}

#[test]
fn test_orchestrator_system_prompt_with_memory() {
    let dir = "/tmp/test";
    let prompt =
        system_prompt_for_depth(0, dir, "Memory 1: hello", "", false, CavemanLevel::Off);
    assert!(prompt.contains("Stored memories"));
    assert!(prompt.contains("Memory 1: hello"));
}

#[test]
fn test_coordinator_system_prompt() {
    let dir = "/tmp/test";
    let prompt = system_prompt_for_depth(1, dir, "", "", false, CavemanLevel::Off);
    assert!(prompt.contains("coordination layer"));
    assert!(prompt.contains("/tmp/test"));
}

#[test]
fn test_worker_system_prompt() {
    let dir = "/tmp/test";
    let prompt = system_prompt_for_depth(2, dir, "", "", false, CavemanLevel::Off);
    assert!(prompt.contains("execution layer"));
    assert!(prompt.contains("/tmp/test"));
}

#[test]
fn tools_for_depth_orchestrator_has_only_delegate() {
    let all = built_in_tool_definitions();
    let tools = tools_for_depth(&all, 0, false, AgentMode::Oneshot);
    let names: Vec<_> = tools.iter().map(|t| t.name.as_str()).collect();
    assert!(names.contains(&"delegate_task"));
    assert!(!names.contains(&"write_file"));
    assert!(!names.contains(&"read_file"));
    assert_eq!(tools.len(), 1);
}

#[test]
fn tools_for_depth_coordinator_has_search_and_delegate() {
    let all = built_in_tool_definitions();
    let tools = tools_for_depth(&all, 1, false, AgentMode::Oneshot);
    let names: Vec<_> = tools.iter().map(|t| t.name.as_str()).collect();
    assert!(names.contains(&"delegate_task"));
    assert!(names.contains(&"glob_files"));
    assert!(names.contains(&"search_files"));
    assert!(names.contains(&"list_dir"));
    assert!(!names.contains(&"read_file"));
    assert!(!names.contains(&"write_file"));
}

#[test]
fn agent_tools_for_depth_worker_has_file_tools_no_delegate() {
    let all = built_in_tool_definitions();
    let tools = tools_for_depth(&all, 2, false, AgentMode::Oneshot);
    let names: Vec<_> = tools.iter().map(|t| t.name.as_str()).collect();
    assert!(names.contains(&"read_file"));
    assert!(names.contains(&"write_file"));
    assert!(names.contains(&"edit_file"));
    assert!(!names.contains(&"delegate_task"));
}

#[test]
fn tools_for_depth_coordinator_exact_set() {
    let all = built_in_tool_definitions();
    let tools = tools_for_depth(&all, 1, false, AgentMode::Oneshot);
    let names: std::collections::HashSet<_> = tools.iter().map(|t| t.name.as_str()).collect();
    let expected: std::collections::HashSet<&str> =
        ["delegate_task", "glob_files", "search_files", "list_dir"].into();
    assert_eq!(names, expected);
}

#[test]
fn tools_for_depth_worker_excludes_only_delegate() {
    let all = built_in_tool_definitions();
    let worker_tools = tools_for_depth(&all, 2, false, AgentMode::Oneshot);
    let mut expected: std::collections::HashSet<_> =
        all.iter().map(|t| t.name.as_str()).collect();
    expected.remove("delegate_task");
    let worker_names: std::collections::HashSet<_> =
        worker_tools.iter().map(|t| t.name.as_str()).collect();
    assert_eq!(worker_names, expected);
}

#[test]
fn tools_for_depth_3_same_as_depth_2() {
    let all = built_in_tool_definitions();
    let mut d2: Vec<_> = tools_for_depth(&all, 2, false, AgentMode::Oneshot)
        .iter()
        .map(|t| t.name.clone())
        .collect();
    let mut d3: Vec<_> = tools_for_depth(&all, 3, false, AgentMode::Oneshot)
        .iter()
        .map(|t| t.name.clone())
        .collect();
    d2.sort();
    d3.sort();
    assert_eq!(d2, d3);
}

#[test]
fn agent_flat_mode_all_depths_get_worker_tools() {
    let all = built_in_tool_definitions();
    let d0 = tools_for_depth(&all, 0, true, AgentMode::Oneshot);
    let d1 = tools_for_depth(&all, 1, true, AgentMode::Oneshot);
    let d2 = tools_for_depth(&all, 2, true, AgentMode::Oneshot);
    assert_eq!(d0.len(), d2.len());
    assert_eq!(d1.len(), d2.len());
    assert!(d0.iter().all(|t| t.name != "delegate_task"));
}

#[test]
fn agent_flat_mode_prompt_has_no_delegation() {
    let dir = "/tmp/test";
    let prompt = system_prompt_for_depth(0, dir, "", "", true, CavemanLevel::Off);
    assert!(!prompt.contains("delegate_task"));
    assert!(prompt.contains("coding AI agent"));
}

#[test]
fn agent_thorough_mode_adds_interview_question_at_depth_0() {
    let all = built_in_tool_definitions();
    let tools = tools_for_depth(&all, 0, false, AgentMode::Thorough);
    let names: Vec<_> = tools.iter().map(|t| t.name.as_str()).collect();
    assert!(names.contains(&"delegate_task"));
    assert!(names.contains(&"interview_question"));
}

#[test]
fn agent_thorough_mode_does_not_add_interview_question_at_depth_2() {
    let all = built_in_tool_definitions();
    let tools = tools_for_depth(&all, 2, false, AgentMode::Thorough);
    let names: Vec<_> = tools.iter().map(|t| t.name.as_str()).collect();
    assert!(!names.contains(&"interview_question"));
}

#[test]
fn agent_plan_mode_adds_interview_question_at_depth_0() {
    let all = built_in_tool_definitions();
    let tools = tools_for_depth(&all, 0, false, AgentMode::Plan);
    let names: Vec<_> = tools.iter().map(|t| t.name.as_str()).collect();
    assert!(names.contains(&"delegate_task"));
    assert!(names.contains(&"interview_question"));
}

#[test]
fn agent_plan_mode_no_interview_at_depth_2() {
    let all = built_in_tool_definitions();
    let tools = tools_for_depth(&all, 2, false, AgentMode::Plan);
    let names: Vec<_> = tools.iter().map(|t| t.name.as_str()).collect();
    assert!(!names.contains(&"interview_question"));
}

#[test]
fn agent_oneshot_no_interview_any_depth() {
    let all = built_in_tool_definitions();
    for depth in 0..3 {
        let tools = tools_for_depth(&all, depth, false, AgentMode::Oneshot);
        let names: Vec<_> = tools.iter().map(|t| t.name.as_str()).collect();
        assert!(
            !names.contains(&"interview_question"),
            "depth {depth} should not have interview_question in Oneshot"
        );
    }
}

#[test]
fn agent_plan_prompt_contains_three_phases() {
    assert!(PLAN_PROMPT_APPENDIX.contains("interview_question"));
    assert!(PLAN_PROMPT_APPENDIX.contains("Clarify"));
    assert!(PLAN_PROMPT_APPENDIX.contains("Plan"));
    assert!(PLAN_PROMPT_APPENDIX.contains("Execute"));
}

#[test]
fn agent_thorough_prompt_contains_must_call() {
    assert!(THOROUGH_PROMPT_APPENDIX.contains("interview_question"));
    assert!(THOROUGH_PROMPT_APPENDIX.contains("MUST call it"));
}

#[test]
fn agent_is_flat_model_detects_dense() {
    assert!(is_flat_model("gemma4:31b"));
    assert!(is_flat_model("gemma4:31b-cloud"));
    assert!(!is_flat_model("gemma4:26b"));
    assert!(!is_flat_model("gemma4:e4b"));
}

#[test]
fn truncate_subtask_result_short_unchanged() {
    let s = "hello".to_string();
    assert_eq!(truncate_subtask_result(s, 100), "hello");
}

#[test]
fn truncate_subtask_result_long_gets_suffix() {
    let s = "a".repeat(5000);
    let result = truncate_subtask_result(s, 100);
    assert!(result.starts_with("aaaa"));
    assert!(result.contains("[truncated:"));
    assert!(result.contains("5000 chars total"));
}

#[test]
fn compress_prompt_off_is_identity() {
    let input = "You are a coding AI agent.\nYou help the users.";
    assert_eq!(compress_prompt(input, CavemanLevel::Off), input);
}

#[test]
fn compress_prompt_lite_collapses_blank_lines() {
    let input = "Line one.\n\n\n\nLine two.\n\n\nLine three.";
    let result = compress_prompt(input, CavemanLevel::Lite);
    // Should collapse multiple blank lines into one
    assert!(!result.contains("\n\n\n"));
    assert!(result.contains("Line one."));
    assert!(result.contains("Line two."));
    assert!(result.contains("Line three."));
}

#[test]
fn compress_prompt_full_strips_articles() {
    let input = "Return the result of a computation.";
    let result = compress_prompt(input, CavemanLevel::Full);
    assert!(!result.contains(" the "));
    assert!(!result.contains(" a "));
    assert!(result.contains("result"));
    assert!(result.contains("computation"));
}

#[test]
fn compress_prompt_full_strips_filler_words() {
    let input = "You should just basically really try to simply do it.";
    let result = compress_prompt(input, CavemanLevel::Full);
    assert!(!result.contains("just"));
    assert!(!result.contains("basically"));
    assert!(!result.contains("really"));
    assert!(!result.contains("simply"));
    assert!(result.contains("try"));
    assert!(result.contains("do"));
}

#[test]
fn compress_prompt_ultra_removes_blank_lines() {
    let input = "Line one.\n\n\nLine two.\n\n";
    let result = compress_prompt(input, CavemanLevel::Ultra);
    assert!(!result.contains("\n\n"));
    assert!(result.contains("Line one."));
    assert!(result.contains("Line two."));
}

#[test]
fn compress_prompt_preserves_code_tokens() {
    // Code-like content should survive compression
    let input = "Use `read_file` and `write_file` as needed.";
    let result = compress_prompt(input, CavemanLevel::Full);
    assert!(result.contains("`read_file`"));
    assert!(result.contains("`write_file`"));
}

#[test]
fn caveman_appendix_off_is_empty() {
    assert!(caveman_appendix(CavemanLevel::Off).is_empty());
}

#[test]
fn caveman_appendix_levels_non_empty() {
    assert!(!caveman_appendix(CavemanLevel::Lite).is_empty());
    assert!(!caveman_appendix(CavemanLevel::Full).is_empty());
    assert!(!caveman_appendix(CavemanLevel::Ultra).is_empty());
}

#[test]
fn caveman_appendix_increasing_terseness() {
    // Each level should be shorter or equal to the previous
    let lite = caveman_appendix(CavemanLevel::Lite);
    let full = caveman_appendix(CavemanLevel::Full);
    let ultra = caveman_appendix(CavemanLevel::Ultra);
    // All should mention code being unchanged
    assert!(lite.contains("Code unchanged") || lite.contains("code unchanged"));
    assert!(full.contains("Code") || full.contains("code"));
    assert!(ultra.contains("Code") || ultra.contains("code"));
}

#[test]
fn compress_prompt_full_reduces_length() {
    let input = "You are a coding AI agent. You help the users write, edit, debug, and understand code. \
        Prefer idiomatic, compact solutions. You have the full tool access. Just basically complete \
        everything yourself — no delegation needed.";
    let original_len = input.len();
    let compressed = compress_prompt(input, CavemanLevel::Full);
    assert!(
        compressed.len() < original_len,
        "Full compression should reduce token count"
    );
}

#[test]
fn system_prompt_caveman_off_unchanged() {
    let dir = "/tmp/test";
    let without = system_prompt_for_depth(0, dir, "", "", true, CavemanLevel::Off);
    assert!(without.contains("You are a coding AI agent"));
    assert!(!without.contains("Output style"));
}

#[test]
fn system_prompt_caveman_lite_adds_appendix() {
    let dir = "/tmp/test";
    let prompt = system_prompt_for_depth(0, dir, "", "", true, CavemanLevel::Lite);
    assert!(prompt.contains("Output style: concise"));
    assert!(prompt.contains("Code unchanged"));
}

#[test]
fn system_prompt_caveman_full_strips_and_appends() {
    let dir = "/tmp/test";
    let off = system_prompt_for_depth(0, dir, "", "", true, CavemanLevel::Off);
    let full = system_prompt_for_depth(0, dir, "", "", true, CavemanLevel::Full);
    assert!(full.contains("Output style: caveman"));
    assert!(
        full.len() < off.len() + 200,
        "Full prompt should not be much longer than off after compression removes filler"
    );
    let base_portion = full.split("## Output style").next().unwrap();
    assert!(
        !base_portion
            .split_whitespace()
            .any(|w| w == "the" || w == "a" || w == "an"),
        "Articles should be stripped from base prompt in Full mode"
    );
}

#[test]
fn system_prompt_caveman_ultra_most_compressed() {
    let dir = "/tmp/test";
    let off = system_prompt_for_depth(0, dir, "", "", true, CavemanLevel::Off);
    let ultra = system_prompt_for_depth(0, dir, "", "", true, CavemanLevel::Ultra);
    assert!(ultra.contains("Output style: ultra-terse"));
    let off_base = off.split("## Output style").next().unwrap_or(&off);
    let ultra_base = ultra.split("## Output style").next().unwrap_or(&ultra);
    assert!(
        ultra_base.len() < off_base.len(),
        "Ultra base prompt ({}) should be shorter than Off base ({})",
        ultra_base.len(),
        off_base.len()
    );
}

#[test]
fn system_prompt_caveman_preserves_code_references() {
    let dir = "/tmp/test";
    let prompt = system_prompt_for_depth(0, dir, "", "", true, CavemanLevel::Ultra);
    assert!(prompt.contains("read_file"));
    assert!(prompt.contains("write_file"));
    assert!(prompt.contains("edit_file"));
}

#[test]
fn system_prompt_caveman_levels_produce_different_prompts() {
    let dir = "/tmp/test";
    let off = system_prompt_for_depth(0, dir, "", "", true, CavemanLevel::Off);
    let lite = system_prompt_for_depth(0, dir, "", "", true, CavemanLevel::Lite);
    let full = system_prompt_for_depth(0, dir, "", "", true, CavemanLevel::Full);
    let ultra = system_prompt_for_depth(0, dir, "", "", true, CavemanLevel::Ultra);
    assert_ne!(off, lite, "Off and Lite should differ");
    assert_ne!(lite, full, "Lite and Full should differ");
    assert_ne!(full, ultra, "Full and Ultra should differ");
    assert_ne!(off, ultra, "Off and Ultra should differ");
}

#[test]
fn agent_mcp_tools_prompt_section_with_tools() {
    let tools = vec![
        ToolDefinition {
            name: "gradle_build".into(),
            description: "Run gradle build".into(),
            parameters: serde_json::Value::Object(serde_json::Map::new()),
            source: ToolSource::Mcp,
        },
        ToolDefinition {
            name: "gradle_test".into(),
            description: "Run gradle test".into(),
            parameters: serde_json::Value::Object(serde_json::Map::new()),
            source: ToolSource::Mcp,
        },
    ];
    let section = mcp_tools_prompt_section(&tools);
    assert!(section.contains("## MCP tools"));
    assert!(section.contains("`gradle_build`"));
    assert!(section.contains("`gradle_test`"));
    assert!(section.contains("Run gradle build"));
}

#[test]
fn agent_mcp_tools_prompt_section_empty() {
    let section = mcp_tools_prompt_section(&[]);
    assert!(section.is_empty());
}

#[test]
fn agent_system_prompt_includes_mcp_tools_context() {
    let dir = "/tmp/test";
    let ctx = "## MCP tools\n- `gradle_build`: Run gradle build\n";
    let prompt = system_prompt_for_depth(0, dir, "", ctx, true, CavemanLevel::Off);
    assert!(prompt.contains("## MCP tools"));
    assert!(prompt.contains("`gradle_build`"));
}

#[test]
fn agent_system_prompt_omits_empty_mcp_context() {
    let dir = "/tmp/test";
    let prompt = system_prompt_for_depth(0, dir, "", "", true, CavemanLevel::Off);
    assert!(!prompt.contains("## MCP tools"));
}

