use agent::tools::definitions::{built_in_tool_definitions, delegate_task_def};

#[test]
fn definitions_built_in_tool_definitions_count() {
    let defs = built_in_tool_definitions();
    assert_eq!(defs.len(), 18);
    let names: Vec<_> = defs.iter().map(|d| d.name.as_str()).collect();
    assert!(names.contains(&"read_file"));
    assert!(names.contains(&"write_file"));
    assert!(names.contains(&"list_dir"));
    assert!(names.contains(&"edit_file"));
    assert!(names.contains(&"search_files"));
    assert!(names.contains(&"replace_lines"));
    assert!(names.contains(&"diff_files"));
    assert!(names.contains(&"append_file"));
    assert!(names.contains(&"delete_path"));
    assert!(names.contains(&"glob_files"));
    assert!(names.contains(&"remember"));
    assert!(names.contains(&"recall"));
    assert!(names.contains(&"forget"));
    assert!(names.contains(&"list_memories"));
    assert!(names.contains(&"line_count"));
    assert!(names.contains(&"read_image"));
    assert!(names.contains(&"read_pdf"));
    assert!(names.contains(&"delegate_task"));
}

#[test]
fn delegate_task_has_system_prompt_param() {
    let def = delegate_task_def();
    let props = def.parameters.get("properties").unwrap();
    assert!(
        props.get("system_prompt").is_some(),
        "delegate_task should have system_prompt property"
    );
}

#[test]
fn delegate_task_system_prompt_not_required() {
    let def = delegate_task_def();
    let required = def.parameters.get("required").unwrap().as_array().unwrap();
    let has_system_prompt = required.iter().any(|v| v.as_str() == Some("system_prompt"));
    assert!(!has_system_prompt, "system_prompt should not be required");
}

