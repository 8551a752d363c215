//! Which tools each layer of the agent is offered.
use vstd::prelude::*;

use crate::text::{chars_contains, chars_of, contains_seq, lowercase, str_eq, to_lowercase};
use crate::tools::definitions::{interview_question_def, is_def, INTERVIEW_QUESTION_DESCRIPTION, INTERVIEW_QUESTION_SCHEMA};
use crate::types::{AgentMode, ToolDefinition};

verus! {

/// Heuristic: dense models are too slow for multi-level delegation.
/// True when the lowercased name contains "31b" or "dense".
pub fn is_flat_model(model: &str) -> (r: bool)
    ensures
        r == (contains_seq(lowercase(model@), "31b"@) || contains_seq(lowercase(model@), "dense"@)),
{
    let m = to_lowercase(model);
    let mc = chars_of(m.as_str());
    chars_contains(&mc, &chars_of("31b")) || chars_contains(&mc, &chars_of("dense"))
}

/// Tools that write files; none of them is offered in plan mode.
pub open spec fn is_plan_write_tool(name: Seq<char>) -> bool {
    ||| name == "write_file"@
    ||| name == "edit_file"@
    ||| name == "replace_lines"@
    ||| name == "append_file"@
    ||| name == "delete_path"@
}

/// Names of the tools that write files.
pub fn plan_write_tools() -> (r: Vec<&'static str>)
    ensures
        r@.len() == 5,
        forall|i: int| 0 <= i < 5 ==> is_plan_write_tool((#[trigger] r@[i])@),
        forall|n: Seq<char>| is_plan_write_tool(n) ==> exists|i: int| 0 <= i < 5 && (#[trigger] r@[i])@ == n,
{
    let r = vec!["write_file", "edit_file", "replace_lines", "append_file", "delete_path"];
    assert(r@[0]@ == "write_file"@);
    assert(r@[1]@ == "edit_file"@);
    assert(r@[2]@ == "replace_lines"@);
    assert(r@[3]@ == "append_file"@);
    assert(r@[4]@ == "delete_path"@);
    r
}

fn is_plan_write_tool_exec(name: &str) -> (r: bool)
    ensures
        r == is_plan_write_tool(name@),
{
    str_eq(name, "write_file") || str_eq(name, "edit_file") || str_eq(name, "replace_lines")
        || str_eq(name, "append_file") || str_eq(name, "delete_path")
}

/// Tools the root agent keeps in layered (non-flat) operation: reading tools,
/// delegation and the plan.
pub open spec fn is_orchestrator_tool(name: Seq<char>) -> bool {
    ||| name == "delegate_task"@
    ||| name == "update_plan"@
    ||| name == "read_file"@
    ||| name == "list_dir"@
    ||| name == "glob_files"@
    ||| name == "search_files"@
    ||| name == "line_count"@
    ||| name == "diff_files"@
}

fn is_orchestrator_tool_exec(name: &str) -> (r: bool)
    ensures
        r == is_orchestrator_tool(name@),
{
    str_eq(name, "delegate_task") || str_eq(name, "update_plan") || str_eq(name, "read_file")
        || str_eq(name, "list_dir") || str_eq(name, "glob_files") || str_eq(name, "search_files")
        || str_eq(name, "line_count") || str_eq(name, "diff_files")
}

/// Whether a tool named `name` is offered at `depth`.
pub open spec fn offered_at(name: Seq<char>, depth: nat, flat: bool) -> bool {
    if flat {
        name != "delegate_task"@ && (depth == 0 || name != "update_plan"@)
    } else if depth == 0 {
        is_orchestrator_tool(name)
    } else {
        name != "delegate_task"@ && name != "update_plan"@
    }
}

/// The tools among `ts` that are offered at `depth`, in order.
pub open spec fn offered_tools(ts: Seq<ToolDefinition>, depth: nat, flat: bool) -> Seq<ToolDefinition>
    decreases ts.len(),
{
    if ts.len() == 0 {
        Seq::empty()
    } else {
        let p = offered_tools(ts.drop_last(), depth, flat);
        if offered_at(ts.last().name@, depth, flat) {
            p.push(ts.last())
        } else {
            p
        }
    }
}

/// `ts` without the tools that write files.
pub open spec fn without_writes(ts: Seq<ToolDefinition>) -> Seq<ToolDefinition>
    decreases ts.len(),
{
    if ts.len() == 0 {
        Seq::empty()
    } else {
        let p = without_writes(ts.drop_last());
        if is_plan_write_tool(ts.last().name@) {
            p
        } else {
            p.push(ts.last())
        }
    }
}

/// `r` is the tool set for `depth` and `mode`: the offered tools, then
/// `interview_question` at depth 0 in plan and thorough modes; plan mode drops
/// every tool that writes.
pub open spec fn is_tool_selection(
    r: Seq<ToolDefinition>,
    all: Seq<ToolDefinition>,
    depth: nat,
    flat: bool,
    mode: AgentMode,
) -> bool {
    let base = offered_tools(all, depth, flat);
    let asks = (mode == AgentMode::Plan || mode == AgentMode::Thorough) && depth == 0;
    if asks {
        r.len() == base.len() + 1 && r.take(base.len() as int) == base && is_def(
            r[base.len() as int],
            "interview_question"@,
            INTERVIEW_QUESTION_DESCRIPTION@,
            INTERVIEW_QUESTION_SCHEMA@,
        )
    } else {
        r == base
    }
}

/// Filter the full tool set to the subset appropriate for a given depth.
/// When `flat` is true, every depth gets the worker tools (no `delegate_task`),
/// and only depth 0 keeps `update_plan`. Layered: depth 0 keeps reading tools,
/// `delegate_task` and `update_plan`; deeper agents get everything else.
/// Plan and thorough modes add `interview_question` at depth 0; plan mode
/// removes every tool that writes.
pub fn tools_for_depth(all_tools: &[ToolDefinition], depth: usize, flat: bool, mode: AgentMode) -> (r: Vec<ToolDefinition>)
    ensures
        mode != AgentMode::Plan ==> is_tool_selection(r@, all_tools@, depth as nat, flat, mode),
        mode == AgentMode::Plan ==> exists|pre: Seq<ToolDefinition>|
            is_tool_selection(pre, all_tools@, depth as nat, flat, mode) && r@ == without_writes(pre),
{
    let mut tools: Vec<ToolDefinition> = Vec::new();
    let n = all_tools.len();
    for i in 0..n
        invariant
            n == all_tools@.len(),
            tools@ == offered_tools(all_tools@.take(i as int), depth as nat, flat),
    {
        let t = &all_tools[i];
        let name = t.name.as_str();
        let keep = if flat {
            !str_eq(name, "delegate_task") && (depth == 0 || !str_eq(name, "update_plan"))
        } else if depth == 0 {
            is_orchestrator_tool_exec(name)
        } else {
            !str_eq(name, "delegate_task") && !str_eq(name, "update_plan")
        };
        assert(all_tools@.take(i + 1).drop_last() =~= all_tools@.take(i as int));
        assert(all_tools@.take(i + 1).last() == all_tools@[i as int]);
        if keep {
            tools.push(t.duplicate());
        }
    }
    assert(all_tools@.take(n as int) =~= all_tools@);
    let ghost base = tools@;
    let asks = (mode == AgentMode::Plan || mode == AgentMode::Thorough) && depth == 0;
    if asks {
        tools.push(interview_question_def());
        assert(tools@.take(base.len() as int) =~= base);
    }
    let ghost pre = tools@;
    if mode == AgentMode::Plan {
        let mut kept: Vec<ToolDefinition> = Vec::new();
        let m = tools.len();
        for i in 0..m
            invariant
                m == pre.len(),
                tools@ == pre,
                kept@ == without_writes(pre.take(i as int)),
        {
            assert(pre.take(i + 1).drop_last() =~= pre.take(i as int));
            assert(pre.take(i + 1).last() == pre[i as int]);
            if !is_plan_write_tool_exec(tools[i].name.as_str()) {
                kept.push(tools[i].duplicate());
            }
        }
        assert(pre.take(m as int) =~= pre);
        tools = kept;
    }
    tools
}

} // verus!
