//! Which built-in tool a call runs, and what is refused before it runs.
use vstd::prelude::*;

use crate::text::{str_eq};
use crate::tools::selection::is_plan_write_tool;
use crate::types::AgentMode;

verus! {

/// The built-in tools that the task runs itself.
#[derive(Clone, Copy, Debug, PartialEq, Eq, Structural)]
pub enum BuiltinTool {
    ReadFile,
    WriteFile,
    ListDir,
    EditFile,
    SearchFiles,
    ReplaceLines,
    DiffFiles,
    AppendFile,
    DeletePath,
    GlobFiles,
    LineCount,
    ReadPdf,
    ReadImage,
    Remember,
    Recall,
    Forget,
    ListMemories,
}

/// The built-in tool of each name.
pub open spec fn builtin_of(name: Seq<char>) -> Option<BuiltinTool> {
    if name == "read_file"@ {
        Some(BuiltinTool::ReadFile)
    } else if name == "write_file"@ {
        Some(BuiltinTool::WriteFile)
    } else if name == "list_dir"@ {
        Some(BuiltinTool::ListDir)
    } else if name == "edit_file"@ {
        Some(BuiltinTool::EditFile)
    } else if name == "search_files"@ {
        Some(BuiltinTool::SearchFiles)
    } else if name == "replace_lines"@ {
        Some(BuiltinTool::ReplaceLines)
    } else if name == "diff_files"@ {
        Some(BuiltinTool::DiffFiles)
    } else if name == "append_file"@ {
        Some(BuiltinTool::AppendFile)
    } else if name == "delete_path"@ {
        Some(BuiltinTool::DeletePath)
    } else if name == "glob_files"@ {
        Some(BuiltinTool::GlobFiles)
    } else if name == "line_count"@ {
        Some(BuiltinTool::LineCount)
    } else if name == "read_pdf"@ {
        Some(BuiltinTool::ReadPdf)
    } else if name == "read_image"@ {
        Some(BuiltinTool::ReadImage)
    } else if name == "remember"@ {
        Some(BuiltinTool::Remember)
    } else if name == "recall"@ {
        Some(BuiltinTool::Recall)
    } else if name == "forget"@ {
        Some(BuiltinTool::Forget)
    } else if name == "list_memories"@ {
        Some(BuiltinTool::ListMemories)
    } else {
        None
    }
}

fn builtin_of_exec(name: &str) -> (r: Option<BuiltinTool>)
    ensures
        r == builtin_of(name@),
{
    if str_eq(name, "read_file") {
        Some(BuiltinTool::ReadFile)
    } else if str_eq(name, "write_file") {
        Some(BuiltinTool::WriteFile)
    } else if str_eq(name, "list_dir") {
        Some(BuiltinTool::ListDir)
    } else if str_eq(name, "edit_file") {
        Some(BuiltinTool::EditFile)
    } else if str_eq(name, "search_files") {
        Some(BuiltinTool::SearchFiles)
    } else if str_eq(name, "replace_lines") {
        Some(BuiltinTool::ReplaceLines)
    } else if str_eq(name, "diff_files") {
        Some(BuiltinTool::DiffFiles)
    } else if str_eq(name, "append_file") {
        Some(BuiltinTool::AppendFile)
    } else if str_eq(name, "delete_path") {
        Some(BuiltinTool::DeletePath)
    } else if str_eq(name, "glob_files") {
        Some(BuiltinTool::GlobFiles)
    } else if str_eq(name, "line_count") {
        Some(BuiltinTool::LineCount)
    } else if str_eq(name, "read_pdf") {
        Some(BuiltinTool::ReadPdf)
    } else if str_eq(name, "read_image") {
        Some(BuiltinTool::ReadImage)
    } else if str_eq(name, "remember") {
        Some(BuiltinTool::Remember)
    } else if str_eq(name, "recall") {
        Some(BuiltinTool::Recall)
    } else if str_eq(name, "forget") {
        Some(BuiltinTool::Forget)
    } else if str_eq(name, "list_memories") {
        Some(BuiltinTool::ListMemories)
    } else {
        None
    }
}

/// How a built-in tool call is handled.
pub enum Route {
    /// Run the tool.
    Run(BuiltinTool),
    /// Answer with this error without running anything.
    Refuse(String),
}

/// The refusal of a write tool in plan mode.
pub open spec fn plan_block_message(name: Seq<char>) -> Seq<char> {
    "error: '"@ + name
        + "' is disabled in plan mode — write tools are not available. Ask the user to switch out of plan mode to apply changes."@
}

/// The route of a call: write tools are refused in plan mode (even if the
/// tool list offered them); the delegation and plan tools are handled by the
/// task before dispatch; unknown names are refused.
pub open spec fn route_spec(name: Seq<char>, mode: AgentMode) -> Result<BuiltinTool, Seq<char>> {
    if mode == AgentMode::Plan && is_plan_write_tool(name) {
        Err(plan_block_message(name))
    } else {
        match builtin_of(name) {
            Some(t) => Ok(t),
            None => if name == "delegate_task"@ {
                Err("delegate_task must be intercepted before dispatch"@)
            } else if name == "update_plan"@ {
                Err("update_plan must be intercepted before dispatch"@)
            } else {
                Err("unknown built-in tool: "@ + name)
            },
        }
    }
}

pub fn route_builtin(name: &str, mode: AgentMode) -> (r: Route)
    ensures
        match route_spec(name@, mode) {
            Ok(t) => r == Route::Run(t),
            Err(msg) => r matches Route::Refuse(m) && m@ == msg,
        },
{
    let write = str_eq(name, "write_file") || str_eq(name, "edit_file") || str_eq(
        name,
        "replace_lines",
    ) || str_eq(name, "append_file") || str_eq(name, "delete_path");
    if mode == AgentMode::Plan && write {
        let mut m = String::new();
        m.append("error: '");
        m.append(name);
        m.append(
            "' is disabled in plan mode — write tools are not available. Ask the user to switch out of plan mode to apply changes.",
        );
        return Route::Refuse(m);
    }
    match builtin_of_exec(name) {
        Some(t) => Route::Run(t),
        None => {
            if str_eq(name, "delegate_task") {
                Route::Refuse("delegate_task must be intercepted before dispatch".to_owned())
            } else if str_eq(name, "update_plan") {
                Route::Refuse("update_plan must be intercepted before dispatch".to_owned())
            } else {
                let mut m = String::new();
                m.append("unknown built-in tool: ");
                m.append(name);
                Route::Refuse(m)
            }
        },
    }
}

/// A tool that changes files.
pub open spec fn writes_files(t: BuiltinTool) -> bool {
    t == BuiltinTool::WriteFile || t == BuiltinTool::EditFile || t == BuiltinTool::ReplaceLines
        || t == BuiltinTool::AppendFile || t == BuiltinTool::DeletePath
}

/// In plan mode no call runs a tool that changes files, whatever its name.
pub proof fn law_plan_mode_never_writes(name: Seq<char>)
    ensures
        route_spec(name, AgentMode::Plan) matches Ok(t) ==> !writes_files(t),
{
    reveal_strlit("write_file");
    reveal_strlit("edit_file");
    reveal_strlit("replace_lines");
    reveal_strlit("append_file");
    reveal_strlit("delete_path");
}

} // verus!
