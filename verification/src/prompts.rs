//! System prompts for each layer of the agent, and mode appendices.
use vstd::prelude::*;

use crate::types::ToolDefinition;

verus! {

pub const MEMORIES_HEADER: &'static str = "\n\n## Stored memories\n";

pub const SECTION_BREAK: &'static str = "\n\n";

/// The stored-memories section: empty when there are no memories.
pub open spec fn memory_section(memory_index: Seq<char>) -> Seq<char> {
    if memory_index.len() == 0 {
        Seq::empty()
    } else {
        MEMORIES_HEADER@ + memory_index
    }
}

/// The MCP tools section: empty when no MCP tool is connected.
pub open spec fn mcp_section(mcp_tools_context: Seq<char>) -> Seq<char> {
    if mcp_tools_context.len() == 0 {
        Seq::empty()
    } else {
        SECTION_BREAK@ + mcp_tools_context
    }
}

pub(crate) fn append_memory_section(prompt: &mut String, memory_index: &str)
    ensures
        final(prompt)@ == old(prompt)@ + memory_section(memory_index@),
{
    if !memory_index.is_empty() {
        prompt.append(MEMORIES_HEADER);
        prompt.append(memory_index);
    } else {
        assert(old(prompt)@ + Seq::<char>::empty() =~= old(prompt)@);
    }
}

pub(crate) fn append_mcp_section(prompt: &mut String, mcp_tools_context: &str)
    ensures
        final(prompt)@ == old(prompt)@ + mcp_section(mcp_tools_context@),
{
    if !mcp_tools_context.is_empty() {
        prompt.append(SECTION_BREAK);
        prompt.append(mcp_tools_context);
    } else {
        assert(old(prompt)@ + Seq::<char>::empty() =~= old(prompt)@);
    }
}

pub const MCP_TOOLS_HEADER: &'static str = "## MCP tools\n\
         These tools are provided by connected servers. Use them instead of manual alternatives when applicable.\n";

/// One line of the MCP tools section.
pub open spec fn mcp_tool_line(name: Seq<char>, description: Seq<char>) -> Seq<char> {
    "- `"@ + name + "`: "@ + description + "\n"@
}

/// The lines for the first `k` tools.
pub open spec fn mcp_tool_lines(tools: Seq<ToolDefinition>, k: nat) -> Seq<char>
    decreases k,
{
    if k == 0 {
        Seq::empty()
    } else {
        mcp_tool_lines(tools, (k - 1) as nat) + mcp_tool_line(
            tools[k - 1].name@,
            tools[k - 1].description@,
        )
    }
}

/// A system-prompt section listing the MCP tools by name and description;
/// empty when there are none.
pub fn mcp_tools_prompt_section(mcp_tools: &[ToolDefinition]) -> (r: String)
    ensures
        mcp_tools@.len() == 0 ==> r@ == Seq::<char>::empty(),
        mcp_tools@.len() > 0 ==> r@ == MCP_TOOLS_HEADER@ + mcp_tool_lines(
            mcp_tools@,
            mcp_tools@.len(),
        ),
{
    if mcp_tools.len() == 0 {
        return String::new();
    }
    let mut s = String::new();
    s.append(MCP_TOOLS_HEADER);
    let n = mcp_tools.len();
    for i in 0..n
        invariant
            n == mcp_tools@.len(),
            s@ == MCP_TOOLS_HEADER@ + mcp_tool_lines(mcp_tools@, i as nat),
    {
        let t = &mcp_tools[i];
        s.append("- `");
        s.append(t.name.as_str());
        s.append("`: ");
        s.append(t.description.as_str());
        s.append("\n");
        assert(s@ =~= MCP_TOOLS_HEADER@ + mcp_tool_lines(mcp_tools@, (i + 1) as nat));
    }
    s
}

/// The system prompt for `depth` (0 orchestrator, 1 coordinator, deeper worker);
/// with `flat`, every depth gets the single-level prompt.
pub open spec fn system_prompt_spec(
    depth: nat,
    dir: Seq<char>,
    memory_index: Seq<char>,
    mcp_tools_context: Seq<char>,
    flat: bool,
) -> Seq<char> {
    if flat {
        flat_system_prompt_spec(dir, memory_index, mcp_tools_context)
    } else if depth == 0 {
        orchestrator_system_prompt_spec(dir, memory_index, mcp_tools_context)
    } else if depth == 1 {
        coordinator_system_prompt_spec(dir, mcp_tools_context)
    } else {
        worker_system_prompt_spec(dir, mcp_tools_context)
    }
}

/// Returns the system prompt for a given depth level.
/// When `flat` is true, all depths use the single-level prompt.
pub fn system_prompt_for_depth(
    depth: usize,
    working_dir: &str,
    memory_index: &str,
    mcp_tools_context: &str,
    flat: bool,
) -> (r: String)
    ensures
        r@ == system_prompt_spec(depth as nat, working_dir@, memory_index@, mcp_tools_context@, flat),
{
    if flat {
        flat_system_prompt(working_dir, memory_index, mcp_tools_context)
    } else if depth == 0 {
        orchestrator_system_prompt(working_dir, memory_index, mcp_tools_context)
    } else if depth == 1 {
        coordinator_system_prompt(working_dir, mcp_tools_context)
    } else {
        worker_system_prompt(working_dir, mcp_tools_context)
    }
}

pub const FLAT_0: &'static str = "\
You are a coding AI agent. Working directory: ";

pub const FLAT_1: &'static str = " (sandboxed). 'This' or 'the project' refers to that codebase.
Prefer idiomatic, compact solutions; fix root causes.

Rules:
- For long output (>20 lines), write to a file and return the path + one-sentence summary.
- Use file:line references.
- On error, report clearly — don't loop.
- When fixing a bug or adding a feature, write a failing test first, then implement until it passes.";

pub open spec fn flat_system_prompt_spec(dir: Seq<char>, memory_index: Seq<char>, mcp_tools_context: Seq<char>) -> Seq<char> {
    (FLAT_0@ + dir + FLAT_1@) + memory_section(memory_index) + mcp_section(mcp_tools_context)
}

fn flat_system_prompt(working_dir: &str, memory_index: &str, mcp_tools_context: &str) -> (r: String)
    ensures
        r@ == flat_system_prompt_spec(working_dir@, memory_index@, mcp_tools_context@),
{
    let mut prompt = String::new();
    prompt.append(FLAT_0);
    prompt.append(working_dir);
    prompt.append(FLAT_1);
    append_memory_section(&mut prompt, memory_index);
    append_mcp_section(&mut prompt, mcp_tools_context);
    prompt
}

pub const ORCHESTRATOR_0: &'static str = "\
You are the orchestration layer of a coding AI agent. Working directory: ";

pub const ORCHESTRATOR_1: &'static str = ". 'This' or 'the project' refers to that codebase.
Tools: `read_file`, `list_dir`, `glob_files`, `search_files`, `line_count`, `diff_files` for reading directly (no subagent needed — cheap). `delegate_task` for any work beyond reading (writes, edits, running tests, multi-step analysis). `update_plan` for multi-step work. In Plan/Thorough modes, `interview_question` is available. Call a tool on every turn.

Rules:
- Read files directly with `read_file`/`glob_files`/`search_files` — never delegate a task just to fetch content.
- Split non-trivial work into focused subtasks. Each `delegate_task` prompt is self-contained: file paths, content, exact instructions — subagents have no prior context.
- Don't answer follow-ups from memory; read or delegate a fresh task.
- For long output, tell the subagent to write to a file.
- After delegation, synthesize a 1-3 paragraph answer.
- For bug fixes and new features, have subagents write a failing test first, then implement.

Examples:
- \"Read out.txt\" → read_file(\"out.txt\")
- \"Write 'hello' to out.txt\" → delegate_task(\"Write 'hello' to out.txt\")";

pub open spec fn orchestrator_system_prompt_spec(dir: Seq<char>, memory_index: Seq<char>, mcp_tools_context: Seq<char>) -> Seq<char> {
    (ORCHESTRATOR_0@ + dir + ORCHESTRATOR_1@) + memory_section(memory_index) + mcp_section(mcp_tools_context)
}

fn orchestrator_system_prompt(working_dir: &str, memory_index: &str, mcp_tools_context: &str) -> (r: String)
    ensures
        r@ == orchestrator_system_prompt_spec(working_dir@, memory_index@, mcp_tools_context@),
{
    let mut prompt = String::new();
    prompt.append(ORCHESTRATOR_0);
    prompt.append(working_dir);
    prompt.append(ORCHESTRATOR_1);
    append_memory_section(&mut prompt, memory_index);
    append_mcp_section(&mut prompt, mcp_tools_context);
    prompt
}

pub const COORDINATOR_0: &'static str = "\
You are the coordination layer of a coding AI agent. Working directory: ";

pub const COORDINATOR_1: &'static str = ". 'This' or 'the project' refers to that codebase.
Tools: glob_files, search_files, list_dir, delegate_task.

Rules:
- Search yourself with your own tools — never delegate search or analysis.
- Delegate only for file I/O (read_file, write_file, edit_file), which you lack.
- Return results immediately after search — no re-searching.
- `delegate_task` prompts are self-contained with full file paths.";

pub open spec fn coordinator_system_prompt_spec(dir: Seq<char>, mcp_tools_context: Seq<char>) -> Seq<char> {
    (COORDINATOR_0@ + dir + COORDINATOR_1@) + mcp_section(mcp_tools_context)
}

fn coordinator_system_prompt(working_dir: &str, mcp_tools_context: &str) -> (r: String)
    ensures
        r@ == coordinator_system_prompt_spec(working_dir@, mcp_tools_context@),
{
    let mut prompt = String::new();
    prompt.append(COORDINATOR_0);
    prompt.append(working_dir);
    prompt.append(COORDINATOR_1);
    append_mcp_section(&mut prompt, mcp_tools_context);
    prompt
}

pub const WORKER_0: &'static str = "\
You are the execution layer of a coding AI agent. Working directory: ";

pub const WORKER_1: &'static str = " (sandboxed). 'This' or 'the project' refers to that codebase.
Full file-tool access — complete the task yourself. Write idiomatic, compact code; fix root causes.

Rules:
- Read only what's needed; write/edit only what was asked.
- For long output (>20 lines), write to a file and return the path + one-sentence summary.
- Replies under 500 words. Use file:line references.
- On error, report clearly — don't loop.
- For bug fixes and new features: write a failing test first, then implement.";

pub open spec fn worker_system_prompt_spec(dir: Seq<char>, mcp_tools_context: Seq<char>) -> Seq<char> {
    (WORKER_0@ + dir + WORKER_1@) + mcp_section(mcp_tools_context)
}

fn worker_system_prompt(working_dir: &str, mcp_tools_context: &str) -> (r: String)
    ensures
        r@ == worker_system_prompt_spec(working_dir@, mcp_tools_context@),
{
    let mut prompt = String::new();
    prompt.append(WORKER_0);
    prompt.append(working_dir);
    prompt.append(WORKER_1);
    append_mcp_section(&mut prompt, mcp_tools_context);
    prompt
}


pub const PLAN_PROMPT_APPENDIX: &'static str = "\n\n## Plan mode\n\
write_file, edit_file, replace_lines, append_file, delete_path are DISABLED in plan mode — no file writes.\n\n\
Three phases:\n\
1. **Clarify**: Use `interview_question` to surface scope, constraints, and hidden assumptions. Ask at least one question.\n\
2. **Plan**: Call `update_plan` to publish a concrete task list, then ask for approval.\n\
3. **Execute**: After approval, ask the user to switch to **Thorough** mode (Shift+Tab once) if you may still need to clarify during execution, or **Oneshot** (Shift+Tab twice) to run straight through.\n\n\
If the user replies \"[DONE]\", move to the next phase immediately.";

pub const PLAN_SUBTASK_APPENDIX: &'static str = "\n\n## Plan mode\n\
Plan mode: write_file, edit_file, replace_lines, append_file, delete_path are DISABLED. \
Gather information with read-only tools and report to your parent.";

pub const THOROUGH_PROMPT_APPENDIX: &'static str = "\n\n## Thorough mode\n\
You have `interview_question`. You MUST call it at least once before starting — ask about any real ambiguity or choices with significant impact. \
Don't ask for the sake of asking. If the user replies \"[DONE]\", stop and proceed.";

pub const REVIEW_SKILL_PREAMBLE: &'static str = "[Skill: review]\n\
This turn is a verification pass. The orchestrator does all analysis — read files directly with `read_file`, `glob_files`, `search_files`; no `delegate_task` calls just to fetch content.\n\
- Delegate only for running tests or non-trivial analysis work that requires the full tool set.\n\
- Check correctness: does the implementation do what was asked? Are edge cases and error paths handled?\n\
- Check test coverage: is new/changed behavior covered? Are happy-path and edge-case tests present?\n\
- Cite `file:line` for every finding. If coverage is thin, propose specific missing tests.\n\
- Do NOT refactor in this pass. Note unrelated quality issues briefly with `file:line` references.\n\n\
User's review scope: ";

pub const SIMPLIFY_SKILL_PREAMBLE: &'static str = "[Skill: simplify]\n\
This turn is a refactoring pass to make the code more maintainable and idiomatic.\n\
- Cover: performance (obvious inefficiencies with known better patterns), code reuse (prefer existing utilities over reinventing), idiomatic style, clarity.\n\
- Look for: duplication, dead code, unclear naming, unnecessary abstractions, non-idiomatic patterns, awkward control flow.\n\
- Apply fixes directly with edit tools — don't just describe them. Preserve behavior; don't change semantics.\n\
- Keep each change small and focused. After editing, re-read the result to confirm it still reads cleanly.\n\
- If the code is already clean, say so and stop. Don't invent refactors.\n\n\
User's simplify scope: ";


} // verus!
