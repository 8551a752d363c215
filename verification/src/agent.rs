//! Layered-agent prompts with optional compression ("caveman" levels), tool
//! selection per depth, loop detection and subtask result truncation.
use vstd::prelude::*;

pub mod subtask;
pub mod turn;

use crate::prompts::{append_mcp_section, append_memory_section, mcp_section, memory_section};
use crate::text::{
    extend_chars, chars_eq, chars_of, is_alnum, is_alphanumeric, is_whitespace, is_ws, join_spaces,
    leading_ws_count, leading_ws_len, lines, lines_of, lowercase, push_char, push_chars,
    slice_chars, str_eq, string_from_chars, to_lowercase, trim, trim_chars, words, words_of,
    decimal, push_decimal,
};
use crate::tools::definitions::{interview_question_def, is_def, INTERVIEW_QUESTION_DESCRIPTION, INTERVIEW_QUESTION_SCHEMA};
use crate::types::{AgentMode, CavemanLevel, ToolDefinition};
use std::collections::VecDeque;
use std::hash::{DefaultHasher, Hasher};

pub use crate::prompts::mcp_tools_prompt_section;
pub use crate::tools::selection::is_flat_model;

verus! {

pub const FLAT_0: &'static str = "\
You are a coding AI agent. Working directory: ";

pub const FLAT_1: &'static str = "
You help users write, edit, debug, and understand code. Prefer idiomatic, compact solutions.
You have full tool access. Complete everything yourself — no delegation needed.

## Rules
1. Use read_file, write_file, edit_file, search_files, glob_files, list_dir as needed.
2. For long output (>20 lines), write to a file and return the path + 1-sentence summary.
3. Sandboxed to ";

pub const FLAT_2: &'static str = ".
4. On error, report clearly rather than looping.
5. Return concise summaries. Use file:line references.
6. Think briefly. Act fast.
7. TDD: when fixing bugs or adding features, write a failing test first, run it to confirm failure, implement the fix, then run the test again to verify it passes.";

pub open spec fn flat_system_prompt_spec(dir: Seq<char>, memory_index: Seq<char>, mcp_tools_context: Seq<char>) -> Seq<char> {
    (FLAT_0@ + dir + FLAT_1@ + dir + FLAT_2@) + memory_section(memory_index) + mcp_section(mcp_tools_context)
}

fn flat_system_prompt(working_dir: &str, memory_index: &str, mcp_tools_context: &str) -> (r: String)
    ensures
        r@ == flat_system_prompt_spec(working_dir@, memory_index@, mcp_tools_context@),
{
    let mut prompt = String::new();
    prompt.append(FLAT_0);
    prompt.append(working_dir);
    prompt.append(FLAT_1);
    prompt.append(working_dir);
    prompt.append(FLAT_2);
    append_memory_section(&mut prompt, memory_index);
    append_mcp_section(&mut prompt, mcp_tools_context);
    prompt
}

pub const ORCHESTRATOR_0: &'static str = "\
You are the orchestration layer of a coding AI agent. Working directory: ";

pub const ORCHESTRATOR_1: &'static str = "
You help users write, edit, debug, and understand code. Prefer idiomatic, compact solutions.
Your ONLY tool is `delegate_task`. You MUST call it for EVERY request — no exceptions.
You do NOT have bash, shell, or command execution access. Use only the provided tools.

## Rules
1. Break the goal into focused subtasks. Delegate each via `delegate_task` sequentially.
2. Prompts must be self-contained — sub-agents have no context. Include file paths, content, and exact instructions.
3. For follow-up questions, delegate a fresh task — do NOT answer from memory.
4. For long output (reports, listings, code), tell sub-agents to write results to a file rather than returning inline.
5. After delegation, synthesize a concise answer (1-3 paragraphs).
6. Think briefly. Act fast.
7. TDD: when fixing bugs or adding features, instruct sub-agents to write a failing test first, run it, implement the fix, then run the test again.

## Examples
- User: \"Write hello to out.txt\" → delegate_task(\"Write the text 'hello' to the file out.txt\")
- User: \"Search for pub fn in src/\" → delegate_task(\"Search .rs files under src/ for 'pub fn'. List each function name and file.\")
- User: \"Now count them\" → delegate_task(\"Search .rs files under src/ for 'pub fn'. Return a total count and the top 5 files by count.\")";

pub open spec fn orchestrator_system_prompt_spec(dir: Seq<char>, memory_index: Seq<char>, mcp_tools_context: Seq<char>) -> Seq<char> {
    (ORCHESTRATOR_0@ + dir + ORCHESTRATOR_1@) + memory_section(memory_index) + mcp_section(mcp_tools_context)
}

fn orchestrator_system_prompt(working_dir: &str, memory_index: &str, mcp_tools_context: &str) -> (r: String)
    ensures
        r@ == orchestrator_system_prompt_spec(working_dir@, memory_index@, mcp_tools_context@),
{
    let mut prompt = String::new();
    prompt.append(ORCHESTRATOR_0);
    prompt.append(working_dir);
    prompt.append(ORCHESTRATOR_1);
    append_memory_section(&mut prompt, memory_index);
    append_mcp_section(&mut prompt, mcp_tools_context);
    prompt
}

pub const COORDINATOR_0: &'static str = "\
You are the coordination layer of a coding AI agent. Working directory: ";

pub const COORDINATOR_1: &'static str = "
Tools: glob_files, search_files, list_dir, delegate_task.
You do NOT have bash, shell, or command execution access. Use only the provided tools.

## Rules
1. Search FIRST with your own tools. NEVER delegate search/analysis — do it yourself.
2. Only delegate_task for file I/O (read_file, write_file, edit_file) — you lack those tools.
3. After search_files returns, format and return results immediately. No re-searching or over-thinking.
4. delegate_task prompts must be self-contained with full file paths.
5. Think briefly. Act fast.";

pub open spec fn coordinator_system_prompt_spec(dir: Seq<char>, mcp_tools_context: Seq<char>) -> Seq<char> {
    (COORDINATOR_0@ + dir + COORDINATOR_1@) + mcp_section(mcp_tools_context)
}

fn coordinator_system_prompt(working_dir: &str, mcp_tools_context: &str) -> (r: String)
    ensures
        r@ == coordinator_system_prompt_spec(working_dir@, mcp_tools_context@),
{
    let mut prompt = String::new();
    prompt.append(COORDINATOR_0);
    prompt.append(working_dir);
    prompt.append(COORDINATOR_1);
    append_mcp_section(&mut prompt, mcp_tools_context);
    prompt
}

pub const WORKER_0: &'static str = "\
You are the execution layer of a coding AI agent. Working directory: ";

pub const WORKER_1: &'static str = "
You have full file-tool access. No delegation — complete everything yourself.
Write idiomatic, compact code. Fix root causes, not symptoms.
You do NOT have bash, shell, or command execution access. Use only the provided tools.

## Rules
1. Execute the task completely. Use read_file, write_file, edit_file, search_files as needed.
2. Read only what is necessary; write/edit only what is asked.
3. Sandboxed to ";

pub const WORKER_2: &'static str = ".
4. On error, report clearly rather than looping.
5. For long output (>20 lines), write to a file and return the path + 1-sentence summary.
6. Return concise summaries (under 500 words). Use file:line references.
7. TDD: when fixing bugs or adding features, write a failing test first, run it to confirm failure, implement the fix, then run the test again to verify it passes.";

pub open spec fn worker_system_prompt_spec(dir: Seq<char>, mcp_tools_context: Seq<char>) -> Seq<char> {
    (WORKER_0@ + dir + WORKER_1@ + dir + WORKER_2@) + mcp_section(mcp_tools_context)
}

fn worker_system_prompt(working_dir: &str, mcp_tools_context: &str) -> (r: String)
    ensures
        r@ == worker_system_prompt_spec(working_dir@, mcp_tools_context@),
{
    let mut prompt = String::new();
    prompt.append(WORKER_0);
    prompt.append(working_dir);
    prompt.append(WORKER_1);
    prompt.append(working_dir);
    prompt.append(WORKER_2);
    append_mcp_section(&mut prompt, mcp_tools_context);
    prompt
}


pub const PLAN_PROMPT_APPENDIX: &'static str = "\n\n## Plan mode\n\
You have the `interview_question` tool and you MUST use it before taking any action.\n\
Your workflow has three mandatory phases:\n\
1. **Clarify**: Ask probing questions via `interview_question` to fully understand scope, constraints, \
edge cases, and preferences. Do not skip this even if the request seems clear — surface hidden assumptions. \
Ask at least one question.\n\
2. **Plan**: After the user answers, present a concrete numbered plan of what you will do. \
Ask for approval or changes before you proceed.\n\
3. **Execute**: Only after explicit user approval, carry out the plan.\n\
If the user answers \"[DONE]\", move to the next phase immediately.";

pub const THOROUGH_PROMPT_APPENDIX: &'static str = "\n\n## Thorough mode\n\
You have the `interview_question` tool. You MUST call it at least once before doing any work — \
ask about any ambiguity, unclear requirements, or choices with significant implementation impact. \
Do not default to assumptions when you could ask. Prefer asking over guessing. \
If the user answers \"[DONE]\", stop asking and proceed.";

pub const CAVEMAN_LITE: &'static str = "\n\n## Output style: concise\n\
Remove filler words, pleasantries, and hedging. Keep grammar intact. \
No \"just\", \"really\", \"basically\", \"I think\". \
Be direct. Code unchanged.";

pub const CAVEMAN_FULL: &'static str = "\n\n## Output style: caveman\n\
Terse. Fragments OK. Drop articles (the/a/an), filler, pleasantries, hedging. \
Short synonyms. Code/URLs/commands unchanged. \
Pattern: [thing] [action] [reason]. [next step].";

pub const CAVEMAN_ULTRA: &'static str = "\n\n## Output style: ultra-terse\n\
Max compress. Telegraphic. No articles/filler/hedge. \
Abbrev when unambiguous. Code unchanged. \
Pattern: [thing] [verb] [why]. [next].";


/// The output-style appendix for a caveman level (empty when off).
pub open spec fn caveman_appendix_spec(level: CavemanLevel) -> Seq<char> {
    match level {
        CavemanLevel::Off => Seq::empty(),
        CavemanLevel::Lite => CAVEMAN_LITE@,
        CavemanLevel::Full => CAVEMAN_FULL@,
        CavemanLevel::Ultra => CAVEMAN_ULTRA@,
    }
}

pub fn caveman_appendix(level: CavemanLevel) -> (r: &'static str)
    ensures
        r@ == caveman_appendix_spec(level),
{
    proof {
        reveal_strlit("");
    }
    match level {
        CavemanLevel::Off => "",
        CavemanLevel::Lite => CAVEMAN_LITE,
        CavemanLevel::Full => CAVEMAN_FULL,
        CavemanLevel::Ultra => CAVEMAN_ULTRA,
    }
}

// ---------------------------------------------------------------------------
// Filler words
// ---------------------------------------------------------------------------

/// `s` without leading characters that are not alphanumeric.
pub open spec fn trim_start_non_alnum(s: Seq<char>) -> Seq<char>
    decreases s.len(),
{
    if s.len() > 0 && !is_alnum(s[0]) {
        trim_start_non_alnum(s.skip(1))
    } else {
        s
    }
}

/// `s` without trailing characters that are not alphanumeric.
pub open spec fn trim_end_non_alnum(s: Seq<char>) -> Seq<char>
    decreases s.len(),
{
    if s.len() > 0 && !is_alnum(s.last()) {
        trim_end_non_alnum(s.drop_last())
    } else {
        s
    }
}

/// The word as compared against the filler list: lowercased, punctuation trimmed.
pub open spec fn filler_key(w: Seq<char>) -> Seq<char> {
    trim_end_non_alnum(trim_start_non_alnum(lowercase(w)))
}

/// Articles and filler words dropped by compression.
pub open spec fn is_filler(k: Seq<char>) -> bool {
    ||| k == "the"@
    ||| k == "a"@
    ||| k == "an"@
    ||| k == "just"@
    ||| k == "really"@
    ||| k == "basically"@
    ||| k == "simply"@
    ||| k == "actually"@
    ||| k == "very"@
    ||| k == "quite"@
    ||| k == "perhaps"@
    ||| k == "please"@
}

/// The words of `ws` that are not filler, in order.
pub open spec fn kept_words(ws: Seq<Seq<char>>) -> Seq<Seq<char>>
    decreases ws.len(),
{
    if ws.len() == 0 {
        Seq::empty()
    } else {
        let p = kept_words(ws.drop_last());
        if is_filler(filler_key(ws.last())) {
            p
        } else {
            p.push(ws.last())
        }
    }
}

/// A line without its filler words: leading whitespace kept, the remaining
/// words joined by single spaces.
pub open spec fn strip_filler_spec(line: Seq<char>) -> Seq<char> {
    let lead = leading_ws_len(line);
    line.take(lead as int) + join_spaces(kept_words(words(line.skip(lead as int))))
}

fn trim_non_alnum(v: &Vec<char>) -> (r: Vec<char>)
    ensures
        r@ == trim_end_non_alnum(trim_start_non_alnum(v@)),
{
    let mut i: usize = 0;
    assert(v@.skip(0) =~= v@);
    while i < v.len() && !is_alphanumeric(v[i])
        invariant
            i <= v@.len(),
            trim_start_non_alnum(v@) == trim_start_non_alnum(v@.skip(i as int)),
        decreases v@.len() - i,
    {
        assert(v@.skip(i as int).skip(1) =~= v@.skip(i + 1));
        i += 1;
    }
    let a = slice_chars(v, i, v.len());
    assert(a@ =~= v@.skip(i as int));
    let mut j: usize = a.len();
    assert(a@.take(j as int) =~= a@);
    while j > 0 && !is_alphanumeric(a[j - 1])
        invariant
            j <= a@.len(),
            trim_end_non_alnum(a@) == trim_end_non_alnum(a@.take(j as int)),
        decreases j,
    {
        assert(a@.take(j as int).drop_last() =~= a@.take(j - 1));
        j -= 1;
    }
    let r = slice_chars(&a, 0, j);
    assert(r@ =~= a@.take(j as int));
    r
}

fn eq_lit(k: &Vec<char>, lit: &str) -> (r: bool)
    ensures
        r == (k@ == lit@),
{
    chars_eq(k, &chars_of(lit))
}

fn is_filler_exec(k: &Vec<char>) -> (r: bool)
    ensures
        r == is_filler(k@),
{
    eq_lit(k, "the") || eq_lit(k, "a") || eq_lit(k, "an") || eq_lit(k, "just") || eq_lit(
        k,
        "really",
    ) || eq_lit(k, "basically") || eq_lit(k, "simply") || eq_lit(k, "actually") || eq_lit(
        k,
        "very",
    ) || eq_lit(k, "quite") || eq_lit(k, "perhaps") || eq_lit(k, "please")
}

/// Drops articles and filler words from a line.
pub fn strip_filler_words(line: &Vec<char>) -> (r: Vec<char>)
    ensures
        r@ == strip_filler_spec(line@),
{
    let lead = leading_ws_count(line);
    let mut result = slice_chars(line, 0, lead);
    let content = slice_chars(line, lead, line.len());
    proof {
        assert(content@ =~= line@.skip(lead as int));
        assert(result@ =~= line@.take(lead as int));
    }
    let ws = words_of(&content);
    let ghost wsv = words(content@);
    let ghost head = result@;
    let mut kept: usize = 0;
    let n = ws.len();
    proof {
        assert(wsv.take(0) =~= Seq::<Seq<char>>::empty());
        assert(head + Seq::<char>::empty() =~= head);
    }
    for i in 0..n
        invariant
            n == wsv.len(),
            ws@.len() == wsv.len(),
            forall|q: int| 0 <= q < ws@.len() ==> (#[trigger] ws@[q])@ == wsv[q],
            kept == kept_words(wsv.take(i as int)).len(),
            kept <= i,
            result@ == head + join_spaces(kept_words(wsv.take(i as int))),
    {
        let w = &ws[i];
        let ws_str = string_from_chars(w);
        let lower = to_lowercase(ws_str.as_str());
        let key = trim_non_alnum(&chars_of(lower.as_str()));
        proof {
            assert(wsv.take(i + 1).drop_last() =~= wsv.take(i as int));
            assert(wsv.take(i + 1).last() == wsv[i as int]);
        }
        if !is_filler_exec(&key) {
            let ghost before = result@;
            if kept > 0 {
                result.push(' ');
            }
            extend_chars(&mut result, w);
            proof {
                let kw = kept_words(wsv.take(i as int));
                assert(kept_words(wsv.take(i + 1)) == kw.push(wsv[i as int]));
                if kw.len() > 0 {
                    assert(kw.push(wsv[i as int]).drop_last() =~= kw);
                    assert(result@ =~= head + join_spaces(kw.push(wsv[i as int])));
                } else {
                    assert(join_spaces(kw) =~= Seq::<char>::empty());
                    assert(result@ =~= head + join_spaces(kw.push(wsv[i as int])));
                }
            }
            kept = kept + 1;
        }
    }
    proof {
        assert(wsv.take(n as int) =~= wsv);
    }
    result
}

// ---------------------------------------------------------------------------
// Prompt compression
// ---------------------------------------------------------------------------

/// A line is blank when nothing but whitespace is on it.
pub open spec fn is_blank(line: Seq<char>) -> bool {
    trim(line).len() == 0
}

/// Lite compression over lines: runs of blank lines become one empty line.
/// Returns the text so far and whether the last line read was blank.
pub open spec fn lite_acc(ls: Seq<Seq<char>>) -> (Seq<char>, bool)
    decreases ls.len(),
{
    if ls.len() == 0 {
        (Seq::empty(), false)
    } else {
        let (r, prev_blank) = lite_acc(ls.drop_last());
        let line = ls.last();
        if is_blank(line) {
            if !prev_blank {
                (r.push('\n'), true)
            } else {
                (r, true)
            }
        } else {
            (r + line + seq!['\n'], false)
        }
    }
}

/// Full compression over lines: blank runs collapse as in lite, filler words
/// are dropped from every other line.
pub open spec fn full_acc(ls: Seq<Seq<char>>) -> (Seq<char>, bool)
    decreases ls.len(),
{
    if ls.len() == 0 {
        (Seq::empty(), false)
    } else {
        let (r, prev_blank) = full_acc(ls.drop_last());
        let line = ls.last();
        if is_blank(line) {
            if !prev_blank {
                (r.push('\n'), true)
            } else {
                (r, true)
            }
        } else {
            let r2 = if prev_blank {
                r.push('\n')
            } else {
                r
            };
            (r2 + strip_filler_spec(line) + seq!['\n'], false)
        }
    }
}

/// Ultra compression over lines: blank lines go, every other line is trimmed
/// and stripped of filler; lines left empty go too.
pub open spec fn ultra_acc(ls: Seq<Seq<char>>) -> Seq<char>
    decreases ls.len(),
{
    if ls.len() == 0 {
        Seq::empty()
    } else {
        let r = ultra_acc(ls.drop_last());
        let line = ls.last();
        if is_blank(line) {
            r
        } else {
            let t = trim(strip_filler_spec(trim(line)));
            if t.len() == 0 {
                r
            } else {
                r + t + seq!['\n']
            }
        }
    }
}

/// A prompt compressed at the given level.
pub open spec fn compress_spec(prompt: Seq<char>, level: CavemanLevel) -> Seq<char> {
    match level {
        CavemanLevel::Off => prompt,
        CavemanLevel::Lite => lite_acc(lines(prompt)).0,
        CavemanLevel::Full => full_acc(lines(prompt)).0,
        CavemanLevel::Ultra => ultra_acc(lines(prompt)),
    }
}

/// Compresses a system prompt by removing filler according to the caveman level.
pub fn compress_prompt(prompt: &str, level: CavemanLevel) -> (r: String)
    ensures
        r@ == compress_spec(prompt@, level),
{
    match level {
        CavemanLevel::Off => prompt.to_owned(),
        _ => {
            let pc = chars_of(prompt);
            let ls = lines_of(&pc);
            let ghost lsv = lines(prompt@);
            let n = ls.len();
            let mut result: Vec<char> = Vec::new();
            let mut prev_blank = false;
            proof {
                assert(lsv.take(0) =~= Seq::<Seq<char>>::empty());
            }
            for i in 0..n
                invariant
                    n == lsv.len(),
                    ls@.len() == lsv.len(),
                    forall|q: int| 0 <= q < ls@.len() ==> (#[trigger] ls@[q])@ == lsv[q],
                    level != CavemanLevel::Off,
                    level == CavemanLevel::Lite ==> (result@, prev_blank) == lite_acc(
                        lsv.take(i as int),
                    ),
                    level == CavemanLevel::Full ==> (result@, prev_blank) == full_acc(
                        lsv.take(i as int),
                    ),
                    level == CavemanLevel::Ultra ==> result@ == ultra_acc(lsv.take(i as int)),
            {
                proof {
                    assert(lsv.take(i + 1).drop_last() =~= lsv.take(i as int));
                    assert(lsv.take(i + 1).last() == lsv[i as int]);
                }
                let line = &ls[i];
                let trimmed = trim_chars(line);
                let blank = trimmed.len() == 0;
                match level {
                    CavemanLevel::Lite => {
                        if blank {
                            if !prev_blank {
                                result.push('\n');
                                prev_blank = true;
                            }
                        } else {
                            prev_blank = false;
                            extend_chars(&mut result, line);
                            result.push('\n');
                        }
                    },
                    CavemanLevel::Full => {
                        if blank {
                            if !prev_blank {
                                result.push('\n');
                                prev_blank = true;
                            }
                        } else {
                            if prev_blank {
                                result.push('\n');
                            }
                            prev_blank = false;
                            let stripped = strip_filler_words(line);
                            extend_chars(&mut result, &stripped);
                            result.push('\n');
                        }
                    },
                    _ => {
                        if !blank {
                            let stripped = strip_filler_words(&trimmed);
                            let t = trim_chars(&stripped);
                            if t.len() > 0 {
                                extend_chars(&mut result, &t);
                                result.push('\n');
                            }
                        }
                    },
                }
            }
            proof {
                assert(lsv.take(n as int) =~= lsv);
            }
            string_from_chars(&result)
        },
    }
}

// ---------------------------------------------------------------------------
// Prompts by depth
// ---------------------------------------------------------------------------

/// The uncompressed prompt for `depth`; `flat` gives every depth the single-level prompt.
pub open spec fn base_prompt_spec(
    depth: nat,
    dir: Seq<char>,
    memory_index: Seq<char>,
    mcp_tools_context: Seq<char>,
    flat: bool,
) -> Seq<char> {
    if flat {
        flat_system_prompt_spec(dir, memory_index, mcp_tools_context)
    } else if depth == 0 {
        orchestrator_system_prompt_spec(dir, memory_index, mcp_tools_context)
    } else if depth == 1 {
        coordinator_system_prompt_spec(dir, mcp_tools_context)
    } else {
        worker_system_prompt_spec(dir, mcp_tools_context)
    }
}

/// The prompt for `depth`, compressed and given the output-style appendix
/// when a caveman level is active.
pub open spec fn system_prompt_spec(
    depth: nat,
    dir: Seq<char>,
    memory_index: Seq<char>,
    mcp_tools_context: Seq<char>,
    flat: bool,
    caveman: CavemanLevel,
) -> Seq<char> {
    let base = base_prompt_spec(depth, dir, memory_index, mcp_tools_context, flat);
    if caveman == CavemanLevel::Off {
        base
    } else {
        compress_spec(base, caveman) + caveman_appendix_spec(caveman)
    }
}

/// Returns the system prompt for a given depth level.
/// When `flat` is true, all depths use the single-level prompt.
pub fn system_prompt_for_depth(
    depth: usize,
    working_dir: &str,
    memory_index: &str,
    mcp_tools_context: &str,
    flat: bool,
    caveman: CavemanLevel,
) -> (r: String)
    ensures
        r@ == system_prompt_spec(
            depth as nat,
            working_dir@,
            memory_index@,
            mcp_tools_context@,
            flat,
            caveman,
        ),
{
    let mut prompt = if flat {
        flat_system_prompt(working_dir, memory_index, mcp_tools_context)
    } else if depth == 0 {
        orchestrator_system_prompt(working_dir, memory_index, mcp_tools_context)
    } else if depth == 1 {
        coordinator_system_prompt(working_dir, mcp_tools_context)
    } else {
        worker_system_prompt(working_dir, mcp_tools_context)
    };
    if caveman.is_active() {
        prompt = compress_prompt(prompt.as_str(), caveman);
        prompt.append(caveman_appendix(caveman));
    }
    prompt
}

// ---------------------------------------------------------------------------
// Tools by depth
// ---------------------------------------------------------------------------

/// Tools the coordinator (depth 1) keeps.
pub open spec fn is_coordinator_tool(name: Seq<char>) -> bool {
    ||| name == "delegate_task"@
    ||| name == "glob_files"@
    ||| name == "search_files"@
    ||| name == "list_dir"@
}

/// Whether a tool named `name` is offered at `depth` in the three-layer scheme.
pub open spec fn offered_at(name: Seq<char>, depth: nat, flat: bool) -> bool {
    if flat {
        name != "delegate_task"@
    } else if depth == 0 {
        name == "delegate_task"@
    } else if depth == 1 {
        is_coordinator_tool(name)
    } else {
        name != "delegate_task"@
    }
}

/// The tools among `ts` offered at `depth`, in order.
pub open spec fn offered_tools(ts: Seq<ToolDefinition>, depth: nat, flat: bool) -> Seq<ToolDefinition>
    decreases ts.len(),
{
    if ts.len() == 0 {
        Seq::empty()
    } else {
        let p = offered_tools(ts.drop_last(), depth, flat);
        if offered_at(ts.last().name@, depth, flat) {
            p.push(ts.last())
        } else {
            p
        }
    }
}

/// Filter the full tool set to the subset appropriate for a given depth.
/// depth 0 (orchestrator): only `delegate_task`; depth 1 (coordinator):
/// `delegate_task` and navigation tools; deeper (worker): all but
/// `delegate_task`. When `flat`, every depth gets the worker tools.
/// Plan and thorough modes add `interview_question` at depth 0.
pub fn tools_for_depth(all_tools: &[ToolDefinition], depth: usize, flat: bool, mode: AgentMode) -> (r: Vec<ToolDefinition>)
    ensures
        ({
            let base = offered_tools(all_tools@, depth as nat, flat);
            if (mode == AgentMode::Plan || mode == AgentMode::Thorough) && depth == 0 {
                &&& r@.len() == base.len() + 1
                &&& r@.take(base.len() as int) == base
                &&& is_def(
                    r@[base.len() as int],
                    "interview_question"@,
                    INTERVIEW_QUESTION_DESCRIPTION@,
                    INTERVIEW_QUESTION_SCHEMA@,
                )
            } else {
                r@ == base
            }
        }),
{
    let mut tools: Vec<ToolDefinition> = Vec::new();
    let n = all_tools.len();
    for i in 0..n
        invariant
            n == all_tools@.len(),
            tools@ == offered_tools(all_tools@.take(i as int), depth as nat, flat),
    {
        let t = &all_tools[i];
        let name = t.name.as_str();
        let keep = if flat {
            !str_eq(name, "delegate_task")
        } else if depth == 0 {
            str_eq(name, "delegate_task")
        } else if depth == 1 {
            str_eq(name, "delegate_task") || str_eq(name, "glob_files") || str_eq(
                name,
                "search_files",
            ) || str_eq(name, "list_dir")
        } else {
            !str_eq(name, "delegate_task")
        };
        assert(all_tools@.take(i + 1).drop_last() =~= all_tools@.take(i as int));
        assert(all_tools@.take(i + 1).last() == all_tools@[i as int]);
        if keep {
            tools.push(t.duplicate());
        }
    }
    assert(all_tools@.take(n as int) =~= all_tools@);
    let ghost base = tools@;
    if (mode == AgentMode::Plan || mode == AgentMode::Thorough) && depth == 0 {
        tools.push(interview_question_def());
        assert(tools@.take(base.len() as int) =~= base);
    }
    tools
}

// ---------------------------------------------------------------------------
// Loop detection
// ---------------------------------------------------------------------------

/// What a text's fingerprint feeds the hasher: each word's UTF-8 bytes
/// followed by a `0xff` byte (which never occurs in UTF-8), so that word
/// boundaries are part of the digest.
pub open spec fn hashed_writes(words: Seq<Seq<char>>) -> Seq<Seq<u8>>
    decreases words.len(),
{
    if words.len() == 0 {
        Seq::empty()
    } else {
        hashed_writes(words.drop_last()).push(vstd::utf8::encode_utf8(words.last())).push(
            seq![0xffu8],
        )
    }
}

/// Fingerprint of a text: its whitespace-separated words, hashed, so that
/// texts differing only in spacing get the same fingerprint.
pub open spec fn fingerprint_spec(text: Seq<char>) -> u64 {
    <DefaultHasher as vstd::std_specs::hash::DefaultHasherAdditionalSpecFns>::spec_finish(
        hashed_writes(words(text)),
    )
}

pub fn text_fingerprint(text: &str) -> (r: u64)
    ensures
        r == fingerprint_spec(text@),
{
    let cs = chars_of(text);
    let ws = words_of(&cs);
    let ghost wv = words(cs@);
    let mut hasher = DefaultHasher::new();
    let n = ws.len();
    let sep: [u8; 1] = [0xff];
    for i in 0..n
        invariant
            n == ws@.len(),
            ws@.len() == wv.len(),
            forall|q: int| 0 <= q < ws@.len() ==> (#[trigger] ws@[q])@ == wv[q],
            hasher@ == hashed_writes(wv.take(i as int)),
            sep@ == seq![0xffu8],
    {
        let w = string_from_chars(&ws[i]);
        hasher.write(w.as_str().as_bytes());
        hasher.write(sep.as_slice());
        assert(wv.take(i + 1).drop_last() =~= wv.take(i as int));
    }
    assert(wv.take(n as int) =~= wv);
    hasher.finish()
}

/// `Some(fingerprint)` when the (trimmed, non-empty) text was already seen in the window.
pub open spec fn repeated_spec(text: Seq<char>, window: Seq<u64>) -> Option<u64> {
    let t = trim(text);
    if t.len() == 0 {
        None
    } else if window.contains(fingerprint_spec(t)) {
        Some(fingerprint_spec(t))
    } else {
        None
    }
}

/// Returns Some(fingerprint) if the text was already seen in the window.
pub fn check_repeated_text(text: &str, window: &VecDeque<u64>) -> (r: Option<u64>)
    ensures
        r == repeated_spec(text@, window@),
{
    let cs = chars_of(text);
    let t = trim_chars(&cs);
    if t.len() == 0 {
        return None;
    }
    let ts = string_from_chars(&t);
    let fp = text_fingerprint(ts.as_str());
    let n = window.len();
    for i in 0..n
        invariant
            n == window@.len(),
            forall|q: int| 0 <= q < i ==> window@[q] != fp,
            fp == fingerprint_spec(trim(text@)),
            trim(text@).len() > 0,
    {
        if window[i] == fp {
            assert(window@[i as int] == fp);
            assert(window@.contains(fp));
            return Some(fp);
        }
    }
    assert(!window@.contains(fp));
    None
}

// ---------------------------------------------------------------------------
// Subtask results
// ---------------------------------------------------------------------------

pub const TRUNCATION_OPEN: &'static str = "\n\n[truncated: ";

pub const TRUNCATION_MIDDLE: &'static str = " chars total, showing first ";

pub const TRUNCATION_CLOSE: &'static str = "]";

/// A subtask result cut to its first `max_chars` characters, with a note
/// giving the total; results that fit are returned unchanged.
pub open spec fn truncate_spec(s: Seq<char>, max_chars: nat) -> Seq<char> {
    if s.len() <= max_chars {
        s
    } else {
        s.take(max_chars as int) + TRUNCATION_OPEN@ + decimal(s.len()) + TRUNCATION_MIDDLE@
            + decimal(max_chars) + TRUNCATION_CLOSE@
    }
}

pub fn truncate_subtask_result(s: String, max_chars: usize) -> (r: String)
    ensures
        r@ == truncate_spec(s@, max_chars as nat),
{
    let cs = chars_of(s.as_str());
    if cs.len() <= max_chars {
        return s;
    }
    let head = slice_chars(&cs, 0, max_chars);
    let mut r = string_from_chars(&head);
    r.append(TRUNCATION_OPEN);
    push_decimal(&mut r, cs.len());
    r.append(TRUNCATION_MIDDLE);
    push_decimal(&mut r, max_chars);
    r.append(TRUNCATION_CLOSE);
    proof {
        assert(head@ =~= s@.take(max_chars as int));
    }
    r
}

/// What the user asks the agent task to do.
pub enum UserAction {
    SendMessage { text: String, images: Vec<String>, mode: AgentMode },
    Cancel,
    Quit,
    ClearHistory,
    ChangeModel(String),
    ToggleFlat(bool),
    SetCaveman(CavemanLevel),
}

} // verus!
