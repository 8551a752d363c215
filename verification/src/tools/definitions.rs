//! Definitions of the built-in tools offered to the model.
use vstd::prelude::*;

use crate::ollama::stream::{json_parse, parse_json};
use crate::types::{json_null, ToolDefinition, ToolSource};

verus! {

/// A built-in tool definition whose parameters are the JSON schema `schema`.
fn make_def(name: &str, description: &str, schema: &str) -> (r: ToolDefinition)
    ensures
        r.name@ == name@,
        r.description@ == description@,
        r.source == ToolSource::BuiltIn,
        json_parse(schema@) matches Some(v) ==> r.parameters == v,
{
    let parameters = match parse_json(schema) {
        Some(v) => v,
        None => json_null(),
    };
    ToolDefinition {
        name: name.to_owned(),
        description: description.to_owned(),
        parameters,
        source: ToolSource::BuiltIn,
    }
}

/// `d` is the built-in definition with the given name, description and schema.
pub open spec fn is_def(d: ToolDefinition, name: Seq<char>, description: Seq<char>, schema: Seq<char>) -> bool {
    &&& d.name@ == name
    &&& d.description@ == description
    &&& d.source == ToolSource::BuiltIn
    &&& json_parse(schema) matches Some(v) ==> d.parameters == v
}

pub const DELEGATE_TASK_DESCRIPTION: &'static str = "\
Delegate a focused subtask to an isolated sub-agent running in its own fresh context window. \
The sub-agent has NO access to the current conversation history — include all necessary context \
in the prompt. It runs to completion and returns one distilled answer. \
Use when a subtask would generate excessive intermediate output (many reads, searches, etc.) \
that would pollute the current context, or when focused specialization is needed. \
Do NOT use for trivial single-step operations.";

pub const DELEGATE_TASK_SCHEMA: &'static str = "{\"type\":\"object\",\"properties\":{\"prompt\":{\"type\":\"string\",\"description\":\"Complete, self-contained task description. Include every file path, line range, and context the sub-agent needs. The sub-agent cannot see your conversation history.\"},\"system_prompt\":{\"type\":\"string\",\"description\":\"Optional extra instructions appended to the sub-agent's system prompt. The base prompt (sandbox rules, tool docs) is always auto-computed \\u2014 this adds your specialization on top.\"}},\"required\":[\"prompt\"]}";

pub const INTERVIEW_QUESTION_DESCRIPTION: &'static str = "Ask the user a clarifying question with suggested answers. \
Use when you encounter genuine ambiguity, unclear requirements, or need the user to decide \
something with significant implementation impact. The user can pick a suggestion or type their own answer.";

pub const INTERVIEW_QUESTION_SCHEMA: &'static str = "{\"type\":\"object\",\"properties\":{\"question\":{\"type\":\"string\",\"description\":\"The question to ask the user\"},\"suggestions\":{\"type\":\"array\",\"items\":{\"type\":\"string\"},\"description\":\"2-5 suggested answers for the user to choose from\"}},\"required\":[\"question\",\"suggestions\"]}";

pub const READ_FILE_DESCRIPTION: &'static str = "Read the UTF-8 content of a file. Returns numbered lines. Use start_line/end_line to read specific ranges for large files.";

pub const READ_FILE_SCHEMA: &'static str = "{\"type\":\"object\",\"properties\":{\"path\":{\"type\":\"string\",\"description\":\"Relative or absolute path to read\"},\"start_line\":{\"type\":\"integer\",\"description\":\"First line to read (1-based, inclusive). Omit to start from beginning.\"},\"end_line\":{\"type\":\"integer\",\"description\":\"Last line to read (1-based, inclusive). Omit to read to end.\"}},\"required\":[\"path\"]}";

pub const WRITE_FILE_DESCRIPTION: &'static str = "Write content to a file, creating parent directories as needed.";

pub const WRITE_FILE_SCHEMA: &'static str = "{\"type\":\"object\",\"properties\":{\"path\":{\"type\":\"string\",\"description\":\"Path to write\"},\"content\":{\"type\":\"string\",\"description\":\"File content\"}},\"required\":[\"path\",\"content\"]}";

pub const LIST_DIR_DESCRIPTION: &'static str = "List contents of a directory. depth=0 (default) lists immediate children only; depth>0 recurses that many levels. Max depth 10. Shows file size and modified time.";

pub const LIST_DIR_SCHEMA: &'static str = "{\"type\":\"object\",\"properties\":{\"path\":{\"type\":\"string\",\"description\":\"Directory to list\"},\"depth\":{\"type\":\"integer\",\"description\":\"How many levels to recurse (0 = immediate only, max 10)\"}},\"required\":[\"path\"]}";

pub const EDIT_FILE_DESCRIPTION: &'static str = "Edit a file by replacing an exact substring match. By default old_string must match exactly once. Set replace_all=true to replace every occurrence.";

pub const EDIT_FILE_SCHEMA: &'static str = "{\"type\":\"object\",\"properties\":{\"path\":{\"type\":\"string\",\"description\":\"Path to the file to edit\"},\"old_string\":{\"type\":\"string\",\"description\":\"Exact substring to find\"},\"new_string\":{\"type\":\"string\",\"description\":\"Replacement string\"},\"replace_all\":{\"type\":\"boolean\",\"description\":\"If true, replace all occurrences (default false)\"}},\"required\":[\"path\",\"old_string\",\"new_string\"]}";

pub const SEARCH_FILES_DESCRIPTION: &'static str = "Recursively search files for a pattern. Set is_regex=true to use a regular expression. Returns filename:line:content, max 100 matches.";

pub const SEARCH_FILES_SCHEMA: &'static str = "{\"type\":\"object\",\"properties\":{\"pattern\":{\"type\":\"string\",\"description\":\"String or regex pattern to search for\"},\"path\":{\"type\":\"string\",\"description\":\"Directory to search in\"},\"is_regex\":{\"type\":\"boolean\",\"description\":\"Treat pattern as a regex (default false)\"}},\"required\":[\"pattern\",\"path\"]}";

pub const REPLACE_LINES_DESCRIPTION: &'static str = "Replace a range of lines in a file with new content. Lines are 1-based, inclusive.";

pub const REPLACE_LINES_SCHEMA: &'static str = "{\"type\":\"object\",\"properties\":{\"path\":{\"type\":\"string\",\"description\":\"Path to the file\"},\"start_line\":{\"type\":\"integer\",\"description\":\"First line to replace (1-based)\"},\"end_line\":{\"type\":\"integer\",\"description\":\"Last line to replace (1-based, inclusive)\"},\"new_content\":{\"type\":\"string\",\"description\":\"Replacement text (replaces the specified line range)\"}},\"required\":[\"path\",\"start_line\",\"end_line\",\"new_content\"]}";

pub const DIFF_FILES_DESCRIPTION: &'static str = "Show a unified diff between two files.";

pub const DIFF_FILES_SCHEMA: &'static str = "{\"type\":\"object\",\"properties\":{\"path_a\":{\"type\":\"string\",\"description\":\"First file\"},\"path_b\":{\"type\":\"string\",\"description\":\"Second file\"}},\"required\":[\"path_a\",\"path_b\"]}";

pub const APPEND_FILE_DESCRIPTION: &'static str = "Append content to the end of a file (creates the file if it doesn't exist).";

pub const APPEND_FILE_SCHEMA: &'static str = "{\"type\":\"object\",\"properties\":{\"path\":{\"type\":\"string\",\"description\":\"Path to the file\"},\"content\":{\"type\":\"string\",\"description\":\"Content to append\"}},\"required\":[\"path\",\"content\"]}";

pub const DELETE_PATH_DESCRIPTION: &'static str = "Delete a file or empty directory.";

pub const DELETE_PATH_SCHEMA: &'static str = "{\"type\":\"object\",\"properties\":{\"path\":{\"type\":\"string\",\"description\":\"Path to delete\"}},\"required\":[\"path\"]}";

pub const GLOB_FILES_DESCRIPTION: &'static str = "Find files matching a glob pattern (e.g. '**/*.rs', 'src/*.txt'). Returns matching paths relative to the working directory. Max 200 results.";

pub const GLOB_FILES_SCHEMA: &'static str = "{\"type\":\"object\",\"properties\":{\"pattern\":{\"type\":\"string\",\"description\":\"Glob pattern to match\"},\"path\":{\"type\":\"string\",\"description\":\"Base directory for the search (default '.')\"}},\"required\":[\"pattern\"]}";

pub const REMEMBER_DESCRIPTION: &'static str = "Store or update a persistent memory. Use to save knowledge across sessions.";

pub const REMEMBER_SCHEMA: &'static str = "{\"type\":\"object\",\"properties\":{\"name\":{\"type\":\"string\",\"description\":\"Short name for this memory\"},\"content\":{\"type\":\"string\",\"description\":\"The knowledge to remember\"},\"description\":{\"type\":\"string\",\"description\":\"One-line description of what this memory contains\"},\"tags\":{\"type\":\"array\",\"items\":{\"type\":\"string\"},\"description\":\"Optional tags for categorization\"}},\"required\":[\"name\",\"content\"]}";

pub const RECALL_DESCRIPTION: &'static str = "Search stored memories by keyword. Returns matching memories with their content.";

pub const RECALL_SCHEMA: &'static str = "{\"type\":\"object\",\"properties\":{\"keyword\":{\"type\":\"string\",\"description\":\"Search term to find in memory names, descriptions, tags, and content\"}},\"required\":[\"keyword\"]}";

pub const FORGET_DESCRIPTION: &'static str = "Delete a stored memory by name.";

pub const FORGET_SCHEMA: &'static str = "{\"type\":\"object\",\"properties\":{\"name\":{\"type\":\"string\",\"description\":\"Name of the memory to delete\"}},\"required\":[\"name\"]}";

pub const LIST_MEMORIES_DESCRIPTION: &'static str = "List all stored memories with their names and descriptions.";

pub const LIST_MEMORIES_SCHEMA: &'static str = "{\"type\":\"object\",\"properties\":{}}";

pub const LINE_COUNT_DESCRIPTION: &'static str = "Count lines in files recursively. Returns files sorted by line count descending, plus a total. Skips hidden files and build dirs.";

pub const LINE_COUNT_SCHEMA: &'static str = "{\"type\":\"object\",\"properties\":{\"path\":{\"type\":\"string\",\"description\":\"Directory to scan (default '.')\"},\"extensions\":{\"type\":\"array\",\"items\":{\"type\":\"string\"},\"description\":\"Filter by file extensions, e.g. [\\\"rs\\\", \\\"toml\\\"]. Omit for all files.\"}},\"required\":[]}";

pub const READ_IMAGE_DESCRIPTION: &'static str = "Read an image file and load it into the LLM's vision context. Supports PNG, JPG, GIF, WEBP. Returns a confirmation; the image is attached to the message so the model can see it.";

pub const READ_IMAGE_SCHEMA: &'static str = "{\"type\":\"object\",\"properties\":{\"path\":{\"type\":\"string\",\"description\":\"Path to the image file\"}},\"required\":[\"path\"]}";

pub const READ_PDF_DESCRIPTION: &'static str = "Extract text content from a PDF file. Optionally specify a page range.";

pub const READ_PDF_SCHEMA: &'static str = "{\"type\":\"object\",\"properties\":{\"path\":{\"type\":\"string\",\"description\":\"Path to the PDF file\"},\"pages\":{\"type\":\"string\",\"description\":\"Page range (1-based, e.g. '3' or '1-5'). Omit for all pages.\"}},\"required\":[\"path\"]}";

pub fn delegate_task_def() -> (r: ToolDefinition)
    ensures
        is_def(r, "delegate_task"@, DELEGATE_TASK_DESCRIPTION@, DELEGATE_TASK_SCHEMA@),
{
    make_def("delegate_task", DELEGATE_TASK_DESCRIPTION, DELEGATE_TASK_SCHEMA)
}

pub fn interview_question_def() -> (r: ToolDefinition)
    ensures
        is_def(r, "interview_question"@, INTERVIEW_QUESTION_DESCRIPTION@, INTERVIEW_QUESTION_SCHEMA@),
{
    make_def("interview_question", INTERVIEW_QUESTION_DESCRIPTION, INTERVIEW_QUESTION_SCHEMA)
}

/// How many built-in tools there are.
pub const BUILT_IN_COUNT: usize = 18;

pub open spec fn builtin_name(i: int) -> Seq<char> {
    if i == 0 {
        "read_file"@
    } else if i == 1 {
        "write_file"@
    } else if i == 2 {
        "list_dir"@
    } else if i == 3 {
        "edit_file"@
    } else if i == 4 {
        "search_files"@
    } else if i == 5 {
        "replace_lines"@
    } else if i == 6 {
        "diff_files"@
    } else if i == 7 {
        "append_file"@
    } else if i == 8 {
        "delete_path"@
    } else if i == 9 {
        "glob_files"@
    } else if i == 10 {
        "remember"@
    } else if i == 11 {
        "recall"@
    } else if i == 12 {
        "forget"@
    } else if i == 13 {
        "list_memories"@
    } else if i == 14 {
        "line_count"@
    } else if i == 15 {
        "read_image"@
    } else if i == 16 {
        "read_pdf"@
    } else {
        "delegate_task"@
    }
}

pub open spec fn builtin_description(i: int) -> Seq<char> {
    if i == 0 {
        READ_FILE_DESCRIPTION@
    } else if i == 1 {
        WRITE_FILE_DESCRIPTION@
    } else if i == 2 {
        LIST_DIR_DESCRIPTION@
    } else if i == 3 {
        EDIT_FILE_DESCRIPTION@
    } else if i == 4 {
        SEARCH_FILES_DESCRIPTION@
    } else if i == 5 {
        REPLACE_LINES_DESCRIPTION@
    } else if i == 6 {
        DIFF_FILES_DESCRIPTION@
    } else if i == 7 {
        APPEND_FILE_DESCRIPTION@
    } else if i == 8 {
        DELETE_PATH_DESCRIPTION@
    } else if i == 9 {
        GLOB_FILES_DESCRIPTION@
    } else if i == 10 {
        REMEMBER_DESCRIPTION@
    } else if i == 11 {
        RECALL_DESCRIPTION@
    } else if i == 12 {
        FORGET_DESCRIPTION@
    } else if i == 13 {
        LIST_MEMORIES_DESCRIPTION@
    } else if i == 14 {
        LINE_COUNT_DESCRIPTION@
    } else if i == 15 {
        READ_IMAGE_DESCRIPTION@
    } else if i == 16 {
        READ_PDF_DESCRIPTION@
    } else {
        DELEGATE_TASK_DESCRIPTION@
    }
}

pub open spec fn builtin_schema(i: int) -> Seq<char> {
    if i == 0 {
        READ_FILE_SCHEMA@
    } else if i == 1 {
        WRITE_FILE_SCHEMA@
    } else if i == 2 {
        LIST_DIR_SCHEMA@
    } else if i == 3 {
        EDIT_FILE_SCHEMA@
    } else if i == 4 {
        SEARCH_FILES_SCHEMA@
    } else if i == 5 {
        REPLACE_LINES_SCHEMA@
    } else if i == 6 {
        DIFF_FILES_SCHEMA@
    } else if i == 7 {
        APPEND_FILE_SCHEMA@
    } else if i == 8 {
        DELETE_PATH_SCHEMA@
    } else if i == 9 {
        GLOB_FILES_SCHEMA@
    } else if i == 10 {
        REMEMBER_SCHEMA@
    } else if i == 11 {
        RECALL_SCHEMA@
    } else if i == 12 {
        FORGET_SCHEMA@
    } else if i == 13 {
        LIST_MEMORIES_SCHEMA@
    } else if i == 14 {
        LINE_COUNT_SCHEMA@
    } else if i == 15 {
        READ_IMAGE_SCHEMA@
    } else if i == 16 {
        READ_PDF_SCHEMA@
    } else {
        DELEGATE_TASK_SCHEMA@
    }
}

fn builtin_def(i: usize) -> (r: ToolDefinition)
    requires
        i < BUILT_IN_COUNT,
    ensures
        is_def(r, builtin_name(i as int), builtin_description(i as int), builtin_schema(i as int)),
{
    if i == 0 {
        make_def("read_file", READ_FILE_DESCRIPTION, READ_FILE_SCHEMA)
    } else if i == 1 {
        make_def("write_file", WRITE_FILE_DESCRIPTION, WRITE_FILE_SCHEMA)
    } else if i == 2 {
        make_def("list_dir", LIST_DIR_DESCRIPTION, LIST_DIR_SCHEMA)
    } else if i == 3 {
        make_def("edit_file", EDIT_FILE_DESCRIPTION, EDIT_FILE_SCHEMA)
    } else if i == 4 {
        make_def("search_files", SEARCH_FILES_DESCRIPTION, SEARCH_FILES_SCHEMA)
    } else if i == 5 {
        make_def("replace_lines", REPLACE_LINES_DESCRIPTION, REPLACE_LINES_SCHEMA)
    } else if i == 6 {
        make_def("diff_files", DIFF_FILES_DESCRIPTION, DIFF_FILES_SCHEMA)
    } else if i == 7 {
        make_def("append_file", APPEND_FILE_DESCRIPTION, APPEND_FILE_SCHEMA)
    } else if i == 8 {
        make_def("delete_path", DELETE_PATH_DESCRIPTION, DELETE_PATH_SCHEMA)
    } else if i == 9 {
        make_def("glob_files", GLOB_FILES_DESCRIPTION, GLOB_FILES_SCHEMA)
    } else if i == 10 {
        make_def("remember", REMEMBER_DESCRIPTION, REMEMBER_SCHEMA)
    } else if i == 11 {
        make_def("recall", RECALL_DESCRIPTION, RECALL_SCHEMA)
    } else if i == 12 {
        make_def("forget", FORGET_DESCRIPTION, FORGET_SCHEMA)
    } else if i == 13 {
        make_def("list_memories", LIST_MEMORIES_DESCRIPTION, LIST_MEMORIES_SCHEMA)
    } else if i == 14 {
        make_def("line_count", LINE_COUNT_DESCRIPTION, LINE_COUNT_SCHEMA)
    } else if i == 15 {
        make_def("read_image", READ_IMAGE_DESCRIPTION, READ_IMAGE_SCHEMA)
    } else if i == 16 {
        make_def("read_pdf", READ_PDF_DESCRIPTION, READ_PDF_SCHEMA)
    } else {
        delegate_task_def()
    }
}

/// The built-in tools, in the order they are offered.
pub fn built_in_tool_definitions() -> (r: Vec<ToolDefinition>)
    ensures
        r@.len() == BUILT_IN_COUNT,
        forall|i: int|
            0 <= i < BUILT_IN_COUNT ==> is_def(
                #[trigger] r@[i],
                builtin_name(i),
                builtin_description(i),
                builtin_schema(i),
            ),
{
    let mut r: Vec<ToolDefinition> = Vec::new();
    for i in 0..BUILT_IN_COUNT
        invariant
            r@.len() == i,
            forall|j: int|
                0 <= j < i ==> is_def(
                    #[trigger] r@[j],
                    builtin_name(j),
                    builtin_description(j),
                    builtin_schema(j),
                ),
    {
        r.push(builtin_def(i));
    }
    r
}

} // verus!
