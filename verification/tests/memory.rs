use agent::memory::{
    forget_message, list_answer, memory_dir, memory_file_name, memory_file_text, memory_index,
    memory_line, memory_lines_of, memory_matches, parse_memory, recall_answer, recall_entry,
    recall_from_texts, saved_message, slugify, MemoryEntry,
};

#[test]
fn slugify_basic() {
    assert_eq!(slugify("Rust async tips!"), "rust-async-tips");
}

#[test]
fn slugify_dedup_dashes() {
    assert_eq!(slugify("foo  bar"), "foo-bar");
}

#[test]
fn slugify_trim_edges() {
    assert_eq!(slugify("  hello "), "hello");
}

#[test]
fn slugify_keeps_unicode_letters() {
    assert_eq!(slugify("Été -- Ünïcode"), "été-ünïcode");
}

#[test]
fn memory_paths() {
    assert_eq!(memory_dir("/work"), "/work/.agent/memory");
    assert_eq!(memory_dir("/work/"), "/work/.agent/memory");
    assert_eq!(memory_dir(""), ".agent/memory");
    assert_eq!(memory_file_name("Rust tips"), "rust-tips.md");
}

#[test]
fn memory_file_layout() {
    let tags = vec!["rust".to_string(), "async".to_string()];
    let text = memory_file_text("Rust tips", "Tips for Rust", &tags, "body here");
    assert_eq!(
        text,
        "---\nname: Rust tips\ndescription: Tips for Rust\ntags: [rust, async]\n---\n\nbody here"
    );
}

#[test]
fn write_and_read_roundtrip() {
    let tags = vec!["rust".to_string(), "async".to_string()];
    assert_eq!(memory_file_name("Rust tips"), "rust-tips.md");
    let text = memory_file_text("Rust tips", "Tips for Rust", &tags, "body here");
    let mem = match parse_memory(&text) {
        Ok(m) => m,
        Err(e) => panic!("parse failed: {e}"),
    };
    assert_eq!(mem.name, "Rust tips");
    assert_eq!(mem.description, "Tips for Rust");
    assert_eq!(mem.tags, vec!["rust", "async"]);
    assert_eq!(mem.content, "body here");
}

#[test]
fn parse_tags_with_spaces() {
    let tags = vec!["a".to_string(), "b c".to_string(), "d".to_string()];
    assert_eq!(memory_file_name("t"), "t.md");
    let text = memory_file_text("t", "d", &tags, "body");
    let mem = match parse_memory(&text) {
        Ok(m) => m,
        Err(e) => panic!("parse failed: {e}"),
    };
    assert_eq!(mem.tags, vec!["a", "b c", "d"]);
}

#[test]
fn parse_without_tags() {
    let text = memory_file_text("Go tips", "desc", &Vec::new(), "goroutines");
    let mem = match parse_memory(&text) {
        Ok(m) => m,
        Err(e) => panic!("parse failed: {e}"),
    };
    assert!(mem.tags.is_empty());
    assert_eq!(mem.content, "goroutines");
}

#[test]
fn parse_errors() {
    assert_eq!(
        parse_memory("name: x\n").err(),
        Some("missing frontmatter opening ---".to_string())
    );
    assert_eq!(
        parse_memory("---\nname: x\n").err(),
        Some("missing frontmatter closing ---".to_string())
    );
}

#[test]
fn parse_trims_and_drops_empty_tags() {
    let raw = "---\nname:  spaced  \ntags: [ a ,, b ]\n---\n\n\n\nbody";
    let mem = match parse_memory(raw) {
        Ok(m) => m,
        Err(e) => panic!("parse failed: {e}"),
    };
    assert_eq!(mem.name, "spaced");
    assert_eq!(mem.description, "");
    assert_eq!(mem.tags, vec!["a", "b"]);
    assert_eq!(mem.content, "body");
}

fn entry(name: &str, description: &str, content: &str) -> MemoryEntry {
    MemoryEntry {
        name: name.to_string(),
        description: description.to_string(),
        tags: Vec::new(),
        content: content.to_string(),
    }
}

#[test]
fn list_and_index_are_sorted() {
    let lines = vec![
        memory_line(&entry("Beta", "second", "b")),
        memory_line(&entry("Alpha", "first", "a")),
    ];
    assert_eq!(lines[1], "- **Alpha**: first");
    assert_eq!(
        list_answer(&lines),
        "- **Alpha**: first\n- **Beta**: second"
    );
    assert_eq!(memory_index(&lines), "- **Alpha**: first\n- **Beta**: second");
    assert_eq!(list_answer(&Vec::new()), "No memories stored yet.");
    assert_eq!(memory_index(&Vec::new()), "");
}

#[test]
fn recall_formats() {
    assert!(memory_matches("Tokio Patterns", "tokio"));
    assert!(!memory_matches("goroutines", "tokio"));
    let one = recall_entry(&entry("Rust tips", "desc", "tokio patterns"));
    assert_eq!(one, "**Rust tips**\ndesc\n\ntokio patterns");
    let both = recall_answer("tokio", &vec![one.clone(), one.clone()]);
    assert_eq!(both, format!("{one}\n\n---\n\n{one}"));
    assert!(recall_answer("tokio", &Vec::new()).contains("No memories found"));
    assert_eq!(
        recall_answer("tokio", &Vec::new()),
        "No memories found matching 'tokio'."
    );
}

#[test]
fn memory_messages() {
    assert_eq!(
        saved_message("Rust tips", "/w/.agent/memory/rust-tips.md"),
        "Memory 'Rust tips' saved to /w/.agent/memory/rust-tips.md"
    );
    assert_eq!(forget_message("Old tip", true), "Memory 'Old tip' deleted.");
    assert_eq!(forget_message("Old tip", false), "Memory 'Old tip' not found.");
}

fn file_text(name: &str, description: &str, tags: &[&str], content: &str) -> String {
    let tags: Vec<String> = tags.iter().map(|t| t.to_string()).collect();
    memory_file_text(name, description, &tags, content)
}

#[test]
fn recall_finds_match() {
    let files = vec![file_text("Rust tips", "desc", &["rust"], "tokio patterns")];
    let result = recall_from_texts("tokio", &files);
    assert!(result.contains("Rust tips"));
    assert_eq!(result, "**Rust tips**\ndesc\n\ntokio patterns");
}

#[test]
fn recall_no_match() {
    let files = vec![file_text("Go tips", "desc", &[], "goroutines")];
    let result = recall_from_texts("tokio", &files);
    assert!(result.contains("No memories found"));
}

#[test]
fn recall_ignores_case_and_skips_broken_files() {
    let files = vec![
        file_text("A", "first", &[], "Uses TOKIO"),
        "no front matter, tokio".to_string(),
        file_text("B", "second", &[], "tokio again"),
        file_text("C", "third", &[], "nothing"),
    ];
    let result = recall_from_texts("Tokio", &files);
    assert_eq!(result, "**A**\nfirst\n\nUses TOKIO\n\n---\n\n**B**\nsecond\n\ntokio again");
}

#[test]
fn recall_missing_dir_returns_no_matches() {
    let result = recall_from_texts("anything", &Vec::new());
    assert!(result.contains("No memories found"));
}

#[test]
fn list_memories_empty() {
    assert_eq!(list_answer(&memory_lines_of(&Vec::new())), "No memories stored yet.");
}

#[test]
fn list_memories_entries() {
    let files = vec![file_text("Alpha", "first", &[], "a"), file_text("Beta", "second", &[], "b")];
    let result = list_answer(&memory_lines_of(&files));
    assert!(result.contains("**Alpha**"));
    assert!(result.contains("**Beta**"));
}

#[test]
fn build_index_lists_entries() {
    let files = vec![file_text("Tip A", "desc a", &[], "body"), "broken".to_string()];
    let lines = memory_lines_of(&files);
    assert_eq!(lines, vec!["- **Tip A**: desc a".to_string()]);
    let idx = memory_index(&lines);
    assert!(idx.contains("**Tip A**"));
}
