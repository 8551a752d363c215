use agent::tools::cargo::cargo_report;
use agent::tools::git::{git_diff_answer, git_diff_args};
use agent::tools::file_io::{
    appended_message, deleted_message, flag_arg, list_depth, list_entry_line, listed_names,
    number_arg, read_window, remember_args, text_arg, text_arg_or, text_list_arg, wrote_message,
};
use agent::tools::paths::{walk_goes_on, walk_skips};
use agent::tools::search::{
    count_newlines, ext_selected_exec, glob_summary, line_count_report, make_matcher, scan_file,
    search_summary, sort_by_count_desc,
};

fn json(s: &str) -> serde_json::Value {
    serde_json::from_str(s).unwrap()
}

#[test]
fn read_window_numbers_lines() {
    let out = read_window("a\nb\nc\n", None, None).unwrap();
    assert_eq!(out, "     1\ta\n     2\tb\n     3\tc\n");
}

#[test]
fn read_window_range_note() {
    let out = read_window("a\nb\nc", Some(2), Some(2)).unwrap();
    assert_eq!(out, "     2\tb\n\n[showing lines 2-2 of 3]");
    let out2 = read_window("a\nb\nc", Some(0), Some(99)).unwrap();
    assert_eq!(out2, "     1\ta\n     2\tb\n     3\tc\n");
}

#[test]
fn read_window_errors() {
    assert_eq!(
        read_window("a\nb", Some(5), None),
        Err("start_line 5 exceeds file length (2 lines)".to_string())
    );
    assert_eq!(read_window("", None, None), Err("start_line 1 exceeds file length (0 lines)".to_string()));
    assert!(read_window("a\nb\nc", Some(3), Some(1)).unwrap_err().contains("slice index starts at 2 but ends at 1"));
}

#[test]
fn read_window_truncates_long_output() {
    let content = "x".repeat(60_000);
    let out = read_window(&content, None, None).unwrap();
    assert!(out.starts_with("     1\t"));
    assert!(out.ends_with("\n[... truncated at 50000 chars, use start_line/end_line to read specific ranges ...]"));
    assert_eq!(out.len(), 50_000 + "\n[... truncated at 50000 chars, use start_line/end_line to read specific ranges ...]".len());
    let wide = format!("{}é{}", "x".repeat(49_992), "y".repeat(100));
    assert!(read_window(&wide, None, None).unwrap_err().contains("not a char boundary"));
}

#[test]
fn arguments() {
    let args = json(r#"{"path":"a.txt","depth":25,"n":3}"#);
    assert_eq!(text_arg(&args, "path"), Ok("a.txt".to_string()));
    assert_eq!(text_arg(&args, "content"), Err("missing 'content' argument".to_string()));
    assert_eq!(number_arg(&args, "n"), Some(3));
    assert_eq!(list_depth(&args), 10);
    assert_eq!(list_depth(&json(r#"{"depth":2}"#)), 2);
    assert_eq!(list_depth(&json("{}")), 0);
}

#[test]
fn listing_lines() {
    let names = vec![
        "src".to_string(),
        ".git".to_string(),
        "target".to_string(),
        "Cargo.toml".to_string(),
        "README.md".to_string(),
    ];
    assert_eq!(listed_names(&names), vec!["Cargo.toml", "README.md", "src"]);
    assert_eq!(list_entry_line(1, "src", None), "  src/\n");
    assert_eq!(list_entry_line(0, "a.rs", Some((12, "2024-01-02 03:04"))), "a.rs (12 bytes, 2024-01-02 03:04)\n");
}

#[test]
fn file_messages() {
    assert_eq!(wrote_message("héllo", "/w/a.txt"), "wrote 6 bytes to /w/a.txt");
    assert_eq!(appended_message("ab", "a.txt"), "appended 2 bytes to a.txt");
    assert_eq!(deleted_message(true, "d"), "deleted directory d");
    assert_eq!(deleted_message(false, "f"), "deleted file f");
}

#[test]
fn search_scans_lines() {
    let m = make_matcher("fn", false).ok().unwrap();
    let mut found = Vec::new();
    scan_file(&mut found, "src/a.rs", "fn a() {}\nlet x;\nfn b() {}\n", &m);
    assert_eq!(found, vec!["src/a.rs:1:fn a() {}", "src/a.rs:3:fn b() {}"]);
    let re = make_matcher("^let\\s", true).ok().unwrap();
    scan_file(&mut found, "b", "let y;\nnot let", &re);
    assert_eq!(found.len(), 3);
    assert_eq!(found[2], "b:1:let y;");
    assert!(make_matcher("(", true).err().unwrap().starts_with("invalid regex: "));
}

#[test]
fn search_stops_at_hundred() {
    let m = make_matcher("x", false).ok().unwrap();
    let mut found = Vec::new();
    let content = "x\n".repeat(150);
    scan_file(&mut found, "f", &content, &m);
    assert_eq!(found.len(), 100);
    let s = search_summary(&found);
    assert!(s.ends_with("\n\n[100 matches (truncated)]"));
}

#[test]
fn summaries() {
    assert_eq!(search_summary(&vec![]), "no matches found");
    assert_eq!(search_summary(&vec!["a:1:x".to_string()]), "a:1:x\n\n[1 matches]");
    assert_eq!(glob_summary(&vec![]), "no matches found");
    assert_eq!(glob_summary(&vec!["a".to_string(), "b".to_string()]), "a\nb\n[2 file(s)]");
}

#[test]
fn line_count_sorted_report() {
    let found = vec![("a.rs".to_string(), 3), ("b.rs".to_string(), 10), ("c.rs".to_string(), 3)];
    let sorted = sort_by_count_desc(&found);
    assert_eq!(sorted, vec![("b.rs".to_string(), 10), ("a.rs".to_string(), 3), ("c.rs".to_string(), 3)]);
    assert_eq!(
        line_count_report(&found),
        "    10  b.rs\n     3  a.rs\n     3  c.rs\n\n[3 file(s), 16 total lines]"
    );
    assert_eq!(line_count_report(&vec![]), "no files found");
}

#[test]
fn line_count_helpers() {
    assert_eq!(count_newlines(b"a\nb\n\n"), 3);
    assert_eq!(count_newlines(&[0xff, 10]), 1);
    assert!(ext_selected_exec(&vec![], None));
    assert!(ext_selected_exec(&vec!["rs".to_string()], Some("rs")));
    assert!(!ext_selected_exec(&vec!["rs".to_string()], Some("md")));
    assert!(!ext_selected_exec(&vec!["rs".to_string()], None));
}

#[test]
fn cargo_reports() {
    assert_eq!(
        cargo_report(true, Some(0), "ok\n", ""),
        "cargo test: pass (exit 0)\n---\nok\n"
    );
    assert_eq!(cargo_report(false, None, "a", "b"), "cargo test: fail (exit -1)\n---\nab");
    let long = "z".repeat(16_010);
    let r = cargo_report(false, Some(101), &long, "");
    assert!(r.starts_with("cargo test: fail (exit 101)\n---\n[truncated: 10 chars elided from head]\n"));
    assert!(r.ends_with(&"z".repeat(16_000)));
}

#[test]
fn git_diff_command_and_answer() {
    assert_eq!(git_diff_args(&json("{}")), vec!["diff"]);
    assert_eq!(
        git_diff_args(&json(r#"{"staged":true,"ref":"HEAD~1","path":"src"}"#)),
        vec!["diff", "--cached", "HEAD~1", "--", "src"]
    );
    assert_eq!(git_diff_answer(true, "", ""), Ok("No differences found.".to_string()));
    assert_eq!(git_diff_answer(false, "", "fatal: bad"), Err("fatal: bad".to_string()));
    assert_eq!(git_diff_answer(false, "x", ""), Ok("x".to_string()));
    let big = "d".repeat(100_005);
    let r = git_diff_answer(true, &big, "").unwrap();
    assert_eq!(r.len(), 100_000 + "\n... [output truncated]".len());
}

#[test]
fn optional_arguments_and_defaults() {
    let a = json(r#"{"path": "src", "flag": true, "off": false, "n": 3, "list": ["rs", 1, "md", null]}"#);
    assert_eq!(text_arg_or(&a, "path", "."), "src");
    assert_eq!(text_arg_or(&a, "missing", "."), ".");
    assert_eq!(text_arg_or(&a, "n", "."), ".");
    assert!(flag_arg(&a, "flag"));
    assert!(!flag_arg(&a, "off"));
    assert!(!flag_arg(&a, "missing"));
    assert!(!flag_arg(&a, "n"));
    assert_eq!(text_list_arg(&a, "list"), vec!["rs".to_string(), "md".to_string()]);
    assert!(text_list_arg(&a, "path").is_empty());
    assert!(text_list_arg(&a, "missing").is_empty());
}

#[test]
fn remember_arguments() {
    let a = remember_args(&json(r#"{"name": "Tip", "content": "body", "tags": ["x", "y"]}"#));
    assert_eq!(a.name, "Tip");
    assert_eq!(a.description, "Tip");
    assert_eq!(a.content, "body");
    assert_eq!(a.tags, vec!["x".to_string(), "y".to_string()]);
    let b = remember_args(&json(r#"{"name": "Tip", "description": "about tips"}"#));
    assert_eq!(b.description, "about tips");
    assert_eq!(b.content, "");
    assert!(b.tags.is_empty());
    let c = remember_args(&json("{}"));
    assert_eq!(c.name, "");
    assert_eq!(c.description, "");
}

#[test]
fn walks_skip_hidden_and_ignored_entries() {
    assert!(walk_skips(".hidden"));
    assert!(walk_skips("target"));
    assert!(walk_skips("node_modules"));
    assert!(!walk_skips("src"));
    assert!(!walk_skips(""));
    assert!(walk_goes_on(0, 0, 100));
    assert!(walk_goes_on(20, 99, 100));
    assert!(!walk_goes_on(21, 0, 100));
    assert!(!walk_goes_on(3, 100, 100));
}

#[test]
fn read_file_multibyte_truncation_no_panic() {
    let content = "あいうえお\n".repeat(10_000);
    let out = read_window(&content, None, None).unwrap();
    let note = "\n[... truncated at 50000 chars, use start_line/end_line to read specific ranges ...]";
    assert!(out.ends_with(note));
    let kept = &out[..out.len() - note.len()];
    // Each listed line takes 23 bytes; the cut falls inside line 2174 and moves
    // back to the start of the kana it would split.
    assert_eq!(kept.len(), 49_998);
    assert!(kept.starts_with("     1\tあいうえお\n"));
    assert!(kept.ends_with("  2174\tあいうえ"));
}
