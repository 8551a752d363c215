use agent::markdown::{highlight_code, render_markdown, Color, Line, MdEvent, Span};
fn markdown_to_lines(text: &str, indent: &str) -> Vec<Line> {
    agent::markdown::markdown_to_lines(text, indent).unwrap()
}

fn spans_text(line: &Line) -> String {
    line.spans.iter().map(|s| s.content.as_str()).collect()
}

fn all_spans(lines: &[Line]) -> Vec<&Span> {
    lines.iter().flat_map(|l| l.spans.iter()).collect()
}

#[test]
fn plain_text_single_line() {
    let lines = markdown_to_lines("Hello world", "  ");
    assert!(!lines.is_empty());
    let text: String = lines[0].spans.iter().map(|s| s.content.as_str()).collect();
    assert!(text.contains("Hello world"), "text: {text}");
}

#[test]
fn plain_text_multi_line() {
    let lines = markdown_to_lines("Line 1\n\nLine 2", "");
    let texts: Vec<String> = lines.iter().map(spans_text).collect();
    assert!(texts.iter().any(|t| t.contains("Line 1")));
    assert!(texts.iter().any(|t| t.contains("Line 2")));
}

#[test]
fn heading_h1_bold_cyan() {
    let lines = markdown_to_lines("# Title", "");
    let spans = all_spans(&lines);
    let title_span = spans.iter().find(|s| s.content.contains("Title")).expect("Title span");
    assert_eq!(title_span.style.fg, Some(Color::Cyan));
    assert!(title_span.style.bold);
}

#[test]
fn heading_h2_bold_green() {
    let lines = markdown_to_lines("## Sub", "");
    let spans = all_spans(&lines);
    let span = spans.iter().find(|s| s.content.contains("Sub")).expect("Sub span");
    assert_eq!(span.style.fg, Some(Color::Green));
    assert!(span.style.bold);
}

#[test]
fn bold_text() {
    let lines = markdown_to_lines("Hello **bold** world", "");
    let spans = all_spans(&lines);
    let bold_span = spans.iter().find(|s| s.content.contains("bold")).expect("bold span");
    assert!(bold_span.style.bold);
    let hello = spans.iter().find(|s| s.content.contains("Hello")).expect("hello span");
    assert!(!hello.style.bold);
}

#[test]
fn italic_text() {
    let lines = markdown_to_lines("Hello *italic* world", "");
    let spans = all_spans(&lines);
    let span = spans.iter().find(|s| s.content.contains("italic")).expect("italic span");
    assert!(span.style.italic);
}

#[test]
fn inline_code() {
    let lines = markdown_to_lines("Use `foo()` here", "");
    let spans = all_spans(&lines);
    let code = spans.iter().find(|s| s.content.contains("foo()")).expect("code span");
    assert_eq!(code.style.fg, Some(Color::Yellow));
}

#[test]
fn code_block() {
    let lines = markdown_to_lines("```\ncode\n```", "");
    let spans = all_spans(&lines);
    let code = spans.iter().find(|s| s.content.contains("code")).expect("code span");
    assert_eq!(code.style.fg, Some(Color::Yellow));
}

#[test]
fn code_block_with_language_gets_rgb_colors() {
    let lines = markdown_to_lines("```rust\nlet x = 1;\n```", "");
    let spans = all_spans(&lines);
    assert!(spans.iter().any(|s| matches!(s.style.fg, Some(Color::Rgb(_, _, _)))));
}

#[test]
fn code_block_unknown_lang_falls_back_to_yellow() {
    let lines = markdown_to_lines("```xyzlang\nfoo bar\n```", "");
    let spans = all_spans(&lines);
    let code_span = spans.iter().find(|s| s.content.contains("foo bar"));
    assert!(code_span.is_some());
    assert_eq!(code_span.unwrap().style.fg, Some(Color::Yellow));
}

#[test]
fn blockquote() {
    let lines = markdown_to_lines("> quoted", "");
    let spans = all_spans(&lines);
    let q = spans.iter().find(|s| s.content.contains("quoted")).expect("quoted span");
    assert_eq!(q.style.fg, Some(Color::DarkGray));
    assert!(q.style.italic);
}

#[test]
fn unordered_list() {
    let lines = markdown_to_lines("- Item 1\n- Item 2", "");
    let text: String = all_spans(&lines).iter().map(|s| s.content.as_str()).collect::<Vec<_>>().join("");
    assert!(text.contains('•'));
}

#[test]
fn ordered_list() {
    let lines = markdown_to_lines("1. First\n2. Second", "");
    let text: String = all_spans(&lines).iter().map(|s| s.content.as_str()).collect::<Vec<_>>().join("");
    assert!(text.contains("1.") || text.contains("2."), "text: {text}");
}

#[test]
fn horizontal_rule() {
    let lines = markdown_to_lines("---", "");
    let spans = all_spans(&lines);
    assert!(spans.iter().any(|s| s.content.contains('─') || s.content.contains('-')));
}

#[test]
fn link_styled() {
    let lines = markdown_to_lines("[text](http://x)", "");
    let spans = all_spans(&lines);
    let link = spans.iter().find(|s| s.content.contains("text")).expect("link span");
    assert_eq!(link.style.fg, Some(Color::Blue));
    assert!(link.style.underlined);
}

#[test]
fn empty_string() {
    let lines = markdown_to_lines("", "");
    assert!(lines.is_empty());
}

#[test]
fn unclosed_bold() {
    let lines = markdown_to_lines("Hello **world", "");
    let text: String = all_spans(&lines).iter().map(|s| s.content.as_str()).collect();
    assert!(text.contains("world"), "text: {text}");
}

#[test]
fn complex_mixed() {
    let doc = "# Heading\n\nSome **bold** and *italic* text.\n\n- item 1\n- item 2\n\n```rust\nlet x = 1;\n```\n\n> A blockquote\n\n[link](http://example.com)\n\n---\n";
    let lines = markdown_to_lines(doc, "  ");
    assert!(lines.len() > 5, "expected many lines, got {}", lines.len());
}

#[test]
fn exact_lines_of_a_paragraph_and_list() {
    let lines = markdown_to_lines("Hi\n\n3. a\n4. b\n", "> ");
    let texts: Vec<String> = lines.iter().map(spans_text).collect();
    assert_eq!(texts, vec!["> Hi", "> ", "> 3. a", "> 4. b"]);
}

#[test]
fn table_rows_and_separator() {
    let lines = markdown_to_lines("| a | bé |\n|---|---|\n| 1 | 2 |\n", "");
    let texts: Vec<String> = lines.iter().map(spans_text).collect();
    assert_eq!(texts, vec!["a | bé", "--+----", "1 | 2", ""]);
}

#[test]
fn unclosed_code_block_shows_buffer() {
    let lines = markdown_to_lines("```\nlet a", "");
    let texts: Vec<String> = lines.iter().map(spans_text).collect();
    assert!(texts.iter().any(|t| t.contains("let a")));
}

#[test]
fn task_markers_and_quote_bar() {
    let lines = markdown_to_lines("- [x] done\n", "");
    let text: String = all_spans(&lines).iter().map(|s| s.content.as_str()).collect();
    assert!(text.contains("[x] done"));
    let q = markdown_to_lines("> a\n> b", "");
    assert_eq!(spans_text(&q[0]), "│ a b");
}

#[test]
fn highlight_keeps_indent_and_drops_newlines() {
    let lines = highlight_code("let x = 1;\n", "rust", "  ").expect("rust is known");
    assert_eq!(lines.len(), 1);
    assert_eq!(lines[0].spans[0].content, "  ");
    assert!(lines[0].spans.iter().all(|s| !s.content.ends_with('\n')));
    assert!(highlight_code("x", "no-such-language", "").is_none());
}

#[test]
fn rendering_events_directly_matches_parsing_text() {
    let events = vec![
        MdEvent::StartHeading(1),
        MdEvent::Text("Title".to_string()),
        MdEvent::EndHeading,
        MdEvent::StartParagraph,
        MdEvent::Text("body".to_string()),
        MdEvent::EndParagraph,
    ];
    let direct = render_markdown(&events, "");
    let parsed = markdown_to_lines("# Title\n\nbody", "");
    let texts = |ls: &[Line]| ls.iter().map(spans_text).collect::<Vec<_>>();
    assert_eq!(texts(&direct), texts(&parsed));
    assert!(texts(&parsed)[0].contains("Title"));
}
