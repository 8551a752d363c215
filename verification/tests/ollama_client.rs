use agent::ollama::client::{
    base_url_of, call_id_text, chat_url, chunk_of, partial_text, wire_messages, StreamEvent,
    StreamTurn, TurnOutcome,
};
use agent::types::{Message, Role, ToolCall};

fn val(text: &str) -> serde_json::Value {
    serde_json::from_str(text).unwrap()
}

fn render(events: &[StreamEvent]) -> Vec<String> {
    events
        .iter()
        .map(|e| match e {
            StreamEvent::ThinkingStarted => "start".to_string(),
            StreamEvent::ThinkingDelta(s) => format!("think:{s}"),
            StreamEvent::ThinkingDone => "done".to_string(),
            StreamEvent::TextDelta(s) => format!("text:{s}"),
            StreamEvent::TurnStats { eval_count, prompt_eval_count, .. } => {
                format!("stats:{eval_count}/{prompt_eval_count}")
            }
        })
        .collect()
}

#[test]
fn mod_messages_to_json_system_merged_into_first_user() {
    let history = vec![
        Message::new(Role::System, "You are helpful.".into()),
        Message::new(Role::User, "hello".into()),
    ];
    let wire = wire_messages(&history);
    assert_eq!(wire.len(), 1);
    assert_eq!(wire[0].role, Role::User);
    assert!(wire[0].content.contains("<system>"));
    assert!(wire[0].content.contains("You are helpful."));
    assert!(wire[0].content.contains("hello"));
    assert_eq!(wire[0].content, "<system>\nYou are helpful.\n</system>\n\nhello");
}

#[test]
fn mod_messages_to_json_includes_images() {
    let mut msg = Message::new(Role::User, "describe this".into());
    msg.images = vec!["base64data".into()];
    let wire = wire_messages(&vec![msg]);
    assert_eq!(wire[0].images, vec!["base64data"]);
}

#[test]
fn mod_messages_to_json_no_images_field_when_empty() {
    let msg = Message::new(Role::User, "hello".into());
    let wire = wire_messages(&vec![msg]);
    assert!(wire[0].images.is_empty());
}

#[test]
fn wire_messages_system_only_once() {
    let calls = vec![ToolCall { id: "c".into(), name: "read_file".into(), arguments: val("{}") }];
    let history = vec![
        Message::new(Role::System, "sys".into()),
        Message::new(Role::User, "a".into()),
        Message::tool_request(String::new(), calls),
        Message::new(Role::Tool, "r".into()),
    ];
    let wire = wire_messages(&history);
    assert_eq!(wire.len(), 3);
    assert_eq!(wire[1].content, "");
    assert_eq!(wire[1].tool_calls.len(), 1);
    assert_eq!(wire[1].tool_calls[0].name, "read_file");
    assert_eq!(wire[2].content, "r");
}

#[test]
fn chunk_reads_fields() {
    let c = chunk_of(&val(
        r#"{"message":{"content":"hi","thinking":"hmm","tool_calls":[{"function":{"name":"ls","arguments":{"p":1}}},{"function":{"name":""}}]},"done":true,"eval_count":3,"eval_duration":7,"prompt_eval_count":2}"#,
    ));
    assert_eq!(c.content.as_deref(), Some("hi"));
    assert_eq!(c.thinking.as_deref(), Some("hmm"));
    assert_eq!(c.calls.len(), 1);
    assert_eq!(c.calls[0].name, "ls");
    assert_eq!(c.calls[0].arguments, val(r#"{"p":1}"#));
    assert!(c.done);
    assert_eq!((c.eval_count, c.eval_duration_ns, c.prompt_eval_count), (3, 7, 2));
    let empty = chunk_of(&val(r#"{"message":{}}"#));
    assert!(empty.content.is_none() && empty.calls.is_empty() && !empty.done);
    assert_eq!(empty.eval_count, 0);
}

#[test]
fn stream_turn_events() {
    let mut t = StreamTurn::new();
    let e1 = t.feed(chunk_of(&val(r#"{"message":{"thinking":"plan"}}"#)));
    assert_eq!(render(&e1), vec!["start", "think:plan"]);
    let e2 = t.feed(chunk_of(&val(r#"{"message":{"content":"Hello"}}"#)));
    assert_eq!(render(&e2), vec!["done", "text:Hello"]);
    let e3 = t.feed(chunk_of(&val(r#"{"message":{"content":" <think>x</think>y"}}"#)));
    assert_eq!(render(&e3), vec!["start", "think:x", "done", "text: y"]);
    let e4 = t.feed(chunk_of(&val(r#"{"message":{"content":""},"done":true,"eval_count":5}"#)));
    assert_eq!(render(&e4), vec!["stats:5/0"]);
    let e5 = t.finish();
    assert!(e5.is_empty());
    match t.into_outcome() {
        TurnOutcome::Text(s) => assert_eq!(s, "Hello y"),
        TurnOutcome::ToolCalls(..) => panic!("no tool calls expected"),
    }
}

#[test]
fn stream_turn_tool_calls_and_flush() {
    let mut t = StreamTurn::new();
    let _ = t.feed(chunk_of(&val(
        r#"{"message":{"content":"ok <thi","tool_calls":[{"function":{"name":"ls","arguments":{}}}]}}"#,
    )));
    let e = t.finish();
    assert_eq!(render(&e), vec!["text:<thi"]);
    match t.into_outcome() {
        TurnOutcome::ToolCalls(s, calls) => {
            assert_eq!(s, "ok <thi");
            assert_eq!(calls.len(), 1);
        }
        TurnOutcome::Text(_) => panic!("tool calls expected"),
    }
}

#[test]
fn partial_text_counts_visible_text_only() {
    let events = vec![
        StreamEvent::TextDelta("a".into()),
        StreamEvent::ThinkingStarted,
        StreamEvent::TextDelta("b".into()),
    ];
    assert_eq!(partial_text(&"x".to_string(), &events, 0), "xa");
    assert_eq!(partial_text(&"x".to_string(), &events, 1), "xa");
    assert_eq!(partial_text(&"x".to_string(), &events, 2), "xab");
}

#[test]
fn urls_and_ids() {
    assert_eq!(base_url_of("http://localhost:11434//"), "http://localhost:11434");
    assert_eq!(chat_url("http://h"), "http://h/api/chat");
    assert_eq!(call_id_text(42), "call-42");
    assert_eq!(call_id_text(0), "call-0");
}
