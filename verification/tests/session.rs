use agent::session::gitignore_update;
use agent::session::{Session, SessionMessage};
use agent::types::{ChatMessage, MessageKind, Role};

fn tmp() -> &'static str {
    "/tmp/agent-session-test"
}

#[test]
fn convert_session_message_to_chat_message_roundtrip() {
    let original = SessionMessage::Text {
        role: Role::Assistant,
        content: "hello there".into(),
        images: vec![],
    };
    let chat: ChatMessage = original.into();
    assert_eq!(chat.role, Role::Assistant);
    assert_eq!(chat.content, "hello there");
    let back: SessionMessage = SessionMessage::from(&chat);
    assert!(matches!(back, SessionMessage::Text { role, .. } if role == Role::Assistant));
}

#[test]
fn convert_thinking_roundtrip_through_chat_message() {
    let chat = ChatMessage {
        role: Role::Assistant,
        content: "deep thoughts".into(),
        kind: MessageKind::Thinking,
    };
    let session: SessionMessage = SessionMessage::from(&chat);
    let back: ChatMessage = session.into();
    assert_eq!(back.content, "deep thoughts");
    assert!(matches!(back.kind, MessageKind::Thinking));
}

#[test]
fn convert_tool_call_id_roundtrip_through_chat_message() {
    let chat = ChatMessage {
        role: Role::Assistant,
        content: String::new(),
        kind: MessageKind::ToolCall {
            call_id: "my-id".into(),
            name: "shell".into(),
            arguments: "{}".into(),
        },
    };
    let session: SessionMessage = SessionMessage::from(&chat);
    let back: ChatMessage = session.into();
    assert!(
        matches!(back.kind, MessageKind::ToolCall { ref call_id, .. } if call_id == "my-id")
    );
}

#[test]
fn session_new_session_has_empty_messages() {
    let dir = tmp();
    let session = Session::new("gpt-4", dir);
    assert!(session.messages.is_empty());
}

#[test]
fn session_append_message_adds_to_vec() {
    let dir = tmp();
    let mut session = Session::new("gpt-4", dir);
    session.append_message(SessionMessage::Text {
        role: Role::User,
        content: "hi".into(),
        images: vec![],
    });
    session.append_message(SessionMessage::ToolCall {
        id: "call-0".into(),
        name: "shell".into(),
        arguments: "{}".into(),
    });
    assert_eq!(session.messages.len(), 2);
}

#[test]
fn session_to_ollama_history_includes_images() {
    let dir = tmp();
    let mut session = Session::new("gpt-4", dir);
    session.append_message(SessionMessage::Text {
        role: Role::User,
        content: "look at this".into(),
        images: vec!["img1".into(), "img2".into()],
    });
    let history = session.to_ollama_history("system");
    // history[0] = system, history[1] = user message
    assert_eq!(history[1].images, vec!["img1", "img2"]);
}

#[test]
fn session_to_ollama_history_empty_images_by_default() {
    let dir = tmp();
    let mut session = Session::new("gpt-4", dir);
    session.append_message(SessionMessage::Text {
        role: Role::User,
        content: "hello".into(),
        images: vec![],
    });
    let history = session.to_ollama_history("system");
    assert!(history[1].images.is_empty());
}

#[test]
fn session_session_message_to_chat_message_roundtrip() {
    let original = SessionMessage::Text {
        role: Role::Assistant,
        content: "hello there".into(),
        images: vec![],
    };
    let chat: ChatMessage = original.into();
    assert_eq!(chat.role, Role::Assistant);
    assert_eq!(chat.content, "hello there");
    let back: SessionMessage = SessionMessage::from(&chat);
    assert!(matches!(back, SessionMessage::Text { role, .. } if role == Role::Assistant));
}

#[test]
fn session_thinking_roundtrip_through_chat_message() {
    let chat = ChatMessage {
        role: Role::Assistant,
        content: "deep thoughts".into(),
        kind: MessageKind::Thinking,
    };
    let session: SessionMessage = SessionMessage::from(&chat);
    let back: ChatMessage = session.into();
    assert_eq!(back.content, "deep thoughts");
    assert!(matches!(back.kind, MessageKind::Thinking));
}

#[test]
fn session_tool_call_id_roundtrip_through_chat_message() {
    let chat = ChatMessage {
        role: Role::Assistant,
        content: String::new(),
        kind: MessageKind::ToolCall {
            call_id: "my-id".into(),
            name: "shell".into(),
            arguments: "{}".into(),
        },
    };
    let session: SessionMessage = SessionMessage::from(&chat);
    let back: ChatMessage = session.into();
    assert!(
        matches!(back.kind, MessageKind::ToolCall { ref call_id, .. } if call_id == "my-id")
    );
}

#[test]
fn session_to_ollama_history_skips_thinking() {
    let dir = tmp();
    let mut session = Session::new("gpt-4", dir);
    session.append_message(SessionMessage::Text {
        role: Role::User,
        content: "hello".into(),
        images: vec![],
    });
    session.append_message(SessionMessage::Thinking {
        content: "internal".into(),
    });
    session.append_message(SessionMessage::Text {
        role: Role::Assistant,
        content: "hi".into(),
        images: vec![],
    });
    let history = session.to_ollama_history("sys");
    // system + user + assistant = 3; thinking skipped
    assert_eq!(history.len(), 3);
    assert!(history.iter().all(|m| m.role != Role::Tool));
}

#[test]
fn session_to_ollama_history_preserves_tool_call_id() {
    let dir = tmp();
    let mut session = Session::new("gpt-4", dir);
    session.append_message(SessionMessage::ToolCall {
        id: "call-7".into(),
        name: "shell".into(),
        arguments: "{}".into(),
    });
    let history = session.to_ollama_history("sys");
    // system + tool_request = 2
    assert_eq!(history.len(), 2);
    assert_eq!(history[1].tool_calls[0].id, "call-7");
}

#[test]
fn mod_new_session_has_empty_messages() {
    let dir = tmp();
    let session = Session::new("gpt-4", dir);
    assert!(session.messages.is_empty());
}

#[test]
fn mod_append_message_adds_to_vec() {
    let dir = tmp();
    let mut session = Session::new("gpt-4", dir);
    session.append_message(SessionMessage::Text {
        role: Role::User,
        content: "hi".into(),
        images: vec![],
    });
    session.append_message(SessionMessage::ToolCall {
        id: "call-0".into(),
        name: "shell".into(),
        arguments: "{}".into(),
    });
    assert_eq!(session.messages.len(), 2);
}

#[test]
fn history_to_ollama_history_includes_images() {
    let dir = tmp();
    let mut session = Session::new("gpt-4", dir);
    session.append_message(SessionMessage::Text {
        role: Role::User,
        content: "look at this".into(),
        images: vec!["img1".into(), "img2".into()],
    });
    let history = session.to_ollama_history("system");
    assert_eq!(history[1].images, vec!["img1", "img2"]);
}

#[test]
fn history_to_ollama_history_empty_images_by_default() {
    let dir = tmp();
    let mut session = Session::new("gpt-4", dir);
    session.append_message(SessionMessage::Text {
        role: Role::User,
        content: "hello".into(),
        images: vec![],
    });
    let history = session.to_ollama_history("system");
    assert!(history[1].images.is_empty());
}

#[test]
fn history_to_ollama_history_skips_thinking() {
    let dir = tmp();
    let mut session = Session::new("gpt-4", dir);
    session.append_message(SessionMessage::Text {
        role: Role::User,
        content: "hello".into(),
        images: vec![],
    });
    session.append_message(SessionMessage::Thinking {
        content: "internal".into(),
    });
    session.append_message(SessionMessage::Text {
        role: Role::Assistant,
        content: "hi".into(),
        images: vec![],
    });
    let history = session.to_ollama_history("sys");
    assert_eq!(history.len(), 3);
    assert!(history.iter().all(|m| m.role != Role::Tool));
}

#[test]
fn history_to_ollama_history_preserves_tool_call_id() {
    let dir = tmp();
    let mut session = Session::new("gpt-4", dir);
    session.append_message(SessionMessage::ToolCall {
        id: "call-7".into(),
        name: "shell".into(),
        arguments: "{}".into(),
    });
    let history = session.to_ollama_history("sys");
    assert_eq!(history.len(), 2);
    assert_eq!(history[1].tool_calls[0].id, "call-7");
}

#[test]
fn compressed_history_truncates_old_tool_results() {
    let dir = tmp();
    let mut session = Session::new("gpt-4", dir);
    // Exchange 1 (old — will be compressed)
    session.append_message(SessionMessage::Text {
        role: Role::User,
        content: "task 1".into(),
        images: vec![],
    });
    session.append_message(SessionMessage::ToolCall {
        id: "c1".into(),
        name: "delegate_task".into(),
        arguments: "{}".into(),
    });
    session.append_message(SessionMessage::ToolResult {
        name: "delegate_task".into(),
        content: "a]".repeat(500),
        is_error: false,
        images: vec![],
    });
    session.append_message(SessionMessage::Text {
        role: Role::Assistant,
        content: "done 1".into(),
        images: vec![],
    });
    // Exchange 2 (recent — kept intact)
    session.append_message(SessionMessage::Text {
        role: Role::User,
        content: "task 2".into(),
        images: vec![],
    });
    session.append_message(SessionMessage::ToolCall {
        id: "c2".into(),
        name: "delegate_task".into(),
        arguments: "{}".into(),
    });
    session.append_message(SessionMessage::ToolResult {
        name: "delegate_task".into(),
        content: "b".repeat(500),
        is_error: false,
        images: vec![],
    });
    session.append_message(SessionMessage::Text {
        role: Role::Assistant,
        content: "done 2".into(),
        images: vec![],
    });

    let full = session.to_ollama_history("sys");
    let compressed = session.to_compressed_history("sys", 1);

    let full_tool_result = &full[3].content;
    assert!(full_tool_result.len() >= 1000);

    let comp_tool_result = &compressed[3].content;
    assert!(
        comp_tool_result.len() < 200,
        "old tool result should be compressed, got {} chars",
        comp_tool_result.len()
    );
    assert!(comp_tool_result.contains("summarized"));

    let comp_recent = &compressed[7].content;
    assert_eq!(comp_recent.len(), 500);
}

#[test]
fn gitignore_lists_agent_dir_once() {
    assert_eq!(gitignore_update(None), Some(".agent/\n".to_string()));
    assert_eq!(gitignore_update(Some("target/\n")), Some("target/\n.agent/\n".to_string()));
    assert_eq!(gitignore_update(Some("target/")), Some("target/\n.agent/\n".to_string()));
    assert_eq!(gitignore_update(Some("a\n  .agent/  \nb")), None);
    assert_eq!(gitignore_update(Some("")), Some("\n.agent/\n".to_string()));
}

#[test]
fn compressible_histories() {
    let mut s = Session::new("m", "/w");
    s.append_message(SessionMessage::Text { role: Role::User, content: "q".into(), images: vec![] });
    s.append_message(SessionMessage::ToolResult {
        name: "read_file".into(),
        content: format!("{}é{}", "x".repeat(149), "y".repeat(100)),
        is_error: false,
        images: vec![],
    });
    s.append_message(SessionMessage::Text { role: Role::User, content: "a".into(), images: vec![] });
    s.append_message(SessionMessage::Text { role: Role::User, content: "b".into(), images: vec![] });
    assert!(!s.is_compressible(2));
    assert!(s.is_compressible(3));
    let mut t = Session::new("m", "/w");
    t.append_message(SessionMessage::ToolResult {
        name: "x".into(),
        content: "z".repeat(500),
        is_error: false,
        images: vec![],
    });
    assert!(t.is_compressible(0));
}
