//! Chat lines to persisted messages and back.
use vstd::prelude::*;

use super::{SessionMessage, SessionView};
use crate::types::{ChatMessage, ChatView, KindView, MessageKind, Role};

verus! {

/// The persisted form of a chat line. Queued lines, subtask markers and
/// plan updates are kept as plain text of their role; images are not part
/// of a chat line, so none are kept.
pub open spec fn session_of_chat(c: ChatView) -> SessionView {
    match c.kind {
        KindView::ToolCall { call_id, name, arguments } => SessionView::ToolCall {
            id: call_id,
            name,
            arguments,
        },
        KindView::ToolResult { name, is_error } => SessionView::ToolResult {
            name,
            content: c.content,
            is_error,
            images: Seq::empty(),
        },
        KindView::Thinking => SessionView::Thinking { content: c.content },
        _ => SessionView::Text { role: c.role, content: c.content, images: Seq::empty() },
    }
}

/// The chat line of a persisted message: thinking and tool calls are the
/// assistant's, tool results the tool's; images are dropped.
pub open spec fn chat_of_session(s: SessionView) -> ChatView {
    match s {
        SessionView::Text { role, content, .. } => ChatView { role, content, kind: KindView::Text },
        SessionView::Thinking { content } => ChatView {
            role: Role::Assistant,
            content,
            kind: KindView::Thinking,
        },
        SessionView::ToolCall { id, name, arguments } => ChatView {
            role: Role::Assistant,
            content: Seq::empty(),
            kind: KindView::ToolCall { call_id: id, name, arguments },
        },
        SessionView::ToolResult { name, content, is_error, .. } => ChatView {
            role: Role::Tool,
            content,
            kind: KindView::ToolResult { name, is_error },
        },
    }
}

impl SessionMessage {
    /// The persisted form of a chat line.
    pub fn from_chat(msg: &ChatMessage) -> (r: SessionMessage)
        ensures
            r@ == session_of_chat(msg@),
    {
        assert(crate::text::string_views(Seq::<String>::empty()) =~= Seq::<Seq<char>>::empty());
        match &msg.kind {
            MessageKind::Text => SessionMessage::Text {
                role: msg.role,
                content: msg.content.clone(),
                images: Vec::new(),
            },
            MessageKind::ToolCall { call_id, name, arguments } => SessionMessage::ToolCall {
                id: call_id.clone(),
                name: name.clone(),
                arguments: arguments.clone(),
            },
            MessageKind::ToolResult { name, is_error } => SessionMessage::ToolResult {
                name: name.clone(),
                content: msg.content.clone(),
                is_error: *is_error,
                images: Vec::new(),
            },
            MessageKind::Thinking => SessionMessage::Thinking { content: msg.content.clone() },
            MessageKind::Queued
            | MessageKind::SubtaskEnter { .. }
            | MessageKind::SubtaskExit { .. }
            | MessageKind::PlanUpdate { .. } => SessionMessage::Text {
                role: msg.role,
                content: msg.content.clone(),
                images: Vec::new(),
            },
        }
    }
}

impl ChatMessage {
    /// The chat line of a persisted message.
    pub fn from_session(msg: SessionMessage) -> (r: ChatMessage)
        ensures
            r@ == chat_of_session(msg@),
    {
        match msg {
            SessionMessage::Text { role, content, .. } => ChatMessage {
                role,
                content,
                kind: MessageKind::Text,
            },
            SessionMessage::Thinking { content } => ChatMessage {
                role: Role::Assistant,
                content,
                kind: MessageKind::Thinking,
            },
            SessionMessage::ToolCall { id, name, arguments } => ChatMessage {
                role: Role::Assistant,
                content: String::new(),
                kind: MessageKind::ToolCall { call_id: id, name, arguments },
            },
            SessionMessage::ToolResult { name, content, is_error, .. } => ChatMessage {
                role: Role::Tool,
                content,
                kind: MessageKind::ToolResult { name, is_error },
            },
        }
    }
}

impl<'a> From<&'a ChatMessage> for SessionMessage {
    fn from(msg: &'a ChatMessage) -> (r: SessionMessage) {
        SessionMessage::from_chat(msg)
    }
}

impl<'a> vstd::std_specs::convert::FromSpecImpl<&'a ChatMessage> for SessionMessage {
    /// `String` and `Vec` values are not determined by their contents in
    /// these specifications, so the conversion is specified on the views, by
    /// `SessionMessage::from_chat`, rather than here.
    open spec fn obeys_from_spec() -> bool {
        false
    }

    open spec fn from_spec(msg: &'a ChatMessage) -> SessionMessage {
        arbitrary()
    }
}

impl From<ChatMessage> for SessionMessage {
    fn from(msg: ChatMessage) -> (r: SessionMessage) {
        SessionMessage::from_chat(&msg)
    }
}

impl vstd::std_specs::convert::FromSpecImpl<ChatMessage> for SessionMessage {
    /// Specified on the views by `SessionMessage::from_chat`.
    open spec fn obeys_from_spec() -> bool {
        false
    }

    open spec fn from_spec(msg: ChatMessage) -> SessionMessage {
        arbitrary()
    }
}

impl From<SessionMessage> for ChatMessage {
    fn from(msg: SessionMessage) -> (r: ChatMessage) {
        ChatMessage::from_session(msg)
    }
}

impl vstd::std_specs::convert::FromSpecImpl<SessionMessage> for ChatMessage {
    /// Specified on the views by `ChatMessage::from_session`.
    open spec fn obeys_from_spec() -> bool {
        false
    }

    open spec fn from_spec(msg: SessionMessage) -> ChatMessage {
        arbitrary()
    }
}

/// A persisted message that carries no images.
pub open spec fn without_images(s: SessionView) -> bool {
    match s {
        SessionView::Text { images, .. } => images.len() == 0,
        SessionView::ToolResult { images, .. } => images.len() == 0,
        _ => true,
    }
}

/// A chat line that its persisted form gives back whole: text of any role,
/// thinking of the assistant, a tool call of the assistant with no text of
/// its own, a tool result of the tool.
pub open spec fn persists_whole(c: ChatView) -> bool {
    match c.kind {
        KindView::Text => true,
        KindView::Thinking => c.role == Role::Assistant,
        KindView::ToolCall { .. } => c.role == Role::Assistant && c.content.len() == 0,
        KindView::ToolResult { .. } => c.role == Role::Tool,
        _ => false,
    }
}

/// A persisted message without images turned into a chat line and back is
/// the same message.
pub proof fn law_session_chat_session(s: SessionView)
    requires
        without_images(s),
    ensures
        session_of_chat(chat_of_session(s)) == s,
{
    match s {
        SessionView::Text { images, .. } => {
            assert(images =~= Seq::<Seq<char>>::empty());
        },
        SessionView::ToolResult { images, .. } => {
            assert(images =~= Seq::<Seq<char>>::empty());
        },
        _ => {},
    }
}

/// A chat line that persists whole, persisted and read back, is the same line.
pub proof fn law_chat_session_chat(c: ChatView)
    requires
        persists_whole(c),
    ensures
        chat_of_session(session_of_chat(c)) == c,
{
    if c.kind is ToolCall {
        assert(c.content =~= Seq::<char>::empty());
    }
}

} // verus!
