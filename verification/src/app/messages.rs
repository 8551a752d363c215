//! Chat lines: the user's messages, tool calls and their results, queued
//! messages, pasted images.
use vstd::prelude::*;

use super::App;
use crate::json::{json_text, json_to_text};
use crate::types::{
    chat_views, ChatMessage, ChatView, KindView, MessageKind, Role, ToolCall, ToolResult,
};

verus! {

/// How a tool call's arguments are shown: their JSON text, or `{}`.
pub open spec fn args_summary(arguments: serde_json::Value) -> Seq<char> {
    match json_text(arguments) {
        Some(s) => s,
        None => "{}"@,
    }
}

/// The name of the tool whose call has id `call_id`: the most recent such
/// call among the lines; `tool` when there is none.
pub open spec fn tool_name_for(ms: Seq<ChatView>, call_id: Seq<char>) -> Seq<char>
    decreases ms.len(),
{
    if ms.len() == 0 {
        "tool"@
    } else {
        match ms.last().kind {
            KindView::ToolCall { call_id: id, name, .. } => if id == call_id {
                name
            } else {
                tool_name_for(ms.drop_last(), call_id)
            },
            _ => tool_name_for(ms.drop_last(), call_id),
        }
    }
}

/// The first queued line of the user.
pub open spec fn first_queued(ms: Seq<ChatView>) -> Option<int>
    decreases ms.len(),
{
    if ms.len() == 0 {
        None
    } else if ms[0].role == Role::User && ms[0].kind is Queued {
        Some(0)
    } else {
        match first_queued(ms.skip(1)) {
            Some(k) => Some(k + 1),
            None => None,
        }
    }
}

proof fn lemma_first_queued(ms: Seq<ChatView>)
    ensures
        match first_queued(ms) {
            Some(k) => 0 <= k < ms.len() && ms[k].role == Role::User && ms[k].kind is Queued
                && forall|q: int| 0 <= q < k ==> !(ms[q].role == Role::User && ms[q].kind is Queued),
            None => forall|q: int| 0 <= q < ms.len() ==> !(ms[q].role == Role::User && ms[q].kind is Queued),
        },
    decreases ms.len(),
{
    if ms.len() > 0 && !(ms[0].role == Role::User && ms[0].kind is Queued) {
        lemma_first_queued(ms.skip(1));
        assert forall|q: int| 1 <= q < ms.len() implies ms.skip(1)[q - 1] == ms[q] by {}
    }
}

fn tool_name_of(messages: &Vec<ChatMessage>, call_id: &String) -> (r: String)
    ensures
        r@ == tool_name_for(chat_views(messages@), call_id@),
{
    let ghost ms = chat_views(messages@);
    let mut i = messages.len();
    assert(ms.take(i as int) =~= ms);
    while i > 0
        invariant
            i <= messages@.len(),
            ms == chat_views(messages@),
            tool_name_for(ms, call_id@) == tool_name_for(ms.take(i as int), call_id@),
        decreases i,
    {
        assert(ms.take(i as int).last() == messages@[i - 1]@);
        assert(ms.take(i as int).drop_last() =~= ms.take(i - 1));
        match &messages[i - 1].kind {
            MessageKind::ToolCall { call_id: id, name, .. } => {
                if crate::text::str_eq(id.as_str(), call_id.as_str()) {
                    return name.clone();
                }
            },
            _ => {},
        }
        i = i - 1;
    }
    assert(ms.take(0) =~= Seq::<ChatView>::empty());
    "tool".to_owned()
}

impl App {
    fn push_line(&mut self, m: ChatMessage)
        ensures
            chat_views(final(self).messages@) == chat_views(old(self).messages@).push(m@),
            final(self).message_queue == old(self).message_queue,
            final(self).subtask_tool_calls == old(self).subtask_tool_calls,
            final(self).auto_scroll == old(self).auto_scroll,
            final(self).scroll_offset == old(self).scroll_offset,
            final(self).plan == old(self).plan,
            final(self).pending_images == old(self).pending_images,
    {
        let ghost before = self.messages@;
        self.messages.push(m);
        assert(chat_views(self.messages@) =~= chat_views(before).push(m@));
    }

    pub fn add_user_message(&mut self, text: String)
        ensures
            chat_views(final(self).messages@) == chat_views(old(self).messages@).push(
                ChatView { role: Role::User, content: text@, kind: KindView::Text },
            ),
            final(self).scroll_offset == if old(self).auto_scroll {
                0
            } else {
                old(self).scroll_offset
            },
    {
        self.push_line(ChatMessage { role: Role::User, content: text, kind: MessageKind::Text });
        if self.auto_scroll {
            self.scroll_offset = 0;
        }
    }

    /// Shows a tool call; calls other than delegation count for the working agent.
    pub fn add_tool_call(&mut self, call: &ToolCall)
        requires
            old(self).subtask_tool_calls < usize::MAX,
        ensures
            chat_views(final(self).messages@) == chat_views(old(self).messages@).push(
                ChatView {
                    role: Role::Assistant,
                    content: call.name@ + "("@ + args_summary(call.arguments) + ")"@,
                    kind: KindView::ToolCall {
                        call_id: call.id@,
                        name: call.name@,
                        arguments: args_summary(call.arguments),
                    },
                },
            ),
            final(self).subtask_tool_calls == if call.name@ == "delegate_task"@ {
                old(self).subtask_tool_calls
            } else {
                (old(self).subtask_tool_calls + 1) as usize
            },
    {
        let summary = match json_to_text(&call.arguments) {
            Some(s) => s,
            None => "{}".to_owned(),
        };
        let mut content = call.name.clone();
        content.append("(");
        content.append(summary.as_str());
        content.append(")");
        self.push_line(
            ChatMessage {
                role: Role::Assistant,
                content,
                kind: MessageKind::ToolCall {
                    call_id: call.id.clone(),
                    name: call.name.clone(),
                    arguments: summary,
                },
            },
        );
        if !crate::text::str_eq(call.name.as_str(), "delegate_task") {
            self.subtask_tool_calls = self.subtask_tool_calls + 1;
        }
    }

    /// Shows a tool result, under the name of the call it answers.
    pub fn add_tool_result(&mut self, result: &ToolResult)
        ensures
            chat_views(final(self).messages@) == chat_views(old(self).messages@).push(
                ChatView {
                    role: Role::Tool,
                    content: result.output@,
                    kind: KindView::ToolResult {
                        name: tool_name_for(chat_views(old(self).messages@), result.call_id@),
                        is_error: result.is_error,
                    },
                },
            ),
    {
        let name = tool_name_of(&self.messages, &result.call_id);
        self.push_line(
            ChatMessage {
                role: Role::Tool,
                content: result.output.clone(),
                kind: MessageKind::ToolResult { name, is_error: result.is_error },
            },
        );
    }
}

impl App {
    /// Clears the conversation on screen (the token totals stay).
    pub fn clear_messages(&mut self)
        ensures
            final(self).messages@.len() == 0,
            final(self).message_queue@.len() == 0,
            final(self).plan@.len() == 0,
            final(self).error_message is None,
            final(self).last_eval_count is None,
            final(self).last_eval_duration_ns is None,
            final(self).last_prompt_eval_count is None,
            final(self).context_used == 0,
            final(self).total_tokens_up == old(self).total_tokens_up,
            final(self).total_tokens_down == old(self).total_tokens_down,
    {
        self.messages.clear();
        self.message_queue.clear();
        self.plan.clear();
        self.error_message = None;
        self.last_eval_count = None;
        self.last_eval_duration_ns = None;
        self.last_prompt_eval_count = None;
        self.context_used = 0;
    }

    pub fn add_pending_image(&mut self, base64_data: String)
        ensures
            final(self).pending_images@ == old(self).pending_images@.push(base64_data),
    {
        self.pending_images.push(base64_data);
    }

    /// Hands over the pasted images, leaving none.
    pub fn take_pending_images(&mut self) -> (r: Vec<String>)
        ensures
            r@ == old(self).pending_images@,
            final(self).pending_images@.len() == 0,
    {
        let mut taken: Vec<String> = Vec::new();
        std::mem::swap(&mut taken, &mut self.pending_images);
        taken
    }

    pub fn pending_image_count(&self) -> (r: usize)
        ensures
            r == self.pending_images@.len(),
    {
        self.pending_images.len()
    }

    /// A message typed while the agent works: shown as queued, sent later.
    pub fn enqueue_message(&mut self, text: String, images: Vec<String>)
        ensures
            chat_views(final(self).messages@) == chat_views(old(self).messages@).push(
                ChatView { role: Role::User, content: text@, kind: KindView::Queued },
            ),
            final(self).message_queue@.len() == old(self).message_queue@.len() + 1,
            forall|i: int|
                0 <= i < old(self).message_queue@.len() ==> final(self).message_queue@[i] == old(
                    self,
                ).message_queue@[i],
            final(self).message_queue@.last().0@ == text@,
            final(self).message_queue@.last().1 == images,
            final(self).scroll_offset == if old(self).auto_scroll {
                0
            } else {
                old(self).scroll_offset
            },
    {
        self.push_line(
            ChatMessage { role: Role::User, content: text.clone(), kind: MessageKind::Queued },
        );
        self.message_queue.push_back((text, images));
        if self.auto_scroll {
            self.scroll_offset = 0;
        }
    }

    /// The oldest queued message, if any; its line, the first queued one of
    /// the user, becomes an ordinary user line.
    pub fn dequeue_message(&mut self) -> (r: Option<(String, Vec<String>)>)
        ensures
            old(self).message_queue@.len() == 0 ==> r is None && final(self).messages
                == old(self).messages,
            old(self).message_queue@.len() > 0 ==> {
                &&& r == Some(old(self).message_queue@[0])
                &&& final(self).message_queue@ == old(self).message_queue@.drop_first()
                &&& chat_views(final(self).messages@) == match first_queued(
                    chat_views(old(self).messages@),
                ) {
                    Some(k) => chat_views(old(self).messages@).update(
                        k,
                        ChatView { kind: KindView::Text, ..chat_views(old(self).messages@)[k] },
                    ),
                    None => chat_views(old(self).messages@),
                }
            },
    {
        let item = match self.message_queue.pop_front() {
            Some(item) => item,
            None => {
                return None;
            },
        };
        let ghost ms = chat_views(self.messages@);
        proof {
            lemma_first_queued(ms);
        }
        let n = self.messages.len();
        let mut i: usize = 0;
        while i < n
            invariant
                n == self.messages@.len(),
                ms == chat_views(self.messages@),
                ms == chat_views(old(self).messages@),
                old(self).message_queue@.len() > 0,
                item == old(self).message_queue@[0],
                self.message_queue@ == old(self).message_queue@.drop_first(),
                i <= n,
                forall|q: int| 0 <= q < i ==> !(ms[q].role == Role::User && ms[q].kind is Queued),
            decreases n - i,
        {
            assert(ms[i as int] == self.messages@[i as int]@);
            let is_queued = match self.messages[i].kind {
                MessageKind::Queued => true,
                _ => false,
            };
            if self.messages[i].role == Role::User && is_queued {
                let m = ChatMessage {
                    role: Role::User,
                    content: self.messages[i].content.clone(),
                    kind: MessageKind::Text,
                };
                let ghost before = self.messages@;
                self.messages.set(i, m);
                proof {
                    lemma_first_queued(ms);
                    assert(ms[i as int].role == Role::User && ms[i as int].kind is Queued);
                    assert(first_queued(ms) == Some(i as int));
                    assert(chat_views(self.messages@) =~= ms.update(
                        i as int,
                        ChatView { kind: KindView::Text, ..ms[i as int] },
                    ));
                }
                return Some(item);
            }
            i = i + 1;
        }
        proof {
            lemma_first_queued(ms);
        }
        Some(item)
    }

    pub fn queue_len(&self) -> (r: usize)
        ensures
            r == self.message_queue@.len(),
    {
        self.message_queue.len()
    }
}

} // verus!
