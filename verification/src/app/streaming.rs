//! An assistant turn on screen: the streamed text and reasoning, the turn's
//! counts, and the lines it leaves when it ends.
use vstd::prelude::*;

use super::tree::{at_depth, last_where, lemma_last_where, node_filter, opt_index};
use super::{instant_now, App};
use crate::types::{
    chat_views, tree_view, ChatMessage, ChatView, KindView, MessageKind, NodeInfo, NodeStatus,
    NodeView, Role,
};

verus! {

/// The chat lines after the reasoning of the turn (if any) was kept.
pub open spec fn with_thinking(ms: Seq<ChatView>, think: Seq<char>) -> Seq<ChatView> {
    if think.len() > 0 {
        ms.push(ChatView { role: Role::Assistant, content: think, kind: KindView::Thinking })
    } else {
        ms
    }
}

/// The chat lines after the text of the turn (if any) was kept.
pub open spec fn with_text(ms: Seq<ChatView>, text: Seq<char>) -> Seq<ChatView> {
    if text.len() > 0 {
        ms.push(ChatView { role: Role::Assistant, content: text, kind: KindView::Text })
    } else {
        ms
    }
}

/// The tree with the last agent at `depth` (if any) showing `used` context.
pub open spec fn set_context(t: Seq<NodeView>, k: Option<int>, used: u64) -> Seq<NodeView> {
    match k {
        Some(i) => t.update(i, NodeView { context_used: used, ..t[i] }),
        None => t,
    }
}

impl App {
    /// A new assistant turn: streaming, with a fresh tree holding the orchestrator.
    pub fn start_assistant_turn(&mut self)
        ensures
            final(self).streaming,
            final(self).current_streaming_text@.len() == 0,
            final(self).turn_started_at is Some,
            final(self).error_message is None,
            tree_view(final(self).tree@) == seq![
                NodeView {
                    depth: 0,
                    label: "orchestrator"@,
                    status: NodeStatus::Active,
                    context_used: 0,
                },
            ],
            final(self).subtask_tool_calls == 0,
            final(self).messages == old(self).messages,
            final(self).current_thinking_text == old(self).current_thinking_text,
    {
        self.streaming = true;
        self.current_streaming_text = String::new();
        self.turn_started_at = Some(instant_now());
        self.error_message = None;
        self.tree.clear();
        self.subtask_tool_calls = 0;
        self.tree.push(
            NodeInfo {
                depth: 0,
                label: "orchestrator".to_owned(),
                status: NodeStatus::Active,
                context_used: 0,
            },
        );
        assert(tree_view(self.tree@) =~= seq![self.tree@[0]@]);
    }

    pub fn append_streaming_text(&mut self, delta: &str)
        ensures
            final(self).current_streaming_text@ == old(self).current_streaming_text@ + delta@,
            final(self).scroll_offset == if old(self).auto_scroll {
                0
            } else {
                old(self).scroll_offset
            },
            final(self).messages == old(self).messages,
    {
        self.current_streaming_text.append(delta);
        if self.auto_scroll {
            self.scroll_offset = 0;
        }
    }

    pub fn append_thinking_text(&mut self, delta: &str)
        ensures
            final(self).current_thinking_text@ == old(self).current_thinking_text@ + delta@,
            final(self).scroll_offset == if old(self).auto_scroll {
                0
            } else {
                old(self).scroll_offset
            },
            final(self).messages == old(self).messages,
    {
        self.current_thinking_text.append(delta);
        if self.auto_scroll {
            self.scroll_offset = 0;
        }
    }

    pub fn set_thinking(&mut self, thinking: bool)
        ensures
            final(self).thinking == thinking,
            final(self).messages == old(self).messages,
    {
        self.thinking = thinking;
    }

    /// Keeps the reasoning of the turn, if any, as a chat line.
    pub fn flush_thinking(&mut self)
        ensures
            chat_views(final(self).messages@) == with_thinking(
                chat_views(old(self).messages@),
                old(self).current_thinking_text@,
            ),
            final(self).current_thinking_text@.len() == 0,
            !final(self).thinking,
            final(self).current_streaming_text == old(self).current_streaming_text,
            final(self).auto_scroll == old(self).auto_scroll,
            final(self).scroll_offset == old(self).scroll_offset,
    {
        let mut think = String::new();
        std::mem::swap(&mut think, &mut self.current_thinking_text);
        if !think.as_str().is_empty() {
            let ghost before = self.messages@;
            self.messages.push(
                ChatMessage { role: Role::Assistant, content: think, kind: MessageKind::Thinking },
            );
            assert(chat_views(self.messages@) =~= chat_views(before).push(self.messages@.last()@));
        }
        self.thinking = false;
    }

    /// Ends the assistant turn: its reasoning and then its text become chat
    /// lines, and the turn's tree is cleared.
    pub fn finish_assistant_turn(&mut self)
        ensures
            chat_views(final(self).messages@) == with_text(
                with_thinking(chat_views(old(self).messages@), old(self).current_thinking_text@),
                old(self).current_streaming_text@,
            ),
            final(self).current_thinking_text@.len() == 0,
            final(self).current_streaming_text@.len() == 0,
            !final(self).streaming,
            !final(self).thinking,
            final(self).turn_started_at is None,
            final(self).tree@.len() == 0,
            final(self).subtask_tool_calls == 0,
            final(self).scroll_offset == if old(self).auto_scroll {
                0
            } else {
                old(self).scroll_offset
            },
    {
        self.flush_thinking();
        let mut text = String::new();
        std::mem::swap(&mut text, &mut self.current_streaming_text);
        if !text.as_str().is_empty() {
            let ghost before = self.messages@;
            self.messages.push(
                ChatMessage { role: Role::Assistant, content: text, kind: MessageKind::Text },
            );
            assert(chat_views(self.messages@) =~= chat_views(before).push(self.messages@.last()@));
        }
        self.streaming = false;
        self.thinking = false;
        self.turn_started_at = None;
        self.tree.clear();
        self.subtask_tool_calls = 0;
        if self.auto_scroll {
            self.scroll_offset = 0;
        }
    }

    /// Takes in the counts of a model turn at `depth`: the totals grow; the
    /// context gauge and the last prompt size follow the root agent only; the
    /// last agent at that depth shows its prompt size.
    pub fn update_turn_stats(
        &mut self,
        eval_count: u64,
        eval_duration_ns: u64,
        prompt_eval_count: u64,
        depth: usize,
    )
        requires
            old(self).total_tokens_down + eval_count <= u64::MAX,
            old(self).total_tokens_up + prompt_eval_count <= u64::MAX,
        ensures
            final(self).last_eval_count == Some(eval_count),
            final(self).last_eval_duration_ns == Some(eval_duration_ns),
            final(self).last_prompt_eval_count == if depth == 0 {
                Some(prompt_eval_count)
            } else {
                old(self).last_prompt_eval_count
            },
            final(self).context_used == if depth == 0 {
                prompt_eval_count
            } else {
                old(self).context_used
            },
            final(self).total_tokens_down == old(self).total_tokens_down + eval_count,
            final(self).total_tokens_up == old(self).total_tokens_up + prompt_eval_count,
            tree_view(final(self).tree@) == set_context(
                tree_view(old(self).tree@),
                last_where(tree_view(old(self).tree@), at_depth(depth)),
                prompt_eval_count,
            ),
            final(self).messages == old(self).messages,
    {
        self.last_eval_count = Some(eval_count);
        self.last_eval_duration_ns = Some(eval_duration_ns);
        if depth == 0 {
            self.last_prompt_eval_count = Some(prompt_eval_count);
            self.context_used = prompt_eval_count;
        }
        self.total_tokens_down = self.total_tokens_down + eval_count;
        self.total_tokens_up = self.total_tokens_up + prompt_eval_count;
        let ghost t0 = tree_view(self.tree@);
        let k = super::tree::find_last(&self.tree, Some(depth), None);
        proof {
            lemma_last_where(t0, node_filter(Some(depth), None));
            assert(node_filter(Some(depth), None) =~= at_depth(depth));
        }
        if let Some(i) = k {
            let node = NodeInfo {
                depth: self.tree[i].depth,
                label: self.tree[i].label.clone(),
                status: self.tree[i].status,
                context_used: prompt_eval_count,
            };
            let ghost tb = self.tree@;
            self.tree.set(i, node);
            assert(tree_view(self.tree@) =~= set_context(t0, opt_index(k), prompt_eval_count));
        }
    }
}

} // verus!
