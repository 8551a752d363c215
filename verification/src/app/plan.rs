//! The published plan on screen.
use vstd::prelude::*;

use super::App;
use crate::text::{decimal, push_decimal};
use crate::types::{
    chat_views, copy_plan, plan_view, ChatMessage, ChatView, KindView, MessageKind, PlanItem, Role,
};

verus! {

impl App {
    /// A new plan replaces the old one and is shown as a chat line.
    pub fn apply_plan_update(&mut self, items: Vec<PlanItem>)
        ensures
            plan_view(final(self).plan@) == plan_view(items@),
            chat_views(final(self).messages@) == chat_views(old(self).messages@).push(
                ChatView {
                    role: Role::Assistant,
                    content: "plan updated: "@ + decimal(items@.len()) + " items"@,
                    kind: KindView::PlanUpdate { items: plan_view(items@) },
                },
            ),
            final(self).scroll_offset == if old(self).auto_scroll {
                0
            } else {
                old(self).scroll_offset
            },
    {
        self.plan = copy_plan(&items);
        let mut content = String::new();
        content.append("plan updated: ");
        push_decimal(&mut content, items.len());
        content.append(" items");
        let ghost before = self.messages@;
        self.messages.push(
            ChatMessage {
                role: Role::Assistant,
                content,
                kind: MessageKind::PlanUpdate { items },
            },
        );
        assert(chat_views(self.messages@) =~= chat_views(before).push(self.messages@.last()@));
        if self.auto_scroll {
            self.scroll_offset = 0;
        }
    }
}

} // verus!
