//! The live agent tree: agents start (the one that delegated waits), finish
//! (the one that waited goes on) or fail.
use vstd::prelude::*;

use super::App;
use crate::text::{decimal, push_decimal};
use crate::types::{
    chat_views, tree_view, ChatMessage, ChatView, KindView, MessageKind, NodeInfo, NodeStatus,
    NodeView, Role,
};

verus! {

/// The last position in `t` whose agent satisfies `p`.
pub open spec fn last_where(t: Seq<NodeView>, p: spec_fn(NodeView) -> bool) -> Option<int>
    decreases t.len(),
{
    if t.len() == 0 {
        None
    } else if p(t.last()) {
        Some(t.len() - 1)
    } else {
        last_where(t.drop_last(), p)
    }
}

pub proof fn lemma_last_where(t: Seq<NodeView>, p: spec_fn(NodeView) -> bool)
    ensures
        match last_where(t, p) {
            Some(k) => 0 <= k < t.len() && p(t[k]) && forall|q: int| k < q < t.len() ==> !p(t[q]),
            None => forall|q: int| 0 <= q < t.len() ==> !p(t[q]),
        },
    decreases t.len(),
{
    if t.len() > 0 && !p(t.last()) {
        lemma_last_where(t.drop_last(), p);
        assert forall|q: int| 0 <= q < t.len() - 1 implies t.drop_last()[q] == t[q] by {}
    }
}

/// `t` with the agent at `k` (if any) given status `s`.
pub open spec fn set_status(t: Seq<NodeView>, k: Option<int>, s: NodeStatus) -> Seq<NodeView> {
    match k {
        Some(i) => t.update(i, NodeView { status: s, ..t[i] }),
        None => t,
    }
}

/// Active agents suspended.
pub open spec fn suspend_active(t: Seq<NodeView>) -> Seq<NodeView> {
    t.map_values(
        |n: NodeView|
            if n.status == NodeStatus::Active {
                NodeView { status: NodeStatus::Suspended, ..n }
            } else {
                n
            },
    )
}

pub open spec fn is_active(n: NodeView) -> bool {
    n.status == NodeStatus::Active
}

pub open spec fn at_depth(d: usize) -> spec_fn(NodeView) -> bool {
    |n: NodeView| n.depth == d
}

pub open spec fn suspended_at_depth(d: int) -> spec_fn(NodeView) -> bool {
    |n: NodeView| n.depth == d && n.status == NodeStatus::Suspended
}

/// The tree after the agent at `depth` finished: it is done, and the
/// suspended agent one level up (the last one) is active again.
pub open spec fn exit_tree(t: Seq<NodeView>, depth: usize) -> Seq<NodeView> {
    let t1 = set_status(t, last_where(t, at_depth(depth)), NodeStatus::Done);
    if depth > 0 {
        set_status(t1, last_where(t1, suspended_at_depth(depth - 1)), NodeStatus::Active)
    } else {
        t1
    }
}

/// A position, as an integer.
pub open spec fn opt_index(r: Option<usize>) -> Option<int> {
    match r {
        Some(k) => Some(k as int),
        None => None,
    }
}

/// Agents at the given depth (if one is given) with the given status (if one is given).
pub open spec fn node_filter(depth: Option<usize>, status: Option<NodeStatus>) -> spec_fn(NodeView) -> bool {
    |n: NodeView|
        (depth matches Some(d) ==> n.depth == d) && (status matches Some(s) ==> n.status == s)
}

/// The last agent that matches the filter, found by a scan from the end.
pub(crate) fn find_last(tree: &Vec<NodeInfo>, depth: Option<usize>, status: Option<NodeStatus>) -> (r: Option<
    usize,
>)
    ensures
        opt_index(r) == last_where(tree_view(tree@), node_filter(depth, status)),
{
    let ghost p = node_filter(depth, status);
    let ghost tv = tree_view(tree@);
    let mut i = tree.len();
    assert(tv.take(i as int) =~= tv);
    while i > 0
        invariant
            i <= tree@.len(),
            tv == tree_view(tree@),
            p == node_filter(depth, status),
            last_where(tv, p) == last_where(tv.take(i as int), p),
        decreases i,
    {
        let n = &tree[i - 1];
        let ok_depth = match depth {
            Some(d) => n.depth == d,
            None => true,
        };
        let ok_status = match status {
            Some(s) => n.status == s,
            None => true,
        };
        assert(tv.take(i as int).last() == tv[i - 1]);
        assert(tv[i - 1] == tree@[i - 1]@);
        assert(tv.take(i as int).drop_last() =~= tv.take(i - 1));
        if ok_depth && ok_status {
            assert(p(tv.take(i as int).last()));
            return Some(i - 1);
        }
        i = i - 1;
    }
    None
}

impl App {
    pub fn enter_subtask(&mut self, depth: usize, label: String)
        ensures
            tree_view(final(self).tree@) == suspend_active(tree_view(old(self).tree@)).push(
                NodeView { depth, label: label@, status: NodeStatus::Active, context_used: 0 },
            ),
            chat_views(final(self).messages@) == chat_views(old(self).messages@).push(
                ChatView {
                    role: Role::Assistant,
                    content: "depth "@ + decimal(depth as nat) + ": "@ + label@,
                    kind: KindView::SubtaskEnter { depth, label: label@ },
                },
            ),
            final(self).subtask_tool_calls == 0,
            final(self).plan == old(self).plan,
    {
        let ghost tv = tree_view(self.tree@);
        let n = self.tree.len();
        let mut i: usize = 0;
        while i < n
            invariant
                n == self.tree@.len(),
                tv.len() == n,
                i <= n,
                forall|q: int|
                    0 <= q < i ==> (#[trigger] tree_view(self.tree@)[q]) == suspend_active(tv)[q],
                forall|q: int| i <= q < n ==> (#[trigger] tree_view(self.tree@)[q]) == tv[q],
                self.messages == old(self).messages,
                self.plan == old(self).plan,
            decreases n - i,
        {
            assert(tree_view(self.tree@)[i as int] == tv[i as int]);
            assert(self.tree@[i as int]@ == tv[i as int]);
            if self.tree[i].status == NodeStatus::Active {
                let node = NodeInfo {
                    depth: self.tree[i].depth,
                    label: self.tree[i].label.clone(),
                    status: NodeStatus::Suspended,
                    context_used: self.tree[i].context_used,
                };
                let ghost tb = self.tree@;
                self.tree.set(i, node);
                assert(tree_view(self.tree@) =~= tree_view(tb).update(i as int, node@));
            }
            assert(tree_view(self.tree@)[i as int] == self.tree@[i as int]@);
            assert(suspend_active(tv)[i as int] == (if tv[i as int].status == NodeStatus::Active {
                NodeView { status: NodeStatus::Suspended, ..tv[i as int] }
            } else {
                tv[i as int]
            }));
            assert(tree_view(self.tree@)[i as int] == suspend_active(tv)[i as int]);
            i = i + 1;
        }
        assert(tree_view(self.tree@) =~= suspend_active(tv));
        let mut content = String::new();
        content.append("depth ");
        push_decimal(&mut content, depth);
        content.append(": ");
        content.append(label.as_str());
        let ghost before = self.messages@;
        self.messages.push(
            ChatMessage {
                role: Role::Assistant,
                content,
                kind: MessageKind::SubtaskEnter { depth, label: label.clone() },
            },
        );
        assert(chat_views(self.messages@) =~= chat_views(before).push(self.messages@.last()@));
        let ghost tb = self.tree@;
        self.tree.push(NodeInfo { depth, label, status: NodeStatus::Active, context_used: 0 });
        assert(tree_view(self.tree@) =~= tree_view(tb).push(self.tree@.last()@));
        self.subtask_tool_calls = 0;
    }
}

fn set_node_status(tree: &mut Vec<NodeInfo>, k: Option<usize>, status: NodeStatus)
    requires
        k matches Some(i) ==> i < old(tree)@.len(),
    ensures
        tree_view(final(tree)@) == set_status(tree_view(old(tree)@), opt_index(k), status),
{
    if let Some(i) = k {
        let node = NodeInfo {
            depth: tree[i].depth,
            label: tree[i].label.clone(),
            status,
            context_used: tree[i].context_used,
        };
        let ghost tb = tree@;
        tree.set(i, node);
        assert(tree_view(tree@) =~= set_status(tree_view(tb), opt_index(k), status));
    }
}

impl App {
    /// Marks the last active agent, at any depth, as failed.
    pub fn fail_active_node(&mut self)
        ensures
            tree_view(final(self).tree@) == set_status(
                tree_view(old(self).tree@),
                last_where(tree_view(old(self).tree@), node_filter(None, Some(NodeStatus::Active))),
                NodeStatus::Failed,
            ),
            final(self).messages == old(self).messages,
    {
        let k = find_last(&self.tree, None, Some(NodeStatus::Active));
        proof {
            lemma_last_where(tree_view(self.tree@), node_filter(None, Some(NodeStatus::Active)));
        }
        set_node_status(&mut self.tree, k, NodeStatus::Failed);
    }

    /// The agent at `depth` finished.
    pub fn exit_subtask(&mut self, depth: usize)
        ensures
            tree_view(final(self).tree@) == exit_tree(tree_view(old(self).tree@), depth),
            chat_views(final(self).messages@) == chat_views(old(self).messages@).push(
                ChatView {
                    role: Role::Assistant,
                    content: "depth "@ + decimal(depth as nat) + " done"@,
                    kind: KindView::SubtaskExit { depth },
                },
            ),
            final(self).subtask_tool_calls == 0,
            final(self).plan == old(self).plan,
    {
        let ghost t0 = tree_view(self.tree@);
        let k = find_last(&self.tree, Some(depth), None);
        proof {
            lemma_last_where(t0, node_filter(Some(depth), None));
            assert(node_filter(Some(depth), None) =~= at_depth(depth));
        }
        set_node_status(&mut self.tree, k, NodeStatus::Done);
        if depth > 0 {
            let ghost t1 = tree_view(self.tree@);
            let p = find_last(&self.tree, Some(depth - 1), Some(NodeStatus::Suspended));
            proof {
                lemma_last_where(t1, node_filter(Some((depth - 1) as usize), Some(NodeStatus::Suspended)));
                assert(node_filter(Some((depth - 1) as usize), Some(NodeStatus::Suspended))
                    =~= suspended_at_depth(depth - 1));
            }
            set_node_status(&mut self.tree, p, NodeStatus::Active);
        }
        let mut content = String::new();
        content.append("depth ");
        push_decimal(&mut content, depth);
        content.append(" done");
        let ghost before = self.messages@;
        self.messages.push(
            ChatMessage { role: Role::Assistant, content, kind: MessageKind::SubtaskExit { depth } },
        );
        assert(chat_views(self.messages@) =~= chat_views(before).push(self.messages@.last()@));
        self.subtask_tool_calls = 0;
    }

    /// Whether any subagent started (the tree panel is worth showing).
    pub fn has_tree(&self) -> (r: bool)
        ensures
            r == (self.tree@.len() > 1),
    {
        self.tree.len() > 1
    }

    pub fn clear_tree(&mut self)
        ensures
            final(self).tree@.len() == 0,
            final(self).subtask_tool_calls == 0,
            final(self).messages == old(self).messages,
    {
        self.tree.clear();
        self.subtask_tool_calls = 0;
    }
}

/// How many agents of the tree are active.
pub open spec fn active_count(t: Seq<NodeView>) -> nat
    decreases t.len(),
{
    if t.len() == 0 {
        0
    } else {
        active_count(t.drop_last()) + if t.last().status == NodeStatus::Active {
            1nat
        } else {
            0nat
        }
    }
}

proof fn lemma_suspended_none_active(t: Seq<NodeView>)
    ensures
        active_count(suspend_active(t)) == 0,
    decreases t.len(),
{
    if t.len() > 0 {
        lemma_suspended_none_active(t.drop_last());
        assert(suspend_active(t).drop_last() =~= suspend_active(t.drop_last()));
    }
}

/// When an agent starts a subagent, the subagent is the one agent at work:
/// after `enter_subtask`, exactly one agent of the tree is active, the newest.
pub proof fn law_one_active_after_enter(t: Seq<NodeView>, depth: usize, label: Seq<char>)
    ensures
        ({
            let t2 = suspend_active(t).push(
                NodeView { depth, label, status: NodeStatus::Active, context_used: 0 },
            );
            active_count(t2) == 1 && t2.last().status == NodeStatus::Active
        }),
{
    let t2 = suspend_active(t).push(
        NodeView { depth, label, status: NodeStatus::Active, context_used: 0 },
    );
    lemma_suspended_none_active(t);
    assert(t2.drop_last() =~= suspend_active(t));
}

} // verus!
