//! Data shared across the library: roles, modes, tool definitions, chat messages.
use vstd::prelude::*;

verus! {

#[verifier::external_type_specification]
#[verifier::external_body]
pub struct ExJsonValue(serde_json::Value);

/// Who wrote a message.
#[derive(Clone, Copy, Debug, PartialEq, Eq, Structural)]
pub enum Role {
    System,
    User,
    Assistant,
    Tool,
}

/// How the agent works with the user.
#[derive(Clone, Copy, Debug, PartialEq, Eq, Structural)]
pub enum AgentMode {
    /// Clarify, plan, then execute; no file writes.
    Plan,
    /// Ask at least one clarifying question, then work.
    Thorough,
    /// Work straight through.
    Oneshot,
}

impl AgentMode {
    /// The next mode, in the order plan → thorough → oneshot → plan.
    pub fn cycle(&self) -> (r: AgentMode)
        ensures
            r == match *self {
                AgentMode::Plan => AgentMode::Thorough,
                AgentMode::Thorough => AgentMode::Oneshot,
                AgentMode::Oneshot => AgentMode::Plan,
            },
    {
        match self {
            AgentMode::Plan => AgentMode::Thorough,
            AgentMode::Thorough => AgentMode::Oneshot,
            AgentMode::Oneshot => AgentMode::Plan,
        }
    }

    /// The mode's name as shown to the user.
    pub fn label(&self) -> (r: &'static str)
        ensures
            r@ == match *self {
                AgentMode::Plan => "plan"@,
                AgentMode::Thorough => "thorough"@,
                AgentMode::Oneshot => "oneshot"@,
            },
    {
        match self {
            AgentMode::Plan => "plan",
            AgentMode::Thorough => "thorough",
            AgentMode::Oneshot => "oneshot",
        }
    }
}

impl Default for AgentMode {
    fn default() -> (r: Self)
        ensures
            r == AgentMode::Oneshot,
    {
        AgentMode::Oneshot
    }
}

/// How hard the system prompt is compressed, and which output style is requested.
#[derive(Clone, Copy, Debug, PartialEq, Eq, Structural)]
pub enum CavemanLevel {
    Off,
    Lite,
    Full,
    Ultra,
}

impl CavemanLevel {
    pub fn is_active(&self) -> (r: bool)
        ensures
            r == (*self != CavemanLevel::Off),
    {
        match self {
            CavemanLevel::Off => false,
            _ => true,
        }
    }
}

/// Where a tool is implemented.
#[derive(Clone, Copy, Debug, PartialEq, Eq, Structural)]
pub enum ToolSource {
    BuiltIn,
    Mcp,
}

/// A tool offered to the model: name, description and JSON-schema parameters.
pub struct ToolDefinition {
    pub name: String,
    pub description: String,
    pub parameters: serde_json::Value,
    pub source: ToolSource,
}

/// Whether a JSON value is `null`.
pub uninterp spec fn json_is_null(v: serde_json::Value) -> bool;

/// The JSON value `null` (`serde_json::Value::Null`); `Value::is_null` holds of it.
#[verifier::external_body]
pub(crate) fn json_null() -> (r: serde_json::Value)
    ensures
        json_is_null(r),
{
    serde_json::Value::Null
}

/// Copies a JSON value (`serde_json::Value::clone`).
#[verifier::external_body]
pub(crate) fn clone_json(v: &serde_json::Value) -> (r: serde_json::Value)
    ensures
        r == *v,
{
    v.clone()
}

impl ToolDefinition {
    /// An identical copy.
    pub fn duplicate(&self) -> (r: Self)
        ensures
            r == *self,
    {
        ToolDefinition {
            name: self.name.clone(),
            description: self.description.clone(),
            parameters: clone_json(&self.parameters),
            source: self.source,
        }
    }
}

/// Status of one plan step.
#[derive(Clone, Copy, Debug, PartialEq, Eq, Structural)]
pub enum PlanStatus {
    Pending,
    InProgress,
    Completed,
}

/// One step of the agent's published plan.
#[derive(Clone, Debug, PartialEq)]
pub struct PlanItem {
    pub content: String,
    pub status: PlanStatus,
}

/// What a chat line shows.
pub enum MessageKind {
    Text,
    Thinking,
    ToolCall { call_id: String, name: String, arguments: String },
    ToolResult { name: String, is_error: bool },
    Queued,
    SubtaskEnter { depth: usize, label: String },
    SubtaskExit { depth: usize },
    PlanUpdate { items: Vec<PlanItem> },
}

/// A line of the conversation as shown on screen.
pub struct ChatMessage {
    pub role: Role,
    pub content: String,
    pub kind: MessageKind,
}

/// One tool call the model asked for.
pub struct ToolCall {
    pub id: String,
    pub name: String,
    pub arguments: serde_json::Value,
}

/// A message of the conversation as it is sent to the model.
pub struct Message {
    pub role: Role,
    pub content: String,
    pub images: Vec<String>,
    pub tool_calls: Vec<ToolCall>,
}

impl Message {
    /// A plain message: no images, no tool calls.
    pub fn new(role: Role, content: String) -> (r: Self)
        ensures
            r.role == role,
            r.content == content,
            r.images@.len() == 0,
            r.tool_calls@.len() == 0,
    {
        Message { role, content, images: Vec::new(), tool_calls: Vec::new() }
    }

    /// An assistant message that asks for tool calls.
    pub fn tool_request(content: String, tool_calls: Vec<ToolCall>) -> (r: Self)
        ensures
            r.role == Role::Assistant,
            r.content == content,
            r.images@.len() == 0,
            r.tool_calls == tool_calls,
    {
        Message { role: Role::Assistant, content, images: Vec::new(), tool_calls }
    }
}

/// What a chat line shows, as text.
pub enum KindView {
    Text,
    Thinking,
    ToolCall { call_id: Seq<char>, name: Seq<char>, arguments: Seq<char> },
    ToolResult { name: Seq<char>, is_error: bool },
    Queued,
    SubtaskEnter { depth: usize, label: Seq<char> },
    SubtaskExit { depth: usize },
    PlanUpdate { items: Seq<(Seq<char>, PlanStatus)> },
}

/// The text and status of each plan step.
pub open spec fn plan_view(items: Seq<PlanItem>) -> Seq<(Seq<char>, PlanStatus)> {
    items.map_values(|p: PlanItem| (p.content@, p.status))
}

impl View for MessageKind {
    type V = KindView;

    open spec fn view(&self) -> KindView {
        match self {
            MessageKind::Text => KindView::Text,
            MessageKind::Thinking => KindView::Thinking,
            MessageKind::ToolCall { call_id, name, arguments } => KindView::ToolCall {
                call_id: call_id@,
                name: name@,
                arguments: arguments@,
            },
            MessageKind::ToolResult { name, is_error } => KindView::ToolResult {
                name: name@,
                is_error: *is_error,
            },
            MessageKind::Queued => KindView::Queued,
            MessageKind::SubtaskEnter { depth, label } => KindView::SubtaskEnter {
                depth: *depth,
                label: label@,
            },
            MessageKind::SubtaskExit { depth } => KindView::SubtaskExit { depth: *depth },
            MessageKind::PlanUpdate { items } => KindView::PlanUpdate { items: plan_view(items@) },
        }
    }
}

/// A chat line as text.
pub struct ChatView {
    pub role: Role,
    pub content: Seq<char>,
    pub kind: KindView,
}

impl View for ChatMessage {
    type V = ChatView;

    open spec fn view(&self) -> ChatView {
        ChatView { role: self.role, content: self.content@, kind: self.kind@ }
    }
}

/// What running a tool gave back.
pub struct ToolResult {
    pub call_id: String,
    pub output: String,
    pub is_error: bool,
    pub images: Vec<String>,
}

impl ToolResult {
    /// The result of a tool call: its output, or its error message.
    pub fn from_outcome(call_id: String, outcome: Result<String, String>) -> (r: Self)
        ensures
            r.call_id == call_id,
            r.images@.len() == 0,
            match outcome {
                Ok(text) => r.output == text && !r.is_error,
                Err(msg) => r.output == msg && r.is_error,
            },
    {
        match outcome {
            Ok(text) => ToolResult { call_id, output: text, is_error: false, images: Vec::new() },
            Err(msg) => ToolResult { call_id, output: msg, is_error: true, images: Vec::new() },
        }
    }
}

/// Where an agent of the live tree stands.
#[derive(Clone, Copy, Debug, PartialEq, Eq, Structural)]
pub enum NodeStatus {
    Active,
    Suspended,
    Done,
    Failed,
}

/// One agent of the live tree: its depth, what it was asked, its status,
/// and how much context its last prompt used.
pub struct NodeInfo {
    pub depth: usize,
    pub label: String,
    pub status: NodeStatus,
    pub context_used: u64,
}

/// A copy of a plan.
pub fn copy_plan(items: &Vec<PlanItem>) -> (r: Vec<PlanItem>)
    ensures
        plan_view(r@) == plan_view(items@),
{
    let n = items.len();
    let mut r: Vec<PlanItem> = Vec::new();
    for i in 0..n
        invariant
            n == items@.len(),
            plan_view(r@) =~= plan_view(items@).take(i as int),
    {
        r.push(PlanItem { content: items[i].content.clone(), status: items[i].status });
        assert(plan_view(items@).take(i + 1) =~= plan_view(items@).take(i as int).push(
            (items@[i as int].content@, items@[i as int].status),
        ));
    }
    assert(plan_view(items@).take(n as int) =~= plan_view(items@));
    r
}

/// Chat lines as text.
pub open spec fn chat_views(ms: Seq<ChatMessage>) -> Seq<ChatView> {
    ms.map_values(|m: ChatMessage| m@)
}

/// An agent of the live tree, as values.
pub struct NodeView {
    pub depth: usize,
    pub label: Seq<char>,
    pub status: NodeStatus,
    pub context_used: u64,
}

impl View for NodeInfo {
    type V = NodeView;

    open spec fn view(&self) -> NodeView {
        NodeView {
            depth: self.depth,
            label: self.label@,
            status: self.status,
            context_used: self.context_used,
        }
    }
}

/// The agents of a tree, as values.
pub open spec fn tree_view(t: Seq<NodeInfo>) -> Seq<NodeView> {
    t.map_values(|n: NodeInfo| n@)
}

} // verus!
