//! The state of the chat screen: messages, streaming, scrolling, the live
//! agent tree, the plan, queued messages and the pop-ups.
use vstd::prelude::*;

use crate::autocomplete::Autocomplete;
use crate::input::InputState;
use crate::types::{AgentMode, ChatMessage, NodeInfo, PlanItem};
use std::collections::VecDeque;

pub mod messages;
pub mod pickers;
pub mod plan;
pub mod scroll;
pub mod streaming;
pub mod tree;

pub use pickers::{InterviewPickerState, ModelPickerState};

verus! {

#[verifier::external_type_specification]
#[verifier::external_body]
pub struct ExPathBuf(std::path::PathBuf);

#[verifier::external_type_specification]
#[verifier::external_body]
pub struct ExInstant(std::time::Instant);

/// The current instant (`std::time::Instant::now`); nothing is promised of it.
#[verifier::external_body]
pub(crate) fn instant_now() -> std::time::Instant {
    std::time::Instant::now()
}

pub struct App {
    pub messages: Vec<ChatMessage>,
    pub input: InputState,
    pub streaming: bool,
    pub thinking: bool,
    pub current_streaming_text: String,
    pub current_thinking_text: String,
    pub scroll_offset: u32,
    pub auto_scroll: bool,
    pub viewport_height: u32,
    pub model_name: String,
    pub working_dir: std::path::PathBuf,
    pub mcp_connected: Vec<String>,
    pub mcp_failed: Vec<(String, String)>,
    pub resumed_session: Option<String>,
    pub running: bool,
    pub error_message: Option<String>,
    pub tick: u64,
    pub turn_started_at: Option<std::time::Instant>,
    pub last_eval_count: Option<u64>,
    pub last_eval_duration_ns: Option<u64>,
    pub last_prompt_eval_count: Option<u64>,
    pub context_used: u64,
    pub context_window_size: Option<u64>,
    pub total_tokens_up: u64,
    pub total_tokens_down: u64,
    pub pending_images: Vec<String>,
    pub message_queue: VecDeque<(String, Vec<String>)>,
    pub autocomplete: Option<Autocomplete>,
    pub available_models: Vec<String>,
    pub model_picker: Option<ModelPickerState>,
    pub interview_picker: Option<InterviewPickerState>,
    pub mode: AgentMode,
    pub flat: bool,
    /// The current plan (replaced whole by each plan update).
    pub plan: Vec<PlanItem>,
    /// The live agent tree: agents in the order they started, with their depth.
    pub tree: Vec<NodeInfo>,
    /// Tool calls of the agent that is working now.
    pub subtask_tool_calls: usize,
}

/// The spinner frames.
pub open spec fn spinner_frame(k: int) -> char {
    if k == 0 {
        '⠋'
    } else if k == 1 {
        '⠙'
    } else if k == 2 {
        '⠹'
    } else if k == 3 {
        '⠸'
    } else if k == 4 {
        '⠼'
    } else if k == 5 {
        '⠴'
    } else if k == 6 {
        '⠦'
    } else if k == 7 {
        '⠧'
    } else if k == 8 {
        '⠇'
    } else {
        '⠏'
    }
}

pub const HELP_TEXT: &'static str = "Commands:
         — /clear, /new: clear conversation
         — /help: show this help
         Keybindings:
         — Enter: send message
         — Shift+Enter: newline
         — Tab: autocomplete /commands
         — Esc: cancel streaming
         — Ctrl+C: quit
         — Ctrl+U: clear input
         — Ctrl+W: delete word
         — Ctrl+A: start of line
         — Ctrl+E: end of line
         — Shift+Tab: cycle mode (plan → thorough → oneshot)
         — /review <scope>: verify the task is solved + check test coverage
         — /simplify <scope>: refactor for clarity, reuse, and idiomatic style
         — /flat: toggle flat mode (single-level, no delegation)
         — Ctrl+V: paste image from clipboard
         — Up/Down: input history
         — Shift+Up/Down: scroll chat
         — PageUp/PageDn: scroll page
         — End: scroll to bottom
         — Mouse wheel: scroll chat";

impl App {
    pub fn new(model_name: String, working_dir: std::path::PathBuf) -> (r: Self)
        ensures
            r.messages@.len() == 0,
            r.input.text@.len() == 0 && r.input.cursor_pos == 0 && r.input.history@.len() == 0,
            !r.streaming && !r.thinking,
            r.current_streaming_text@.len() == 0,
            r.current_thinking_text@.len() == 0,
            r.scroll_offset == 0,
            r.auto_scroll,
            r.viewport_height == 0,
            r.model_name == model_name,
            r.working_dir == working_dir,
            r.running,
            r.error_message is None,
            r.tick == 0,
            r.turn_started_at is None,
            r.last_eval_count is None && r.last_eval_duration_ns is None,
            r.last_prompt_eval_count is None,
            r.context_used == 0,
            r.context_window_size is None,
            r.total_tokens_up == 0 && r.total_tokens_down == 0,
            r.pending_images@.len() == 0,
            r.message_queue@.len() == 0,
            r.autocomplete is None,
            r.available_models@.len() == 0,
            r.model_picker is None && r.interview_picker is None,
            r.mode == AgentMode::Oneshot,
            !r.flat,
            r.plan@.len() == 0,
            r.tree@.len() == 0,
            r.subtask_tool_calls == 0,
            r.mcp_connected@.len() == 0 && r.mcp_failed@.len() == 0,
            r.resumed_session is None,
    {
        App {
            messages: Vec::new(),
            input: InputState::new(),
            streaming: false,
            thinking: false,
            current_streaming_text: String::new(),
            current_thinking_text: String::new(),
            scroll_offset: 0,
            auto_scroll: true,
            viewport_height: 0,
            model_name,
            working_dir,
            mcp_connected: Vec::new(),
            mcp_failed: Vec::new(),
            resumed_session: None,
            running: true,
            error_message: None,
            tick: 0,
            turn_started_at: None,
            last_eval_count: None,
            last_eval_duration_ns: None,
            last_prompt_eval_count: None,
            context_used: 0,
            context_window_size: None,
            total_tokens_up: 0,
            total_tokens_down: 0,
            pending_images: Vec::new(),
            message_queue: VecDeque::new(),
            autocomplete: None,
            available_models: Vec::new(),
            model_picker: None,
            interview_picker: None,
            mode: AgentMode::Oneshot,
            flat: false,
            plan: Vec::new(),
            tree: Vec::new(),
            subtask_tool_calls: 0,
        }
    }

    /// Advances the animation clock (wrapping).
    pub fn tick(&mut self)
        ensures
            final(self).tick == if old(self).tick == u64::MAX {
                0
            } else {
                (old(self).tick + 1) as u64
            },
    {
        self.tick = self.tick.wrapping_add(1);
    }

    /// The spinner frame for the current tick: one frame per four ticks.
    pub fn spinner_char(&self) -> (r: char)
        ensures
            r == spinner_frame((self.tick / 4 % 10) as int),
    {
        let k = self.tick / 4 % 10;
        if k == 0 {
            '⠋'
        } else if k == 1 {
            '⠙'
        } else if k == 2 {
            '⠹'
        } else if k == 3 {
            '⠸'
        } else if k == 4 {
            '⠼'
        } else if k == 5 {
            '⠴'
        } else if k == 6 {
            '⠦'
        } else if k == 7 {
            '⠧'
        } else if k == 8 {
            '⠇'
        } else {
            '⠏'
        }
    }

    pub fn help_text() -> (r: &'static str)
        ensures
            r@ == HELP_TEXT@,
    {
        HELP_TEXT
    }

    pub fn set_error(&mut self, msg: String)
        ensures
            final(self).error_message == Some(msg),
    {
        self.error_message = Some(msg);
    }
}

} // verus!
