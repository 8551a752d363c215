pub mod cargo;
pub mod definitions;
pub mod dispatch;
pub mod file_io;
pub mod git;
pub mod paths;
pub mod search;
pub mod selection;
pub mod text_ops;

pub use definitions::{built_in_tool_definitions, delegate_task_def, interview_question_def};
pub use selection::{is_flat_model, tools_for_depth};
