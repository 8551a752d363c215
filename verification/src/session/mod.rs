//! The persisted conversation: its messages, how they convert to and from
//! chat lines, and the histories sent to the model.
use vstd::prelude::*;

use crate::memory::join_path;
use crate::types::{PlanItem, Role};

pub mod convert;
pub mod history;

verus! {

/// The current UTC time as RFC 3339 text (`chrono::Utc::now`, then
/// `DateTime::to_rfc3339_opts` with automatic sub-second digits and a `Z`);
/// nothing is promised of it.
#[verifier::external_body]
fn utc_now_text() -> String {
    chrono::Utc::now().to_rfc3339_opts(chrono::SecondsFormat::AutoSi, true)
}

pub const SESSION_DIR: &'static str = ".agent";

pub const SESSION_FILE: &'static str = "session.json";

pub const VERSION: u32 = 1;

/// One persisted message.
pub enum SessionMessage {
    Text { role: Role, content: String, images: Vec<String> },
    Thinking { content: String },
    ToolCall { id: String, name: String, arguments: String },
    ToolResult { name: String, content: String, is_error: bool, images: Vec<String> },
}

/// A persisted message as text.
pub enum SessionView {
    Text { role: Role, content: Seq<char>, images: Seq<Seq<char>> },
    Thinking { content: Seq<char> },
    ToolCall { id: Seq<char>, name: Seq<char>, arguments: Seq<char> },
    ToolResult { name: Seq<char>, content: Seq<char>, is_error: bool, images: Seq<Seq<char>> },
}

impl View for SessionMessage {
    type V = SessionView;

    open spec fn view(&self) -> SessionView {
        match self {
            SessionMessage::Text { role, content, images } => SessionView::Text {
                role: *role,
                content: content@,
                images: crate::text::string_views(images@),
            },
            SessionMessage::Thinking { content } => SessionView::Thinking { content: content@ },
            SessionMessage::ToolCall { id, name, arguments } => SessionView::ToolCall {
                id: id@,
                name: name@,
                arguments: arguments@,
            },
            SessionMessage::ToolResult { name, content, is_error, images } =>
                SessionView::ToolResult {
                name: name@,
                content: content@,
                is_error: *is_error,
                images: crate::text::string_views(images@),
            },
        }
    }
}

/// Persisted conversation state: only what resuming the conversation needs
/// (messages and plan); screen state is not kept here.
pub struct Session {
    pub version: u32,
    pub model: String,
    pub working_dir: String,
    /// RFC 3339 time of creation.
    pub created_at: String,
    /// RFC 3339 time of the last save.
    pub updated_at: String,
    pub messages: Vec<SessionMessage>,
    pub plan: Vec<PlanItem>,
}

impl Session {
    /// An empty session for `model` in `working_dir`, stamped with the current time.
    pub fn new(model: &str, working_dir: &str) -> (r: Self)
        ensures
            r.version == VERSION,
            r.model@ == model@,
            r.working_dir@ == working_dir@,
            r.messages@.len() == 0,
            r.plan@.len() == 0,
            r.created_at@ == r.updated_at@,
    {
        let now = utc_now_text();
        Session {
            version: VERSION,
            model: model.to_owned(),
            working_dir: working_dir.to_owned(),
            created_at: now.clone(),
            updated_at: now,
            messages: Vec::new(),
            plan: Vec::new(),
        }
    }

    pub fn append_message(&mut self, msg: SessionMessage)
        ensures
            final(self).messages@ == old(self).messages@.push(msg),
            final(self).version == old(self).version,
            final(self).model == old(self).model,
            final(self).working_dir == old(self).working_dir,
            final(self).plan == old(self).plan,
    {
        self.messages.push(msg);
    }

    /// Where the session of a project is stored.
    pub fn session_path(working_dir: &str) -> (r: String)
        ensures
            r@ == join_path(join_path(working_dir@, SESSION_DIR@), SESSION_FILE@),
    {
        let a = crate::memory::join_path_str(working_dir, SESSION_DIR);
        crate::memory::join_path_str(a.as_str(), SESSION_FILE)
    }
}


/// The line that keeps the agent's directory out of version control.
pub const GITIGNORE_ENTRY: &'static str = ".agent/\n";

/// Whether some line of a text, trimmed, is `.agent/`.
pub open spec fn lists_agent_dir(contents: Seq<char>) -> bool {
    exists|i: int|
        0 <= i < crate::text::lines(contents).len() && crate::text::trim(
            #[trigger] crate::text::lines(contents)[i],
        ) == ".agent/"@
}

/// What `.gitignore` must become so that it lists the agent's directory:
/// nothing to write when a line already does; else the old text (ended by a
/// newline) with the entry after it, or the entry alone when there is no file.
pub open spec fn gitignore_spec(contents: Option<Seq<char>>) -> Option<Seq<char>> {
    match contents {
        None => Some(GITIGNORE_ENTRY@),
        Some(c) => if lists_agent_dir(c) {
            None
        } else if c.len() > 0 && c.last() == '\n' {
            Some(c + GITIGNORE_ENTRY@)
        } else {
            Some(c + "\n"@ + GITIGNORE_ENTRY@)
        },
    }
}

/// The new text of `.gitignore`, if it must be written; `contents` is its
/// current text, if the file exists.
pub fn gitignore_update(contents: Option<&str>) -> (r: Option<String>)
    ensures
        match gitignore_spec(
            match contents {
                Some(c) => Some(c@),
                None => None,
            },
        ) {
            Some(t) => r matches Some(s) && s@ == t,
            None => r is None,
        },
{
    proof {
        reveal_strlit("\n");
        reveal_strlit(".agent/");
    }
    match contents {
        None => Some(GITIGNORE_ENTRY.to_owned()),
        Some(c) => {
            let cs = crate::text::chars_of(c);
            let ls = crate::text::lines_of(&cs);
            let ghost lv = crate::text::lines(c@);
            let target = crate::text::chars_of(".agent/");
            let n = ls.len();
            for i in 0..n
                invariant
                    n == ls@.len(),
                    n == lv.len(),
                    contents == Some(c),
                    lv == crate::text::lines(c@),
                    target@ == ".agent/"@,
                    forall|q: int| 0 <= q < n ==> (#[trigger] ls@[q])@ == lv[q],
                    forall|q: int| 0 <= q < i ==> crate::text::trim(#[trigger] lv[q]) != ".agent/"@,
            {
                let t = crate::text::trim_chars(&ls[i]);
                if crate::text::chars_eq(&t, &target) {
                    assert(crate::text::trim(lv[i as int]) == ".agent/"@);
                    return None;
                }
            }
            let mut s = c.to_owned();
            if !(cs.len() > 0 && cs[cs.len() - 1] == '\n') {
                crate::text::push_char(&mut s, '\n');
                assert(s@ =~= c@ + "\n"@);
            }
            crate::text::push_str_chars(&mut s, GITIGNORE_ENTRY);
            Some(s)
        },
    }
}

} // verus!
