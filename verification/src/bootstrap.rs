//! Start-up: the settings the program starts with, and what it tells the
//! user about the model and a resumed conversation.
use vstd::prelude::*;

use crate::session::{Session, SessionMessage, SessionView};
use crate::text::{
    chars_of, decimal, join_strings, join_with, lines, lines_of, push_chars, push_decimal,
    push_str_chars, string_views, str_eq, trim, trim_chars,
};
use crate::types::{Role, ToolDefinition, ToolSource};

verus! {

/// The model and the address of the Ollama server to use.
pub struct SetupConfig {
    pub model: String,
    pub ollama_url: String,
}

/// Whether `model` is among the models the server offers.
pub open spec fn offered(models: Seq<Seq<char>>, model: Seq<char>) -> bool {
    exists|i: int| 0 <= i < models.len() && models[i] == model
}

/// The warning printed when the server does not offer the chosen model.
pub open spec fn model_warning_text(model: Seq<char>, models: Seq<Seq<char>>) -> Seq<char> {
    "warning: model '"@ + model + "' not found in Ollama. Available: "@ + join_with(models, ", "@)
}

/// The warning about a model the server does not offer; none when it does.
pub fn model_warning(model: &str, models: &Vec<String>) -> (r: Option<String>)
    ensures
        offered(string_views(models@), model@) ==> r is None,
        !offered(string_views(models@), model@) ==> (r matches Some(w) && w@
            == model_warning_text(model@, string_views(models@))),
{
    let n = models.len();
    for i in 0..n
        invariant
            n == models@.len(),
            forall|q: int| 0 <= q < i ==> string_views(models@)[q] != model@,
    {
        if str_eq(models[i].as_str(), model) {
            assert(string_views(models@)[i as int] == model@);
            return None;
        }
    }
    let mut w = String::new();
    push_str_chars(&mut w, "warning: model '");
    push_str_chars(&mut w, model);
    push_str_chars(&mut w, "' not found in Ollama. Available: ");
    let all = join_strings(models, ", ");
    push_str_chars(&mut w, all.as_str());
    proof {
        reveal_strlit("warning: model '");
        reveal_strlit("' not found in Ollama. Available: ");
        reveal_strlit(", ");
    }
    assert(w@ =~= model_warning_text(model@, string_views(models@)));
    Some(w)
}

/// The text of the user's last message, if any.
pub open spec fn last_user_text(ms: Seq<SessionView>) -> Option<Seq<char>>
    decreases ms.len(),
{
    if ms.len() == 0 {
        None
    } else {
        match ms.last() {
            SessionView::Text { role: Role::User, content, .. } => Some(content),
            _ => last_user_text(ms.drop_last()),
        }
    }
}

pub open spec fn session_views(ms: Seq<SessionMessage>) -> Seq<SessionView> {
    ms.map_values(|m: SessionMessage| m@)
}

/// The first line of a text, trimmed (empty when there is no line).
pub open spec fn first_line_trimmed(t: Seq<char>) -> Seq<char> {
    if lines(t).len() == 0 {
        Seq::empty()
    } else {
        trim(lines(t)[0])
    }
}

/// The line shown for a resumed conversation: when it was saved, how many
/// messages it has, and the start (at most 60 characters, with an
/// ellipsis when cut) of the first line of the user's last message.
pub open spec fn resume_banner_text(date: Seq<char>, ms: Seq<SessionView>) -> Seq<char> {
    let head = date + " — "@ + decimal(ms.len()) + " msgs"@;
    match last_user_text(ms) {
        None => head,
        Some(topic) => {
            let line = first_line_trimmed(topic);
            let preview = if line.len() > 60 {
                line.take(60)
            } else {
                line
            };
            head + " · last: "@ + preview + if line.len() > 60 {
                "…"@
            } else {
                Seq::empty()
            }
        },
    }
}

fn last_user_message(ms: &Vec<SessionMessage>) -> (r: Option<&String>)
    ensures
        match last_user_text(session_views(ms@)) {
            None => r is None,
            Some(t) => r matches Some(s) && s@ == t,
        },
{
    let ghost sv = session_views(ms@);
    let mut i = ms.len();
    assert(sv.take(i as int) =~= sv);
    while i > 0
        invariant
            i <= ms@.len(),
            sv == session_views(ms@),
            last_user_text(sv) == last_user_text(sv.take(i as int)),
        decreases i,
    {
        assert(sv.take(i as int).drop_last() =~= sv.take(i - 1));
        assert(sv.take(i as int).last() == ms@[i - 1]@);
        match &ms[i - 1] {
            SessionMessage::Text { role: Role::User, content, .. } => {
                return Some(content);
            },
            _ => {},
        }
        i = i - 1;
    }
    assert(sv.take(0) =~= Seq::<SessionView>::empty());
    None
}

/// The line shown for a resumed conversation, given the time of its last
/// save as the user reads it.
pub fn resume_banner(date: &str, messages: &Vec<SessionMessage>) -> (r: String)
    requires
        messages@.len() <= usize::MAX,
    ensures
        r@ == resume_banner_text(date@, session_views(messages@)),
{
    proof {
        reveal_strlit(" — ");
        reveal_strlit(" msgs");
        reveal_strlit(" · last: ");
        reveal_strlit("…");
    }
    let mut b = String::new();
    push_str_chars(&mut b, date);
    push_str_chars(&mut b, " — ");
    push_decimal(&mut b, messages.len());
    push_str_chars(&mut b, " msgs");
    match last_user_message(messages) {
        None => b,
        Some(topic) => {
            let tc = chars_of(topic.as_str());
            let ls = lines_of(&tc);
            let line: Vec<char> = if ls.len() == 0 {
                Vec::new()
            } else {
                trim_chars(&ls[0])
            };
            assert(line@ == first_line_trimmed(topic@));
            push_str_chars(&mut b, " · last: ");
            if line.len() > 60 {
                let cut = crate::text::slice_chars(&line, 0, 60);
                assert(cut@ =~= line@.take(60));
                push_chars(&mut b, &cut);
                push_str_chars(&mut b, "…");
            } else {
                push_chars(&mut b, &line);
                assert(b@ =~= b@ + Seq::<char>::empty());
            }
            b
        },
    }
}

/// The minute of an RFC 3339 time, in UTC, as `%Y-%m-%d %H:%M`; none when
/// the text is not such a time. A function of the text.
pub uninterp spec fn minute_stamp(rfc3339: Seq<char>) -> Option<Seq<char>>;

/// `chrono::DateTime::parse_from_rfc3339`, taken to UTC and formatted with
/// `%Y-%m-%d %H:%M`; the result is named by `minute_stamp`.
#[verifier::external_body]
fn minute_stamp_of(text: &str) -> (r: Option<String>)
    ensures
        match minute_stamp(text@) {
            Some(s) => r matches Some(t) && t@ == s,
            None => r is None,
        },
{
    chrono::DateTime::parse_from_rfc3339(text).ok().map(
        |d| d.with_timezone(&chrono::Utc).format("%Y-%m-%d %H:%M").to_string(),
    )
}

/// How the time of a session's last save is shown: its minute in UTC, or
/// the stored text itself when that is not an RFC 3339 time.
pub open spec fn shown_date(updated_at: Seq<char>) -> Seq<char> {
    match minute_stamp(updated_at) {
        Some(d) => d,
        None => updated_at,
    }
}

/// The line shown when a saved conversation is resumed.
pub fn session_banner(session: &Session) -> (r: String)
    requires
        session.messages@.len() <= usize::MAX,
    ensures
        r@ == resume_banner_text(
            shown_date(session.updated_at@),
            session_views(session.messages@),
        ),
{
    match minute_stamp_of(session.updated_at.as_str()) {
        Some(d) => resume_banner(d.as_str(), &session.messages),
        None => resume_banner(session.updated_at.as_str(), &session.messages),
    }
}

/// The tools that come from MCP servers, in order.
pub open spec fn mcp_tools_of(ts: Seq<ToolDefinition>) -> Seq<ToolDefinition>
    decreases ts.len(),
{
    if ts.len() == 0 {
        Seq::empty()
    } else if ts.last().source == ToolSource::Mcp {
        mcp_tools_of(ts.drop_last()).push(ts.last())
    } else {
        mcp_tools_of(ts.drop_last())
    }
}

/// The tools, among all, that MCP servers provide.
pub fn mcp_only(tools: &Vec<ToolDefinition>) -> (r: Vec<ToolDefinition>)
    ensures
        r@ == mcp_tools_of(tools@),
{
    let mut out: Vec<ToolDefinition> = Vec::new();
    let n = tools.len();
    assert(tools@.take(0) =~= Seq::<ToolDefinition>::empty());
    for i in 0..n
        invariant
            n == tools@.len(),
            out@ == mcp_tools_of(tools@.take(i as int)),
    {
        assert(tools@.take(i + 1).drop_last() =~= tools@.take(i as int));
        if tools[i].source == ToolSource::Mcp {
            out.push(tools[i].duplicate());
        }
    }
    assert(tools@.take(n as int) =~= tools@);
    out
}

} // verus!
