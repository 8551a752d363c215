use agent::bootstrap::{mcp_only, model_warning, resume_banner, session_banner, SetupConfig};
use agent::session::{Session, SessionMessage};
use agent::types::{Role, ToolDefinition, ToolSource};

fn text(role: Role, content: &str) -> SessionMessage {
    SessionMessage::Text { role, content: content.to_string(), images: vec![] }
}

#[test]
fn setup_config_holds_model_and_url() {
    let c = SetupConfig { model: "m".to_string(), ollama_url: "http://localhost:11434".to_string() };
    assert_eq!(c.model, "m");
    assert_eq!(c.ollama_url, "http://localhost:11434");
}

#[test]
fn warns_only_about_missing_model() {
    let models = vec!["a".to_string(), "b".to_string()];
    assert_eq!(model_warning("a", &models), None);
    assert_eq!(
        model_warning("c", &models),
        Some("warning: model 'c' not found in Ollama. Available: a, b".to_string())
    );
    assert_eq!(
        model_warning("c", &vec![]),
        Some("warning: model 'c' not found in Ollama. Available: ".to_string())
    );
}

#[test]
fn banner_shows_last_user_topic() {
    let msgs = vec![
        text(Role::User, "first question"),
        text(Role::Assistant, "answer"),
        text(Role::User, "  fix the parser\nand more details"),
        SessionMessage::Thinking { content: "hmm".to_string() },
    ];
    assert_eq!(
        resume_banner("2024-05-06 07:08", &msgs),
        "2024-05-06 07:08 — 4 msgs · last: fix the parser"
    );
}

#[test]
fn banner_cuts_long_topics() {
    let long = "x".repeat(61);
    let msgs = vec![text(Role::User, &long)];
    let b = resume_banner("d", &msgs);
    assert_eq!(b, format!("d — 1 msgs · last: {}…", "x".repeat(60)));
    let exact = "y".repeat(60);
    let b2 = resume_banner("d", &vec![text(Role::User, &exact)]);
    assert_eq!(b2, format!("d — 1 msgs · last: {exact}"));
}

#[test]
fn banner_without_user_message() {
    let msgs = vec![text(Role::Assistant, "hello")];
    assert_eq!(resume_banner("d", &msgs), "d — 1 msgs");
    assert_eq!(resume_banner("d", &vec![]), "d — 0 msgs");
}

#[test]
fn session_banner_formats_save_time() {
    let mut s = Session::new("m", "/w");
    s.updated_at = "2024-05-06T07:08:09.123Z".to_string();
    s.messages.push(text(Role::User, "hi"));
    assert_eq!(session_banner(&s), "2024-05-06 07:08 — 1 msgs · last: hi");
    s.updated_at = "2024-05-06T09:08:09+02:00".to_string();
    assert_eq!(session_banner(&s), "2024-05-06 07:08 — 1 msgs · last: hi");
}

#[test]
fn mcp_only_keeps_mcp_tools() {
    let t = |n: &str, s: ToolSource| ToolDefinition {
        name: n.to_string(),
        description: String::new(),
        parameters: serde_json::Value::Null,
        source: s,
    };
    let all = vec![t("a", ToolSource::BuiltIn), t("b", ToolSource::Mcp), t("c", ToolSource::Mcp)];
    let names: Vec<String> = mcp_only(&all).into_iter().map(|x| x.name).collect();
    assert_eq!(names, vec!["b".to_string(), "c".to_string()]);
}
