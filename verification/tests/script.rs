use agent::config::config_from_text;
use agent::headless::{auto_answer, describe_event, send_kind, SendKind, StepEvent, StepTracker};
use agent::script::{
    expect_event_result, expect_file_result, expect_no_event_result, expect_no_file_result,
    expect_stat_result, parse_script_line, parse_script_text, ScriptCommand, ScriptLine, StepReport, StepStatus,
    TestReport, TokenSummary,
};
use agent::types::AgentMode;
use std::time::Duration;

fn cmd(index: usize, line: &str) -> Option<ScriptLine> {
    match parse_script_line(index, line) {
        Ok(l) => l,
        Err(e) => panic!("unexpected error: {e}"),
    }
}

#[test]
fn script_lines() {
    assert!(cmd(0, "   ").is_none());
    assert!(cmd(0, "# comment").is_none());
    match cmd(0, "  hello agent ") {
        Some(ScriptLine::Command(ScriptCommand::Send(t))) => assert_eq!(t, "hello agent"),
        _ => panic!("send expected"),
    }
    match cmd(0, "@wait 1.5") {
        Some(ScriptLine::Wait(t)) => assert_eq!(t, "1.5"),
        _ => panic!("wait expected"),
    }
    match cmd(0, "@expect_file src/a.rs fn main() {}") {
        Some(ScriptLine::Command(ScriptCommand::ExpectFile { path, content })) => {
            assert_eq!(path, "src/a.rs");
            assert_eq!(content, "fn main() {}");
        }
        _ => panic!("expect_file expected"),
    }
    match cmd(0, "@expect_no_file  gone.txt ") {
        Some(ScriptLine::Command(ScriptCommand::ExpectNoFile(p))) => assert_eq!(p, "gone.txt"),
        _ => panic!("expect_no_file expected"),
    }
    match cmd(0, "@expect_no_event Error") {
        Some(ScriptLine::Command(ScriptCommand::ExpectNoEvent(p))) => assert_eq!(p, "Error"),
        _ => panic!("expect_no_event expected"),
    }
    match cmd(0, "@expect_stat total_eval > subtask_prompt_max") {
        Some(ScriptLine::Command(ScriptCommand::ExpectStat { lhs, op, rhs })) => {
            assert_eq!((lhs.as_str(), op.as_str(), rhs.as_str()), ("total_eval", ">", "subtask_prompt_max"));
        }
        _ => panic!("expect_stat expected"),
    }
}

#[test]
fn script_line_errors() {
    assert_eq!(
        parse_script_line(2, "@bogus x").err(),
        Some("line 3: unknown directive \"@bogus x\"".to_string())
    );
    assert_eq!(
        parse_script_line(0, "@expect_file onlypath").err(),
        Some("line 1: @expect_file requires path and content".to_string())
    );
    assert_eq!(
        parse_script_line(4, "@expect_stat a <").err(),
        Some("line 5: @expect_stat requires '<field> <op> <field>'".to_string())
    );
}

fn step(events: &[&str], total_eval: u64, orch: u64) -> StepReport {
    StepReport {
        command: "x".into(),
        events: events.iter().map(|s| s.to_string()).collect(),
        duration_ms: 1,
        status: StepStatus::Completed,
        token_summary: TokenSummary { orchestrator_prompt_max: orch, subtask_prompt_max: 0, total_eval },
    }
}

#[test]
fn checks_of_a_run() {
    let f = expect_file_result("a.txt", "  hello \n", "say hello world".to_string());
    assert!(f.pass && f.assert_type == "expect_file" && f.expected == "  hello \n");
    let g = expect_no_file_result("b.txt", true);
    assert!(!g.pass && g.actual == "exists");
    let s = step(&["TurnDone", "ToolRequested: read_file({})"], 10, 5);
    assert!(expect_event_result(Some(&s), "read_file").pass);
    let none = expect_event_result(None, "read_file");
    assert!(!none.pass && none.actual == "no prior step");
    let ne = expect_no_event_result(Some(&s), "Error");
    assert!(ne.pass && ne.expected == "no Error");
    assert!(expect_no_event_result(None, "Error").pass);
    let st = expect_stat_result(Some(&s), "total_eval", ">", "orchestrator_prompt_max");
    assert!(st.pass);
    assert_eq!(st.actual, "10 > 5");
    assert_eq!(st.path, "total_eval > orchestrator_prompt_max");
    let bad = expect_stat_result(Some(&s), "total_eval", ">=", "orchestrator_prompt_max");
    assert!(!bad.pass);
    let unknown = expect_stat_result(Some(&s), "x", "<", "y");
    assert_eq!(unknown.actual, "unknown field(s): x, y");
    assert_eq!(s.token_summary.resolve_field("total_eval"), Some(10));
    assert_eq!(s.token_summary.resolve_field("nope"), None);
}

#[test]
fn report_summary() {
    let mut r = TestReport::new("m");
    r.add_step(step(&[], 0, 0));
    r.add_step(step(&[], 7, 3));
    let mut t = step(&[], 0, 0);
    t.status = StepStatus::TimedOut;
    r.add_step(t);
    r.add_assertion(expect_no_file_result("x", false));
    r.add_assertion(expect_no_file_result("y", true));
    assert_eq!(
        r.summary_lines(),
        vec![
            "assertions: 1 passed, 1 failed | steps timed out: 1".to_string(),
            "step 1 tokens: orchestrator_prompt_max=3 subtask_prompt_max=0 total_eval=7".to_string(),
        ]
    );
}

#[test]
fn step_tracking() {
    let mut t = StepTracker::new();
    assert!(t.on_event(StepEvent::TurnStats { eval_count: 5, eval_duration_ns: 9, prompt_eval_count: 100 }).is_none());
    assert!(t.on_event(StepEvent::SubtaskEnter { depth: 1, label: "w".into() }).is_none());
    assert!(t.on_event(StepEvent::TurnStats { eval_count: 2, eval_duration_ns: 1, prompt_eval_count: 300 }).is_none());
    assert!(t.on_event(StepEvent::SubtaskExit { depth: 1 }).is_none());
    assert!(t.on_event(StepEvent::TurnStats { eval_count: 1, eval_duration_ns: 1, prompt_eval_count: 50 }).is_none());
    assert!(matches!(t.on_event(StepEvent::TurnDone), Some(StepStatus::Completed)));
    let s = t.token_summary();
    assert_eq!((s.orchestrator_prompt_max, s.subtask_prompt_max, s.total_eval), (100, 300, 8));
    assert_eq!(t.log[0], "TurnStats: depth=0 eval=5 prompt=100 ns=9");
    assert_eq!(t.log[1], "SubtaskEnter: depth=1 w");
    assert_eq!(t.log.last().map(|s| s.as_str()), Some("TurnDone"));
    let mut u = StepTracker::new();
    match u.on_event(StepEvent::LoopDetected) {
        Some(StepStatus::Failed(m)) => assert_eq!(m, "Loop detected"),
        _ => panic!("loop ends the step"),
    }
    match u.on_event(StepEvent::Closed) {
        Some(StepStatus::Failed(m)) => assert_eq!(m, "channel closed"),
        _ => panic!("closed channel ends the step"),
    }
    assert_eq!(u.log.len(), 1);
}

#[test]
fn headless_commands() {
    assert_eq!(send_kind(" /mode "), SendKind::CycleMode);
    assert_eq!(send_kind("/flat"), SendKind::ToggleFlat);
    assert_eq!(send_kind("/new"), SendKind::Clear);
    assert_eq!(send_kind("/clear"), SendKind::Clear);
    assert_eq!(send_kind("hello"), SendKind::Message);
    assert_eq!(auto_answer(&vec!["a".into(), "b".into()]), "a");
    assert_eq!(auto_answer(&Vec::new()), "yes");
    assert_eq!(AgentMode::Plan.cycle(), AgentMode::Thorough);
    assert_eq!(AgentMode::Oneshot.cycle(), AgentMode::Plan);
    assert_eq!(AgentMode::Thorough.label(), "thorough");
}

#[test]
fn mcp_config_text() {
    let c = config_from_text(
        r#"{
            "mcpServers": {
                "my-server": {
                    "url": "http://localhost:3000/sse",
                    "headers": { "Authorization": "Bearer tok", "X-Num": 3 }
                },
                "no-url": { "headers": {} }
            }
        }"#,
    );
    assert_eq!(c.servers.len(), 1);
    assert_eq!(c.servers[0].name, "my-server");
    assert_eq!(c.servers[0].url, "http://localhost:3000/sse");
    assert_eq!(c.servers[0].headers, vec![("Authorization".to_string(), "Bearer tok".to_string())]);
    assert!(config_from_text("   ").servers.is_empty());
    assert!(config_from_text("{ not valid json }").servers.is_empty());
    assert!(config_from_text("{}").servers.is_empty());
}

fn parse_all(s: &str) -> Result<Vec<ScriptCommand>, String> {
    let p = parse_script_text(s);
    let mut out = Vec::new();
    for (i, l) in p.lines {
        match l {
            ScriptLine::Command(c) => out.push(c),
            ScriptLine::Wait(t) => match t.trim().parse::<f64>() {
                Ok(secs) => out.push(ScriptCommand::Wait(Duration::from_secs_f64(secs))),
                Err(_) => return Err(format!("line {}: invalid @wait value {:?}", i + 1, t)),
            },
        }
    }
    match p.error {
        Some(e) => Err(e),
        None => Ok(out),
    }
}

fn parse_str(s: &str) -> Vec<ScriptCommand> {
    parse_all(s).unwrap()
}

#[test]
fn skips_comments_and_empty_lines() {
    let cmds = parse_str("# comment\n\n  \n# another");
    assert!(cmds.is_empty());
}

#[test]
fn parses_send() {
    let cmds = parse_str("hello world");
    assert_eq!(cmds, vec![ScriptCommand::Send("hello world".into())]);
}

#[test]
fn parses_wait() {
    let cmds = parse_str("@wait 2.5");
    assert_eq!(cmds, vec![ScriptCommand::Wait(Duration::from_millis(2500))]);
}

#[test]
fn parses_expect_file() {
    let cmds = parse_str("@expect_file foo.txt hello");
    assert_eq!(
        cmds,
        vec![ScriptCommand::ExpectFile { path: "foo.txt".into(), content: "hello".into() }]
    );
}

#[test]
fn parses_expect_no_file() {
    let cmds = parse_str("@expect_no_file missing.txt");
    assert_eq!(cmds, vec![ScriptCommand::ExpectNoFile("missing.txt".into())]);
}

#[test]
fn mixed_script() {
    let src = "# setup\nsend this\n\n@wait 1\n@expect_file out.txt done\n@expect_no_file tmp";
    let cmds = parse_str(src);
    assert_eq!(cmds.len(), 4);
    assert!(matches!(&cmds[0], ScriptCommand::Send(s) if s == "send this"));
    assert!(matches!(&cmds[1], ScriptCommand::Wait(d) if *d == Duration::from_secs(1)));
    assert!(
        matches!(&cmds[2], ScriptCommand::ExpectFile { path, content } if path == "out.txt" && content == "done")
    );
    assert!(matches!(&cmds[3], ScriptCommand::ExpectNoFile(p) if p == "tmp"));
}

#[test]
fn parses_expect_event() {
    let cmds = parse_str("@expect_event SubtaskEnter");
    assert_eq!(cmds, vec![ScriptCommand::ExpectEvent("SubtaskEnter".into())]);
}

#[test]
fn parses_expect_stat() {
    let cmds = parse_str("@expect_stat orchestrator_prompt_max < subtask_prompt_max");
    assert_eq!(cmds.len(), 1);
    assert!(matches!(
        &cmds[0],
        ScriptCommand::ExpectStat { lhs, op, rhs }
        if lhs == "orchestrator_prompt_max" && op == "<" && rhs == "subtask_prompt_max"
    ));
}

#[test]
fn parses_expect_no_event() {
    let cmds = parse_str("@expect_no_event InterviewQuestion");
    assert_eq!(cmds, vec![ScriptCommand::ExpectNoEvent("InterviewQuestion".into())]);
}

#[test]
fn unknown_directive_errors() {
    assert!(parse_all("@unknown foo").is_err());
}

#[test]
fn parse_stops_at_first_bad_line() {
    let p = parse_script_text("a\n@bad\nb\n@also bad");
    assert_eq!(p.lines.len(), 1);
    assert_eq!(p.lines[0].0, 0);
    assert_eq!(p.error, Some("line 2: unknown directive \"@bad\"".to_string()));
    assert_eq!(parse_all("@wait x\n@bad"), Err("line 1: invalid @wait value \"x\"".to_string()));
}

#[test]
fn describe_event_lines() {
    let d = |e: StepEvent| describe_event(&e, 42);
    assert_eq!(d(StepEvent::ThinkingStarted), Some("42 ThinkingStarted".to_string()));
    assert_eq!(d(StepEvent::TextDelta("héllo".to_string())), Some("42 TextDelta(6 chars)".to_string()));
    assert_eq!(
        d(StepEvent::TurnStats { eval_count: 5, eval_duration_ns: 9, prompt_eval_count: 7 }),
        Some("42 TurnStats eval=5 prompt=7".to_string())
    );
    assert_eq!(
        d(StepEvent::SubtaskEnter { depth: 1, label: "look".to_string() }),
        Some("42 SubtaskEnter depth=1 look".to_string())
    );
    assert_eq!(d(StepEvent::PlanUpdated { items: 3 }), Some("42 PlanUpdated 3 items".to_string()));
    assert_eq!(d(StepEvent::Closed), None);
    let long = format!("{{\"a\":\"{}\"}}", "x".repeat(300));
    let line = d(StepEvent::ToolRequested { name: "read_file".to_string(), arguments: long.clone() })
        .unwrap();
    assert_eq!(line, format!("42 ToolRequested read_file {}", &long[..200]));
}
