use agent::mcp::{
    accepted_headers, mcp_base_url, no_handler_result, reply_outcome, tools_from_list, McpClient,
    McpRegistry, McpStatus, McpStep,
};
use agent::types::{ToolDefinition, ToolSource};

fn json(s: &str) -> serde_json::Value {
    serde_json::from_str(s).unwrap()
}

fn tool(name: &str) -> ToolDefinition {
    ToolDefinition {
        name: name.to_string(),
        description: String::new(),
        parameters: serde_json::Value::Null,
        source: ToolSource::Mcp,
    }
}

fn client(name: &str, tools: &[&str], up: bool) -> McpClient {
    let outcome = if up {
        Ok((tools.iter().map(|t| tool(t)).collect(), format!("http://{name}")))
    } else {
        Err(format!("{name} down"))
    };
    McpClient::from_connect(name.to_string(), format!("http://{name}"), vec![], outcome)
}

#[test]
fn mcp_client_loads_tool_definitions() {
    let resp = json(
        r#"{"jsonrpc":"2.0","id":2,"result":{"tools":[{"name":"test_tool","description":"A test tool","inputSchema":{"type":"object","properties":{"input":{"type":"string"}},"required":["input"]}}]}}"#,
    );
    let tools = tools_from_list(&resp);
    assert_eq!(tools.len(), 1);
    assert_eq!(tools[0].name, "test_tool");
    assert_eq!(tools[0].description, "A test tool");
    assert!(tools[0].parameters["properties"]["input"].is_object());
    assert!(matches!(tools[0].source, ToolSource::Mcp));
    let c = McpClient::from_connect(
        "test-server".to_string(),
        "http://127.0.0.1:1".to_string(),
        vec![],
        Ok((tools, "http://127.0.0.1:1".to_string())),
    );
    assert!(matches!(c.status(), McpStatus::Connected));
    assert_eq!(c.tools().len(), 1);
}

#[test]
fn tools_list_without_array_is_empty() {
    assert!(tools_from_list(&json(r#"{"result":{}}"#)).is_empty());
    let tools = tools_from_list(&json(r#"{"result":{"tools":[{"inputSchema":1}]}}"#));
    assert_eq!(tools[0].name, "");
    assert_eq!(tools[0].description, "");
    assert_eq!(tools[0].parameters, json("1"));
}

#[test]
fn mcp_client_execute_returns_mock_result() {
    let resp = json(r#"{"jsonrpc":"2.0","id":3,"result":{"content":[{"type":"text","text":"mock result"}]}}"#);
    assert_eq!(reply_outcome(&resp), Ok("mock result".to_string()));
}

#[test]
fn reply_joins_text_items_only() {
    let resp = json(
        r#"{"result":{"content":[{"type":"text","text":"a"},{"type":"image","data":"x"},{"type":"text","text":"b"},{"type":"text"}]}}"#,
    );
    assert_eq!(reply_outcome(&resp), Ok("a\nb".to_string()));
    assert_eq!(reply_outcome(&json(r#"{"result":{}}"#)), Ok(String::new()));
}

#[test]
fn reply_errors() {
    let e = json(r#"{"error":{"code":-32601,"message":"Method not found"}}"#);
    assert_eq!(reply_outcome(&e), Err("Method not found".to_string()));
    let e2 = json(r#"{"error":null}"#);
    assert_eq!(reply_outcome(&e2), Err("unknown MCP error".to_string()));
    let e3 = json(r#"{"result":{"isError":true,"content":[{"type":"text","text":"boom"}]}}"#);
    assert_eq!(reply_outcome(&e3), Err("boom".to_string()));
    let e4 = json(r#"{"result":{"isError":true}}"#);
    assert_eq!(reply_outcome(&e4), Err("tool reported error".to_string()));
}

#[test]
fn mcp_registry_all_tools_returns_connected_tools() {
    let reg = McpRegistry::from_clients(vec![
        client("a", &["test_tool"], true),
        client("b", &["other"], false),
    ]);
    let tools = reg.all_tools();
    assert_eq!(tools.len(), 1);
    assert_eq!(tools[0].name, "test_tool");
    assert_eq!(reg.connected_servers(), vec!["a".to_string()]);
    assert_eq!(reg.failed_servers(), vec![("b".to_string(), "b down".to_string())]);
}

#[test]
fn mcp_registry_execute_dispatches_to_correct_server() {
    let reg = McpRegistry::from_clients(vec![
        client("a", &["x"], true),
        client("b", &["test_tool"], true),
        client("c", &["test_tool"], true),
    ]);
    assert!(matches!(reg.route_from("test_tool", 0), McpStep::Execute(1)));
}

#[test]
fn mcp_registry_execute_unknown_tool_returns_error() {
    let reg = McpRegistry::from_clients(vec![client("a", &["test_tool"], true)]);
    assert!(matches!(reg.route_from("nonexistent_tool", 0), McpStep::NoHandler));
    let r = no_handler_result("bad-call".to_string(), "nonexistent_tool");
    assert!(r.is_error);
    assert!(r.output.contains("nonexistent_tool"));
    assert_eq!(r.call_id, "bad-call");
}

#[test]
fn unreachable_server_is_reconnected_first() {
    let mut reg = McpRegistry::from_clients(vec![
        client("a", &["t"], true),
        client("b", &["t"], true),
    ]);
    reg.clients[0].apply_reconnect(Err("gone".to_string()));
    assert!(matches!(reg.route_from("t", 0), McpStep::Reconnect(0)));
    assert!(matches!(reg.after_reconnect("t", 0), McpStep::Execute(1)));
    reg.clients[0].apply_reconnect(Ok((vec![tool("u")], "http://a2".to_string())));
    assert!(matches!(reg.after_reconnect("t", 0), McpStep::Execute(0)));
    assert_eq!(reg.clients[0].base_url(), "http://a2");
}

#[test]
fn base_url_drops_trailing_sse() {
    assert_eq!(mcp_base_url("http://x/sse"), "http://x");
    assert_eq!(mcp_base_url("http://x/sse/sse"), "http://x");
    assert_eq!(mcp_base_url("http://x/sses"), "http://x/sses");
    assert_eq!(mcp_base_url("http://x"), "http://x");
}

#[test]
fn invalid_headers_are_skipped() {
    let hs = vec![
        ("Authorization".to_string(), "Bearer t".to_string()),
        ("bad name".to_string(), "v".to_string()),
        ("X-Ok".to_string(), "line\nbreak".to_string()),
        ("X-Tab".to_string(), "a\tb".to_string()),
    ];
    let acc = accepted_headers(&hs);
    assert_eq!(
        acc,
        vec![
            ("Authorization".to_string(), "Bearer t".to_string()),
            ("X-Tab".to_string(), "a\tb".to_string()),
        ]
    );
}

#[test]
fn header_names_are_tokens() {
    let long = "a".repeat(65_536);
    let hs = vec![
        ("X-Api_Key.1~".to_string(), "v".to_string()),
        ("".to_string(), "v".to_string()),
        ("bad name".to_string(), "v".to_string()),
        ("bad:name".to_string(), "v".to_string()),
        ("naïve".to_string(), "v".to_string()),
        (long, "v".to_string()),
        ("!#$%&'*+-.^_`|~".to_string(), "v".to_string()),
    ];
    let acc = accepted_headers(&hs);
    assert_eq!(
        acc,
        vec![
            ("X-Api_Key.1~".to_string(), "v".to_string()),
            ("!#$%&'*+-.^_`|~".to_string(), "v".to_string()),
        ]
    );
}
