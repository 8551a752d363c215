use agent::config::config_from_text;

fn header<'a>(headers: &'a [(String, String)], name: &str) -> Option<&'a String> {
    headers.iter().find(|(k, _)| k == name).map(|(_, v)| v)
}

#[test]
fn valid_config_parsed() {
    let config = config_from_text(
        r#"{
                "mcpServers": {
                    "my-server": {
                        "url": "http://localhost:3000/sse",
                        "headers": { "Authorization": "Bearer tok" }
                    }
                }
            }"#,
    );
    assert_eq!(config.servers.len(), 1);
    assert_eq!(config.servers[0].name, "my-server");
    assert_eq!(config.servers[0].url, "http://localhost:3000/sse");
    assert_eq!(header(&config.servers[0].headers, "Authorization").unwrap(), "Bearer tok");
}

#[test]
fn malformed_json_is_ignored() {
    let config = config_from_text("{ not valid json }");
    assert!(config.servers.is_empty());
}

#[test]
fn empty_object_returns_empty_servers() {
    let config = config_from_text("{}");
    assert!(config.servers.is_empty());
}

#[test]
fn empty_file_is_ignored() {
    let config = config_from_text("");
    assert!(config.servers.is_empty());
}

#[test]
fn config_without_headers_defaults_to_empty() {
    let config = config_from_text(r#"{"mcpServers": {"s": {"url": "http://x"}}}"#);
    assert!(config.servers[0].headers.is_empty());
}

#[test]
fn missing_mcp_servers_field_returns_empty() {
    let config = config_from_text(r#"{"other": 1}"#);
    assert!(config.servers.is_empty());
}

#[test]
fn entry_missing_url_is_skipped() {
    let config =
        config_from_text(r#"{"mcpServers":{"bad":{"headers":{}},"good":{"url":"http://y"}}}"#);
    assert_eq!(config.servers.len(), 1);
    assert_eq!(config.servers[0].name, "good");
}

#[test]
fn non_object_root_returns_empty() {
    let config = config_from_text("[]");
    assert!(config.servers.is_empty());
}

#[test]
fn extra_fields_on_server_entry_are_ignored() {
    let config = config_from_text(r#"{"mcpServers":{"s":{"type":"http","url":"http://x"}}}"#);
    assert_eq!(config.servers.len(), 1);
    assert_eq!(config.servers[0].url, "http://x");
}
