use agent::ollama::parse::parse_context_window;

#[test]
fn ollama_parse_context_window_from_model_info() {
    let resp = serde_json::from_str::<serde_json::Value>(r#"{
        "model_info": { "llama.context_length": 32768 }
    }"#).unwrap();
    assert_eq!(parse_context_window(&resp), Some(32768));
}

#[test]
fn ollama_parse_context_window_from_parameters_string() {
    let resp = serde_json::from_str::<serde_json::Value>(r#"{
        "parameters": "stop <|end|>\nnum_ctx 8192\ntemperature 0.7"
    }"#).unwrap();
    assert_eq!(parse_context_window(&resp), Some(8192));
}

#[test]
fn ollama_parse_context_window_missing_returns_none() {
    let resp = serde_json::from_str::<serde_json::Value>(r#"{ "modelfile": "..." }"#).unwrap();
    assert_eq!(parse_context_window(&resp), None);
}

#[test]
fn ollama_parse_context_window_num_ctx_takes_precedence() {
    let resp = serde_json::from_str::<serde_json::Value>(r#"{
        "model_info": { "llama.context_length": 32768 },
        "parameters": "num_ctx 8192"
    }"#).unwrap();
    assert_eq!(parse_context_window(&resp), Some(8192));
}

#[test]
fn ollama_parse_context_window_general_context_length() {
    let resp = serde_json::from_str::<serde_json::Value>(r#"{
        "model_info": { "general.context_length": 65536 }
    }"#).unwrap();
    assert_eq!(parse_context_window(&resp), Some(65536));
}

#[test]
fn ollama_parse_context_window_llama_takes_precedence_over_general() {
    let resp = serde_json::from_str::<serde_json::Value>(r#"{
        "model_info": {
            "llama.context_length": 32768,
            "general.context_length": 65536
        }
    }"#).unwrap();
    assert_eq!(parse_context_window(&resp), Some(32768));
}

#[test]
fn ollama_parse_context_window_dynamic_arch() {
    let resp = serde_json::from_str::<serde_json::Value>(r#"{
        "model_info": {
            "general.architecture": "gemma4",
            "gemma4.context_length": 131072
        }
    }"#).unwrap();
    assert_eq!(parse_context_window(&resp), Some(131072));
}

#[test]
fn ollama_parse_context_window_dynamic_arch_takes_precedence() {
    let resp = serde_json::from_str::<serde_json::Value>(r#"{
        "model_info": {
            "general.architecture": "gemma4",
            "gemma4.context_length": 131072,
            "llama.context_length": 32768
        }
    }"#).unwrap();
    assert_eq!(parse_context_window(&resp), Some(131072));
}

#[test]
fn parse_parse_context_window_from_model_info() {
    let resp = serde_json::from_str::<serde_json::Value>(r#"{
        "model_info": { "llama.context_length": 32768 }
    }"#).unwrap();
    assert_eq!(parse_context_window(&resp), Some(32768));
}

#[test]
fn parse_parse_context_window_from_parameters_string() {
    let resp = serde_json::from_str::<serde_json::Value>(r#"{
        "parameters": "stop <|end|>\nnum_ctx 8192\ntemperature 0.7"
    }"#).unwrap();
    assert_eq!(parse_context_window(&resp), Some(8192));
}

#[test]
fn parse_parse_context_window_missing_returns_none() {
    let resp = serde_json::from_str::<serde_json::Value>(r#"{ "modelfile": "..." }"#).unwrap();
    assert_eq!(parse_context_window(&resp), None);
}

#[test]
fn parse_parse_context_window_num_ctx_takes_precedence() {
    let resp = serde_json::from_str::<serde_json::Value>(r#"{
        "model_info": { "llama.context_length": 32768 },
        "parameters": "num_ctx 8192"
    }"#).unwrap();
    assert_eq!(parse_context_window(&resp), Some(8192));
}

#[test]
fn parse_parse_context_window_general_context_length() {
    let resp = serde_json::from_str::<serde_json::Value>(r#"{
        "model_info": { "general.context_length": 65536 }
    }"#).unwrap();
    assert_eq!(parse_context_window(&resp), Some(65536));
}

#[test]
fn parse_parse_context_window_llama_takes_precedence_over_general() {
    let resp = serde_json::from_str::<serde_json::Value>(r#"{
        "model_info": {
            "llama.context_length": 32768,
            "general.context_length": 65536
        }
    }"#).unwrap();
    assert_eq!(parse_context_window(&resp), Some(32768));
}

#[test]
fn parse_parse_context_window_dynamic_arch() {
    let resp = serde_json::from_str::<serde_json::Value>(r#"{
        "model_info": {
            "general.architecture": "gemma4",
            "gemma4.context_length": 131072
        }
    }"#).unwrap();
    assert_eq!(parse_context_window(&resp), Some(131072));
}

#[test]
fn parse_parse_context_window_dynamic_arch_takes_precedence() {
    let resp = serde_json::from_str::<serde_json::Value>(r#"{
        "model_info": {
            "general.architecture": "gemma4",
            "gemma4.context_length": 131072,
            "llama.context_length": 32768
        }
    }"#).unwrap();
    assert_eq!(parse_context_window(&resp), Some(131072));
}

#[test]
fn model_names_from_tags() {
    let resp: serde_json::Value =
        serde_json::from_str(r#"{"models":[{"name":"a:1"},{"size":3},{"name":"b"},{"name":7}]}"#).unwrap();
    assert_eq!(agent::ollama::parse::model_names(&resp), vec!["a:1".to_string(), "b".to_string()]);
    let none: serde_json::Value = serde_json::from_str("{}").unwrap();
    assert!(agent::ollama::parse::model_names(&none).is_empty());
}
