use kagent::config::{finish_config_load, get_default_config, LLMModel, LLMProvider, ProviderType};
use kagent::json::{load_mcp_config_string, parse_json, wire_file_version};
use kagent::llm::plan_llm;
use kagent::message::{tool_result_to_message, ContentPart, ToolResult};
use kagent::paths::share_dir_of;
use kagent::tools::html::JsonValue;
use kagent::tools::{ToolOutput, ToolReturnValue};

#[test]
fn json_values_are_read() {
    match parse_json(r#"{"a": [1, true, null, "x"]}"#).ok().unwrap() {
        JsonValue::Object(es) => {
            assert_eq!(es[0].0, "a");
            match &es[0].1 {
                JsonValue::Array(items) => {
                    assert!(matches!(&items[0], JsonValue::Number(n) if n == "1"));
                    assert!(matches!(items[1], JsonValue::Bool(true)));
                    assert!(matches!(items[2], JsonValue::Null));
                    assert!(matches!(&items[3], JsonValue::Str(s) if s == "x"));
                },
                _ => panic!("array expected"),
            }
        },
        _ => panic!("object expected"),
    }
    assert!(parse_json("{").is_err());
}

#[test]
fn mcp_configurations() {
    match load_mcp_config_string("{}").ok().unwrap() {
        JsonValue::Object(es) => {
            assert_eq!(es.len(), 1);
            assert_eq!(es[0].0, "mcpServers");
            assert!(matches!(&es[0].1, JsonValue::Object(m) if m.is_empty()));
        },
        _ => panic!("object expected"),
    }
    assert!(load_mcp_config_string(r#"{"mcpServers": {"a": {"url": "u"}}}"#).is_ok());
    match load_mcp_config_string("[1]") {
        Err(e) => assert_eq!(e.to_message(), "MCP config must be a JSON object"),
        Ok(_) => panic!("expected an error"),
    }
    match load_mcp_config_string(r#"{"mcpServers": 3}"#) {
        Err(e) => assert_eq!(e.to_message(), "mcpServers must be a JSON object"),
        Ok(_) => panic!("expected an error"),
    }
    match load_mcp_config_string("nope") {
        Err(e) => assert!(e.to_message().starts_with("Invalid JSON: ")),
        Ok(_) => panic!("expected an error"),
    }
}

#[test]
fn wire_file_versions() {
    assert_eq!(wire_file_version(false, None, "1.1", "1"), "1.1");
    assert_eq!(wire_file_version(true, None, "1.1", "1"), "1");
    assert_eq!(wire_file_version(true, Some(r#"{"type":"metadata","protocol_version":"0.9"}"#), "1.1", "1"), "0.9");
    assert_eq!(wire_file_version(true, Some(r#"{"type":"event","protocol_version":"0.9"}"#), "1.1", "1"), "1");
    assert_eq!(wire_file_version(true, Some("not json"), "1.1", "1"), "1");
}

#[test]
fn configuration_text_is_finished() {
    match finish_config_load(true, Ok(get_default_config())) {
        Err(e) => assert_eq!(e.to_message(), "Configuration text cannot be empty"),
        Ok(_) => panic!("expected an error"),
    }
    match finish_config_load(false, Err("bad; worse".to_string())) {
        Err(e) => assert_eq!(e.to_message(), "Invalid configuration text: bad; worse"),
        Ok(_) => panic!("expected an error"),
    }
    let mut c = get_default_config();
    c.is_from_default_location = true;
    let done = finish_config_load(false, Ok(c)).ok().unwrap();
    assert!(!done.is_from_default_location);
    let mut bad = get_default_config();
    bad.default_model = "m".to_string();
    match finish_config_load(false, Ok(bad)) {
        Err(e) => assert_eq!(e.to_message(), "Invalid configuration text: Default model m not found in models"),
        Ok(_) => panic!("expected an error"),
    }
}

#[test]
fn share_directory() {
    assert_eq!(share_dir_of(Some("/data"), "/home/u"), "/data");
    assert_eq!(share_dir_of(Some(""), "/home/u"), "/home/u/.kimi");
    assert_eq!(share_dir_of(None, "/home/u"), "/home/u/.kimi");
}

#[test]
fn plans_copy_the_settings() {
    let model = LLMModel { provider: "p".to_string(), model: "m".to_string(), max_context_size: 7, capabilities: None };
    let provider = LLMProvider { provider_type: ProviderType::Echo, base_url: String::new(), api_key: "k".to_string(), env: None, custom_headers: None };
    let plan = plan_llm(&provider, &model, None).unwrap();
    assert_eq!(plan.model_config.model, "m");
    assert_eq!(plan.provider_config.api_key, "k");
}

#[test]
fn media_ids_survive_tool_messages() {
    let rv = ToolReturnValue {
        is_error: false,
        output: ToolOutput::Parts(vec![ContentPart::ImageUrl { url: "data:x".to_string(), id: Some("img1".to_string()) }]),
        message: "Loaded".to_string(),
        display: vec![],
        extras: None,
    };
    let m = tool_result_to_message(&ToolResult { tool_call_id: "c".to_string(), return_value: rv });
    assert!(matches!(m.content.last(), Some(ContentPart::ImageUrl { id: Some(i), .. }) if i == "img1"));
}

#[test]
fn skills_are_indexed_by_lowercase_name() {
    let names = vec!["Review".to_string(), "deploy".to_string(), "review".to_string()];
    let index = kagent::skill::index_skills(&names);
    let mut got: Vec<(String, usize)> = index.clone();
    got.sort();
    assert_eq!(got, vec![("deploy".to_string(), 1), ("review".to_string(), 2)]);
}
