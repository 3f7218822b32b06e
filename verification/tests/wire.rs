use kagent::soul::toolset::{
    initial_status, invalid_tools_error, needs_oauth, normalize_http_transport, HttpServerConfig, McpServerConfig,
    McpServerStatus, StdioServerConfig, ToolNames,
};
use kagent::text::{format_debug_strings, split_chars, trim_str};
use kagent::wire::{protocol_version_for, PendingResponse, WireError, WireFile, WireFileMetadata};

fn http(auth: Option<&str>) -> McpServerConfig {
    McpServerConfig::Http(HttpServerConfig {
        url: "https://mcp".to_string(),
        transport: None,
        headers: None,
        auth: auth.map(|a| a.to_string()),
    })
}

#[test]
fn first_answer_stays() {
    let mut p: PendingResponse<u32> = PendingResponse::new();
    assert!(!p.resolved());
    p.resolve(1);
    p.resolve(2);
    assert!(p.resolved());
}

#[test]
fn wire_files() {
    assert_eq!(protocol_version_for(false, Some("0.9".to_string()), "1.1", "1"), "1.1");
    assert_eq!(protocol_version_for(true, Some("0.9".to_string()), "1.1", "1"), "0.9");
    assert_eq!(protocol_version_for(true, None, "1.1", "1"), "1");
    let header = WireFileMetadata::new("1.1");
    assert!(header.is_header());
    assert_eq!(header.protocol_version, "1.1");
    let f = WireFile::new("/w.jsonl".to_string(), "1.1".to_string());
    assert_eq!(f.path(), "/w.jsonl");
    assert_eq!(f.version(), "1.1");
    let fresh = WireFile::open("/new.jsonl".to_string(), false, None, "1.1", "1");
    assert_eq!(fresh.path(), "/new.jsonl");
    assert_eq!(fresh.version(), "1.1");
    let headed = WireFile::open(
        "/old.jsonl".to_string(),
        true,
        Some(r#"{"type":"metadata","protocol_version":"0.9"}"#),
        "1.1",
        "1",
    );
    assert_eq!(headed.version(), "0.9");
    let bare = WireFile::open("/old.jsonl".to_string(), true, Some(r#"{"type":"event"}"#), "1.1", "1");
    assert_eq!(bare.version(), "1");
    assert_eq!(WireError::UnknownMessageType("Foo".to_string()).to_message(), "unknown wire message type: Foo");
    assert_eq!(WireError::InvalidPayloadType.to_message(), "wire message payload must be a JSON object");
}

#[test]
fn mcp_servers() {
    assert!(needs_oauth(&http(Some("oauth"))));
    assert!(!needs_oauth(&http(None)));
    let stdio = McpServerConfig::Stdio(StdioServerConfig { command: "srv".to_string(), args: vec![], env: None });
    assert!(!needs_oauth(&stdio));
    assert_eq!(initial_status(&http(Some("oauth")), false), McpServerStatus::Unauthorized);
    assert_eq!(initial_status(&http(Some("oauth")), true), McpServerStatus::Pending);
    assert_eq!(initial_status(&stdio, false), McpServerStatus::Pending);
    assert!(normalize_http_transport(&Some("streamable-http".to_string())).is_ok());
    assert!(normalize_http_transport(&None).is_ok());
    assert_eq!(normalize_http_transport(&Some("sse".to_string())).unwrap_err(), "Unsupported transport: sse");
}

#[test]
fn external_tools_cannot_shadow_builtin_ones() {
    let mut names = ToolNames::new();
    names.tools.push("Shell".to_string());
    assert!(names.has_builtin_tool("Shell"));
    assert_eq!(names.register_external_tool("Shell").unwrap_err(), "tool name conflicts with existing tool");
    assert!(names.register_external_tool("ui_tool").is_ok());
    assert!(!names.has_builtin_tool("ui_tool"));
    assert!(names.register_external_tool("ui_tool").is_ok());
}

#[test]
fn invalid_tool_list() {
    assert!(invalid_tools_error(&vec![]).is_none());
    let e = invalid_tools_error(&vec!["a".to_string(), "b\"c".to_string()]).unwrap();
    assert_eq!(e.to_message(), "Invalid tools: [\"a\", \"b\\\"c\"]");
    assert_eq!(format_debug_strings(&vec![]), "[]");
}

#[test]
fn text_helpers() {
    assert_eq!(trim_str("  a b \n"), "a b");
    let parts = split_chars(&['a', ',', 'b', ','], ',');
    let parts: Vec<String> = parts.iter().map(|p| p.iter().collect()).collect();
    assert_eq!(parts, vec!["a".to_string(), "b".to_string(), String::new()]);
}
