use kagent::agentspec::{
    check_agent_spec_version, default_agent_file, extended_spec_file, merge_agent_specs, resolve_agent_spec,
    spec_relative_path, AgentSpec, Inheritable, VersionField,
};
use kagent::cli::{
    check_cli_flags, check_cli_limits, info_text, mark_last_session, path_check_error, required_paths,
    resolve_agent_file, resolve_thinking, session_plan, AgentKind, Cli, SessionPlan,
};
use kagent::constant::{user_agent, NAME};
use kagent::mcp::{ensure_mcp_servers, get_mcp_auth_file, get_mcp_credential_store, McpConfigShape};
use kagent::metadata::{get_metadata_file, Metadata, WorkDirMeta};

fn cli() -> Cli {
    Cli {
        version: false,
        verbose: false,
        debug: false,
        work_dir: None,
        session_id: None,
        continue_session: false,
        config_string: None,
        config_file: None,
        model_name: None,
        thinking: false,
        no_thinking: false,
        yolo: false,
        wire: false,
        agent: None,
        agent_file: None,
        mcp_config_file: vec![],
        mcp_config: vec![],
        skills_dir: None,
        max_steps_per_turn: None,
        max_retries_per_step: None,
        max_ralph_iterations: None,
    }
}

fn spec(name: Option<&str>, path: Option<&str>, args: &[(&str, &str)], tools: Option<&[&str]>) -> AgentSpec {
    AgentSpec {
        extend: None,
        name: match name {
            Some(n) => Inheritable::Value(n.to_string()),
            None => Inheritable::Inherit,
        },
        system_prompt_path: match path {
            Some(p) => Inheritable::Value(p.to_string()),
            None => Inheritable::Inherit,
        },
        system_prompt_args: args.iter().map(|(k, v)| (k.to_string(), v.to_string())).collect(),
        tools: match tools {
            Some(t) => Inheritable::Value(Some(t.iter().map(|s| s.to_string()).collect())),
            None => Inheritable::Inherit,
        },
        exclude_tools: Inheritable::Inherit,
        subagents: Inheritable::Inherit,
    }
}

#[test]
fn conflicting_flags() {
    assert!(check_cli_flags(&cli()).is_ok());
    let mut c = cli();
    c.agent = Some(AgentKind::Default);
    c.agent_file = Some("a.yaml".to_string());
    assert_eq!(check_cli_flags(&c).unwrap_err(), "Cannot combine --agent, --agent-file.");
    let mut c = cli();
    c.continue_session = true;
    c.session_id = Some("s".to_string());
    assert_eq!(check_cli_flags(&c).unwrap_err(), "Cannot combine --continue, --session.");
    let mut c = cli();
    c.session_id = Some("  ".to_string());
    assert_eq!(check_cli_flags(&c).unwrap_err(), "Session ID cannot be empty.");
    let mut c = cli();
    c.thinking = true;
    c.no_thinking = true;
    assert_eq!(check_cli_flags(&c).unwrap_err(), "Cannot combine --thinking and --no-thinking.");
}

#[test]
fn limits() {
    let mut c = cli();
    c.max_ralph_iterations = Some(-1);
    assert!(check_cli_limits(&c).is_ok());
    c.max_ralph_iterations = Some(-2);
    assert_eq!(check_cli_limits(&c).unwrap_err(), "max-ralph-iterations must be >= -1.");
    c.max_steps_per_turn = Some(0);
    assert_eq!(check_cli_limits(&c).unwrap_err(), "max-steps-per-turn must be >= 1.");
}

#[test]
fn paths_in_check_order() {
    let mut c = cli();
    c.agent_file = Some("/a.yaml".to_string());
    c.work_dir = Some("/w".to_string());
    c.mcp_config_file = vec!["/m1.json".to_string(), "/m2.json".to_string()];
    let checks = required_paths(&c);
    let seen: Vec<(String, String, bool)> =
        checks.iter().map(|p| (p.path.clone(), p.label.clone(), p.directory)).collect();
    assert_eq!(
        seen,
        vec![
            ("/w".to_string(), "work dir".to_string(), true),
            ("/a.yaml".to_string(), "agent file".to_string(), false),
            ("/m1.json".to_string(), "MCP config file".to_string(), false),
            ("/m2.json".to_string(), "MCP config file".to_string(), false),
        ]
    );
    assert_eq!(path_check_error(&checks[0], false), "work dir does not exist: /w");
    assert_eq!(path_check_error(&checks[0], true), "work dir is not a directory: /w");
    assert_eq!(path_check_error(&checks[1], true), "agent file is not a file: /a.yaml");
}

#[test]
fn agent_files_and_thinking() {
    assert_eq!(resolve_agent_file(Some(AgentKind::Okabe), &None, "/pkg"), Some("/pkg/src/agents/okabe/agent.yaml".to_string()));
    assert_eq!(resolve_agent_file(Some(AgentKind::Default), &Some("x.yaml".to_string()), "/pkg"), Some("x.yaml".to_string()));
    assert_eq!(resolve_agent_file(None, &None, "/pkg"), None);
    assert_eq!(default_agent_file("/pkg"), "/pkg/src/agents/default/agent.yaml");
    assert_eq!(resolve_thinking(true, false), Ok(Some(true)));
    assert_eq!(resolve_thinking(false, true), Ok(Some(false)));
    assert_eq!(resolve_thinking(false, false), Ok(None));
    assert!(resolve_thinking(true, true).is_err());
}

#[test]
fn session_plans() {
    assert!(matches!(session_plan(&Some(" abc ".to_string()), false), SessionPlan::Resume(s) if s == "abc"));
    assert!(matches!(session_plan(&None, true), SessionPlan::Continue));
    assert!(matches!(session_plan(&None, false), SessionPlan::New));
}

#[test]
fn work_dir_entries() {
    let mut md = Metadata::default();
    assert!(md.get_work_dir_meta("/w", "local").is_none());
    let meta = md.new_work_dir_meta("/w", "local");
    assert_eq!(md.work_dirs.len(), 1);
    assert_eq!(md.get_work_dir_meta("/w", "local").unwrap().path, "/w");
    assert!(md.get_work_dir_meta("/w", "ssh").is_none());
    let i = mark_last_session(&mut md, meta.clone(), "s1", false);
    assert_eq!(i, 0);
    assert_eq!(md.work_dirs[0].last_session_id, Some("s1".to_string()));
    mark_last_session(&mut md, meta.clone(), "s1", true);
    assert_eq!(md.work_dirs[0].last_session_id, None);
    let other = WorkDirMeta { path: "/v".to_string(), kaos: "local".to_string(), last_session_id: None };
    assert_eq!(mark_last_session(&mut md, other, "s2", false), 1);
    assert_eq!(md.work_dirs.len(), 2);
}

#[test]
fn sessions_dir_hashes_the_path() {
    let meta = WorkDirMeta { path: "/work".to_string(), kaos: "local".to_string(), last_session_id: None };
    assert_eq!(meta.sessions_dir("/share"), "/share/sessions/1e0bb3bee2d09d2e4ad3523530d3b40c");
    let remote = WorkDirMeta { path: "/work".to_string(), kaos: "ssh".to_string(), last_session_id: None };
    assert_eq!(remote.sessions_dir("/share"), "/share/sessions/ssh_1e0bb3bee2d09d2e4ad3523530d3b40c");
    assert_eq!(get_metadata_file("/share"), "/share/kimi.json");
}

#[test]
fn info_lines() {
    assert_eq!(
        info_text("1.2.3", "7"),
        "kimi-cli version: 1.2.3\nagent spec versions: 1\nwire protocol: 7\npython version: n/a\nserver name: Kimi Code CLI\nserver version: 1.2.3\n"
    );
    assert_eq!(NAME, "Kimi Code CLI");
    assert_eq!(user_agent("1.0"), "KimiCLI/1.0");
}

#[test]
fn mcp_files() {
    assert_eq!(get_mcp_auth_file("/s"), "/s/credentials/mcp_auth.json");
    let store = get_mcp_credential_store("/s", "https://mcp.example");
    assert_eq!(store.file(), "/s/credentials/mcp_auth.json");
    assert_eq!(store.key(), "https://mcp.example");
    assert_eq!(ensure_mcp_servers(&McpConfigShape::NoServers).ok(), Some(true));
    assert_eq!(ensure_mcp_servers(&McpConfigShape::Servers { is_object: true }).ok(), Some(false));
    match ensure_mcp_servers(&McpConfigShape::NotObject) {
        Err(e) => assert_eq!(e.to_message(), "MCP config must be a JSON object"),
        Ok(_) => panic!("expected an error"),
    }
}

#[test]
fn specs_merge_child_over_parent() {
    let child = spec(Some("child"), None, &[("A", "c")], None);
    let parent = spec(Some("parent"), Some("p.md"), &[("A", "p"), ("B", "b")], Some(&["Shell"]));
    let merged = merge_agent_specs(vec![child, parent]);
    let resolved = match resolve_agent_spec(merged) {
        Ok(r) => r,
        Err(e) => panic!("{}", e.to_message()),
    };
    assert_eq!(resolved.name, "child");
    assert_eq!(resolved.system_prompt_path, "p.md");
    assert_eq!(resolved.tools, vec!["Shell".to_string()]);
    assert!(resolved.exclude_tools.is_empty());
    let mut args = resolved.system_prompt_args.clone();
    args.sort();
    assert_eq!(args, vec![("A".to_string(), "c".to_string()), ("B".to_string(), "b".to_string())]);
}

#[test]
fn specs_need_their_fields() {
    match resolve_agent_spec(spec(None, Some("p"), &[], Some(&[]))) {
        Err(e) => assert_eq!(e.to_message(), "Agent name is required"),
        Ok(_) => panic!("expected an error"),
    }
    match resolve_agent_spec(spec(Some("n"), None, &[], Some(&[]))) {
        Err(e) => assert_eq!(e.to_message(), "System prompt path is required"),
        Ok(_) => panic!("expected an error"),
    }
    match resolve_agent_spec(spec(Some("n"), Some("p"), &[], None)) {
        Err(e) => assert_eq!(e.to_message(), "Tools are required"),
        Ok(_) => panic!("expected an error"),
    }
}

#[test]
fn spec_versions_and_paths() {
    assert!(check_agent_spec_version(&VersionField::Missing).is_ok());
    assert!(check_agent_spec_version(&VersionField::Int(1)).is_ok());
    match check_agent_spec_version(&VersionField::Text("2".to_string())) {
        Err(e) => assert_eq!(e.to_message(), "Unsupported agent spec version: 2"),
        Ok(_) => panic!("expected an error"),
    }
    assert_eq!(extended_spec_file("/a/b/agent.yaml", "default", "/d.yaml"), "/d.yaml");
    assert_eq!(extended_spec_file("/a/b/agent.yaml", "base.yaml", "/d.yaml"), "/a/b/base.yaml");
    assert_eq!(spec_relative_path("/a/b/agent.yaml", "prompt.md"), "/a/b/prompt.md");
    assert_eq!(spec_relative_path("/a/b/agent.yaml", "/abs.md"), "/abs.md");
}
