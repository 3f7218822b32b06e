use kagent::config::ModelCapability;
use kagent::file_type::FileKind;
use kagent::message::ContentPart;
use kagent::soul::denwarenji::DenwaRenji;
use kagent::tools::agent_tools::{send_dmail_tool, subagent_created, subagent_exists_error, DMailParams, Think, ThinkParams};
use kagent::tools::grep::{cut_head, detect_target, grep_args, grep_failure, grep_result, rg_archive, GrepParams};
use kagent::tools::media::{check_media_kind, check_media_size, image_result, read_media_available, to_data_url};
use kagent::tools::shell::{check_command, command_result, run_command_description, Shell, ShellEnd};
use kagent::tools::utils::ToolResultBuilder;
use kagent::config::MoonshotSearchConfig;
use kagent::tools::html::JsonValue;
use kagent::tools::web::{format_results, search_failure, search_result, RequestFailure, SearchParams, SearchResult, SearchWeb};
use kagent::tools::ToolOutput;

fn text(o: &ToolOutput) -> String {
    match o {
        ToolOutput::Text(t) => t.clone(),
        ToolOutput::Parts(_) => panic!("text output expected"),
    }
}

fn params(pattern: &str, mode: &str) -> GrepParams {
    GrepParams {
        pattern: pattern.to_string(),
        path: ".".to_string(),
        glob: None,
        output_mode: mode.to_string(),
        before_context: None,
        after_context: None,
        context: None,
        line_number: false,
        ignore_case: false,
        file_type: None,
        head_limit: None,
        multiline: false,
    }
}

#[test]
fn grep_command_line() {
    let mut p = params("-foo", "content");
    p.ignore_case = true;
    p.context = Some(2);
    p.line_number = true;
    p.glob = Some("*.rs".to_string());
    assert_eq!(grep_args(&p), vec!["-i", "-C", "2", "-n", "-g", "*.rs", "--", "-foo", "."]);
    let mut p = params("foo", "files_with_matches");
    p.context = Some(2);
    assert_eq!(grep_args(&p), vec!["-l", "foo", "."]);
    assert_eq!(grep_args(&params("x", "count_matches")), vec!["-c", "x", "."]);
}

#[test]
fn grep_outcomes() {
    assert!(grep_failure(false, Some(1), "").is_none());
    assert!(grep_failure(true, Some(0), "").is_none());
    assert_eq!(grep_failure(false, Some(2), "bad regex").unwrap().message, "Failed to grep. Error: bad regex");
    assert_eq!(grep_failure(false, None, "  ").unwrap().message, "Failed to grep. Exit status: -1");
    let r = grep_result("", None);
    assert_eq!(r.message, "No matches found.");
    let r = grep_result("a.rs\nb.rs\nc.rs", Some(2));
    assert_eq!(text(&r.output), "a.rs\nb.rs\n... (results truncated to 2 lines)");
    assert_eq!(r.message, "Results truncated to first 2 lines.");
    assert_eq!(cut_head("a\nb", Some(5)), ("a\nb".to_string(), String::new()));
}

#[test]
fn ripgrep_builds() {
    assert_eq!(detect_target("amd64", "linux"), Some("x86_64-unknown-linux-musl".to_string()));
    assert_eq!(detect_target("arm64", "macos"), Some("aarch64-apple-darwin".to_string()));
    assert_eq!(detect_target("riscv", "linux"), None);
    let (file, url) = rg_archive("x86_64-pc-windows-msvc");
    assert_eq!(file, "ripgrep-15.0.0-x86_64-pc-windows-msvc.zip");
    assert_eq!(url, "http://cdn.kimi.com/binaries/kimi-cli/rg/ripgrep-15.0.0-x86_64-pc-windows-msvc.zip");
    assert_eq!(rg_archive("aarch64-apple-darwin").0, "ripgrep-15.0.0-aarch64-apple-darwin.tar.gz");
}

#[test]
fn shell_tool() {
    let sh = Shell::new("bash", "/bin/bash", "Runs in ${SHELL}.", "PS ${SHELL}");
    assert!(!sh.is_powershell);
    assert_eq!(sh.description, "Runs in bash (`/bin/bash`).");
    assert_eq!(sh.shell_args("ls"), vec!["/bin/bash", "-c", "ls"]);
    let ps = Shell::new("Windows PowerShell", "powershell.exe", "B", "PS ${SHELL}");
    assert_eq!(ps.description, "PS Windows PowerShell (`powershell.exe`)");
    assert_eq!(ps.shell_args("dir"), vec!["powershell.exe", "-command", "dir"]);
    assert_eq!(run_command_description("ls"), "Run command `ls`");
}

#[test]
fn shell_results() {
    let b = ToolResultBuilder::default();
    assert_eq!(check_command(&b, "").unwrap().message, "Command cannot be empty.");
    assert!(check_command(&b, "ls").is_none());
    let mut b = ToolResultBuilder::default();
    b.write("out\n");
    let ok = command_result(&b, ShellEnd::Exited(0), 60);
    assert!(!ok.is_error);
    assert_eq!(text(&ok.output), "out\n");
    assert_eq!(ok.message, "Command executed successfully.");
    let failed = command_result(&b, ShellEnd::Exited(2), 60);
    assert!(failed.is_error);
    assert_eq!(failed.message, "Command failed with exit code: 2.");
    assert_eq!(failed.brief(), "Failed with exit code: 2");
    let killed = command_result(&b, ShellEnd::TimedOut, 5);
    assert_eq!(killed.message, "Command killed by timeout (5s)");
    assert_eq!(killed.brief(), "Killed by timeout (5s)");
}

#[test]
fn web_results() {
    let results = vec![
        SearchResult {
            title: "T1".to_string(),
            url: "u1".to_string(),
            snippet: "sn1".to_string(),
            content: String::new(),
            date: "d1".to_string(),
        },
        SearchResult {
            title: "T2".to_string(),
            url: "u2".to_string(),
            snippet: "sn2".to_string(),
            content: "body".to_string(),
            date: "d2".to_string(),
        },
    ];
    let expected = "Title: T1\nDate: d1\nURL: u1\nSummary: sn1\n\n---\n\nTitle: T2\nDate: d2\nURL: u2\nSummary: sn2\n\nbody\n\n";
    assert_eq!(format_results(&results), expected);
    let r = search_result(&results);
    assert!(!r.is_error);
    assert_eq!(text(&r.output), expected);
    let b = ToolResultBuilder::default();
    let f = search_failure(&b, &RequestFailure::Status("503".to_string()));
    assert_eq!(
        f.message,
        "Failed to search. Status: 503. This may indicates that the search service is currently unavailable."
    );
    assert_eq!(f.brief(), "Failed to search");
}

#[test]
fn media_checks() {
    assert!(read_media_available(&vec![ModelCapability::ImageIn]).is_ok());
    assert!(read_media_available(&vec![ModelCapability::Thinking]).is_err());
    let r = check_media_kind("/a.txt", FileKind::Text, &vec![]).unwrap();
    assert_eq!(r.message, "`/a.txt` is a text file. Use ReadFile to read text files.");
    assert!(check_media_kind("/a.png", FileKind::Image, &vec![ModelCapability::ImageIn]).is_none());
    let r = check_media_kind("/a.mp4", FileKind::Video, &vec![ModelCapability::ImageIn]).unwrap();
    assert_eq!(r.brief(), "Unsupported media type");
    assert_eq!(check_media_size("/a.png", 0).unwrap().message, "`/a.png` is empty.");
    assert!(check_media_size("/a.png", 10).is_none());
    assert_eq!(
        check_media_size("/a.png", 200 * 1024 * 1024).unwrap().message,
        "`/a.png` is 209715200 bytes, which exceeds the max 100MB bytes for media files."
    );
}

#[test]
fn images_become_data_urls() {
    assert_eq!(to_data_url("image/png", b"hi"), "data:image/png;base64,aGk=");
    let r = image_result("/a.png", "image/png", 2, b"hi", Some((3, 4)));
    assert!(!r.is_error);
    assert!(r.message.starts_with("Loaded image file `/a.png` (image/png, 2 bytes, original size 3x4px)."));
    match &r.output {
        ToolOutput::Parts(parts) => {
            assert_eq!(parts.len(), 3);
            assert!(matches!(&parts[0], ContentPart::Text(t) if t == "<image path=\"/a.png\">"));
            assert!(matches!(&parts[1], ContentPart::ImageUrl { url, .. } if url == "data:image/png;base64,aGk="));
            assert!(matches!(&parts[2], ContentPart::Text(t) if t == "</image>"));
        },
        ToolOutput::Text(_) => panic!("parts expected"),
    }
}

#[test]
fn dmail_tool() {
    let mut renji = DenwaRenji::new();
    let r = send_dmail_tool(&mut renji, DMailParams { message: "m".to_string(), checkpoint_id: 0 });
    assert!(r.is_error);
    assert_eq!(r.message, "Failed to send D-Mail. Error: there is no checkpoint with the given ID");
    renji.set_n_checkpoints(1);
    let r = send_dmail_tool(&mut renji, DMailParams { message: "m".to_string(), checkpoint_id: 0 });
    assert!(!r.is_error);
    assert_eq!(r.brief(), "El Psy Kongroo");
    assert_eq!(renji.fetch_pending_dmail().unwrap().message, "m");
}

#[test]
fn think_and_subagents() {
    let t = Think::new("d");
    assert_eq!(t.think(&ThinkParams { thought: "x".to_string() }).message, "Thought logged");
    let r = subagent_created(vec!["zed".to_string(), "alpha".to_string()], "zed");
    assert_eq!(text(&r.output), "Available subagents: alpha, zed");
    assert_eq!(r.message, "Subagent 'zed' created successfully.");
    assert_eq!(subagent_exists_error("a").message, "Subagent with name 'a' already exists.");
}

#[test]
fn search_requests_carry_the_key_and_the_tool_call() {
    let service = Some(MoonshotSearchConfig {
        base_url: "https://search.example/api".to_string(),
        api_key: "k-123".to_string(),
        custom_headers: Some(vec![("X-Team".to_string(), "core".to_string())]),
    });
    let tool = match SearchWeb::new(&service, "search") {
        Ok(t) => t,
        Err(_) => panic!("a configured service gives the tool"),
    };
    let params = SearchParams { query: "verus".to_string(), limit: 7, include_content: true };
    let req = tool.request(&params, "call-9", "1.2.3");
    assert_eq!(req.url, "https://search.example/api");
    let headers: Vec<(&str, &str)> = req.headers.iter().map(|(k, v)| (k.as_str(), v.as_str())).collect();
    assert_eq!(
        headers,
        vec![
            ("User-Agent", "KimiCLI/1.2.3"),
            ("Authorization", "Bearer k-123"),
            ("X-Msh-Tool-Call-Id", "call-9"),
            ("X-Team", "core"),
        ]
    );
    match &req.body {
        JsonValue::Object(es) => {
            assert_eq!(es.len(), 4);
            assert_eq!(es[0].0, "text_query");
            assert!(matches!(&es[0].1, JsonValue::Str(q) if q == "verus"));
            assert_eq!(es[1].0, "limit");
            assert!(matches!(&es[1].1, JsonValue::Number(n) if n == "7"));
            assert_eq!(es[2].0, "enable_page_crawling");
            assert!(matches!(&es[2].1, JsonValue::Bool(true)));
            assert_eq!(es[3].0, "timeout_seconds");
            assert!(matches!(&es[3].1, JsonValue::Number(n) if n == "30"));
        }
        _ => panic!("the body is an object"),
    }
}
