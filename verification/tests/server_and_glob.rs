use kagent::soul::toolset::{call_arguments, dispatch_tool_call, ToolDispatch};
use kagent::soul::kimisoul::{loop_start, LoopStart};
use kagent::tools::media::to_data_url;
use kagent::config::{LLMModel, LLMProvider, ModelCapability, ProviderType};
use kagent::llm::{plan_llm, ThinkingChoice};
use kagent::skill::skill_order;
use kagent::tools::file::{glob_dir_error, glob_found, glob_matches, kept_entries, relative_lines};
use kagent::tools::ToolOutput;
use kagent::utils::slashcmd::SlashCommandRegistry;
use kagent::wire::ApprovalResponseKind;
use kagent::wire_server::{
    approval_answer, cancel_admission, classify_inbound, prompt_admission, run_outcome_reply, take_pending,
    InboundAction, InboundMessage, PromptReply, RunOutcome, CHAT_PROVIDER_ERROR, INVALID_PARAMS, INVALID_REQUEST,
    INVALID_STATE, LLM_NOT_SET, METHOD_NOT_FOUND, PARSE_ERROR,
};

fn text(o: &ToolOutput) -> String {
    match o {
        ToolOutput::Text(t) => t.clone(),
        ToolOutput::Parts(_) => panic!("text output expected"),
    }
}

fn msg(method: Option<&str>, id: Option<&str>) -> InboundMessage {
    InboundMessage {
        json_ok: true,
        shape_ok: true,
        response_hint: method.is_none() && id.is_some(),
        jsonrpc: Some("2.0".to_string()),
        method: method.map(|m| m.to_string()),
        id: id.map(|i| i.to_string()),
        has_result: false,
        has_error: false,
    }
}

#[test]
fn glob_keeps_the_first_sorted_matches() {
    let many: Vec<String> = (0..1001).rev().map(|i| format!("/d/f{:04}", i)).collect();
    let (kept, _) = glob_matches("f*", many);
    assert_eq!(kept.len(), 1000);
    assert_eq!(kept[0], "/d/f0000");
    assert_eq!(kept[999], "/d/f0999");
}

#[test]
fn glob_filters_and_writes_relative_paths() {
    let entries = vec![
        ("/w/src/b.rs".to_string(), true),
        ("/w/src/sub".to_string(), false),
        ("/w/src/a.rs".to_string(), true),
    ];
    assert_eq!(kept_entries(&entries, false), vec!["/w/src/b.rs".to_string(), "/w/src/a.rs".to_string()]);
    assert_eq!(kept_entries(&entries, true).len(), 3);
    let r = glob_found("*", "/w/src", &entries, false);
    assert!(!r.is_error);
    assert_eq!(text(&r.output), "a.rs\nb.rs");
    assert_eq!(r.message, "Found 2 matches for pattern `*`.");
    let r = glob_found("*", "/w/src/", &entries, true);
    assert_eq!(text(&r.output), "a.rs\nb.rs\nsub");
    assert_eq!(relative_lines(&vec!["/other/x".to_string(), "/w".to_string()], "/w"), "/other/x\n");
}

#[test]
fn glob_directory_checks() {
    assert_eq!(
        glob_dir_error("rel", "rel", false, true, true, true).unwrap().message,
        "`rel` is not an absolute path. You must provide an absolute path to search."
    );
    assert_eq!(
        glob_dir_error("~/x", "/home/u/x", true, false, true, true).unwrap().message,
        "`/home/u/x` is outside the working directory. You can only search within the working directory."
    );
    assert_eq!(glob_dir_error("/w/n", "/w/n", true, true, false, false).unwrap().brief(), "Directory not found");
    assert_eq!(glob_dir_error("/w/f", "/w/f", true, true, true, false).unwrap().message, "`/w/f` is not a directory.");
    assert!(glob_dir_error("/w", "/w", true, true, true, true).is_none());
}

#[test]
fn inbound_messages_are_classified() {
    let mut bad = msg(None, None);
    bad.json_ok = false;
    assert!(matches!(classify_inbound(&bad), InboundAction::ErrorWithoutId { code, ref message } if code == PARSE_ERROR && message == "Invalid JSON format"));
    let mut old = msg(Some("prompt"), Some("1"));
    old.jsonrpc = Some("1.0".to_string());
    assert!(matches!(classify_inbound(&old), InboundAction::ErrorWithoutId { code, .. } if code == INVALID_REQUEST));
    assert!(matches!(classify_inbound(&msg(None, Some("7"))), InboundAction::ErrorWithoutId { ref message, .. } if message == "Invalid response"));
    let mut answered = msg(None, Some("7"));
    answered.has_result = true;
    assert!(matches!(classify_inbound(&answered), InboundAction::Response { ref id } if id == "7"));
    assert!(matches!(classify_inbound(&msg(Some("prompt"), Some("1"))), InboundAction::Prompt));
    assert!(matches!(classify_inbound(&msg(Some("cancel"), Some("1"))), InboundAction::Cancel));
    assert!(matches!(classify_inbound(&msg(Some("initialize"), Some("1"))), InboundAction::Initialize));
    assert!(matches!(classify_inbound(&msg(Some("foo"), Some("2"))), InboundAction::ErrorTo { ref id, code, ref message } if id == "2" && code == METHOD_NOT_FOUND && message == "Unexpected method received: foo"));
    assert!(matches!(classify_inbound(&msg(Some("foo"), None)), InboundAction::Ignore));
}

#[test]
fn prompts_and_replies() {
    assert_eq!(prompt_admission(true, true).unwrap().0, INVALID_STATE);
    assert_eq!(prompt_admission(false, false), Some((INVALID_PARAMS, "Invalid parameters for method `prompt`".to_string())));
    assert!(prompt_admission(false, true).is_none());
    assert_eq!(cancel_admission(false).unwrap().1, "No agent turn is in progress");
    assert!(matches!(run_outcome_reply(RunOutcome::Finished), PromptReply::Status { ref status, steps: None } if status == "finished"));
    assert!(matches!(run_outcome_reply(RunOutcome::MaxStepsReached(5)), PromptReply::Status { ref status, steps: Some(5) } if status == "max_steps_reached"));
    assert!(matches!(run_outcome_reply(RunOutcome::LlmNotSet), PromptReply::Error { code, ref message } if code == LLM_NOT_SET && message == "LLM is not set"));
    assert!(matches!(run_outcome_reply(RunOutcome::ChatProviderError("x".to_string())), PromptReply::Error { code, .. } if code == CHAT_PROVIDER_ERROR));
    assert_eq!(approval_answer(true, Some(ApprovalResponseKind::Approve)), ApprovalResponseKind::Reject);
    assert_eq!(approval_answer(false, None), ApprovalResponseKind::Reject);
    assert_eq!(approval_answer(false, Some(ApprovalResponseKind::ApproveForSession)), ApprovalResponseKind::ApproveForSession);
    let mut pending = vec![("a".to_string(), 1), ("b".to_string(), 2), ("a".to_string(), 3)];
    assert_eq!(take_pending(&mut pending, "a"), Some(1));
    assert_eq!(pending, vec![("b".to_string(), 2), ("a".to_string(), 3)]);
    assert_eq!(take_pending(&mut pending, "z"), None);
}

#[test]
fn llm_plans() {
    let model = LLMModel { provider: "p".to_string(), model: "kimi-k2-thinking".to_string(), max_context_size: 9, capabilities: None };
    let kimi = LLMProvider { provider_type: ProviderType::Kimi, base_url: "u".to_string(), api_key: String::new(), env: None, custom_headers: None };
    let plan = plan_llm(&kimi, &model, Some(false)).unwrap();
    assert!(plan.capabilities.contains(&ModelCapability::AlwaysThinking));
    assert_eq!(plan.thinking, ThinkingChoice::High);
    assert_eq!(plan.max_context_size, 9);
    let no_url = LLMProvider { base_url: String::new(), ..kimi };
    assert!(plan_llm(&no_url, &model, None).is_none());
    let openai = LLMProvider { provider_type: ProviderType::OpenaiLegacy, base_url: "u".to_string(), api_key: String::new(), env: None, custom_headers: None };
    assert!(plan_llm(&openai, &model, None).is_none());
}

#[test]
fn later_skills_override_and_are_sorted() {
    let names = vec!["zeta".to_string(), "Alpha".to_string(), "beta".to_string(), "alpha".to_string()];
    let order = skill_order(&names);
    let picked: Vec<&str> = order.iter().map(|&i| names[i].as_str()).collect();
    assert_eq!(picked, vec!["alpha", "beta", "zeta"]);
}

#[test]
fn registry_lists_each_name_once() {
    let mut r: SlashCommandRegistry<()> = SlashCommandRegistry::new();
    r.register("a".to_string(), String::new(), (), vec!["x".to_string()]);
    r.register("b".to_string(), String::new(), (), vec![]);
    r.register("a".to_string(), String::new(), (), vec![]);
    let mut names: Vec<String> = r.list_commands().iter().map(|c| c.name.clone()).collect();
    names.sort();
    assert_eq!(names, vec!["a".to_string(), "b".to_string()]);
}

#[test]
fn loop_tops() {
    assert!(matches!(loop_start(3, 3, 0, 0, None), LoopStart::OutOfSteps(3)));
    assert!(matches!(loop_start(0, 3, 10, 50, Some(60)), LoopStart::CompactThenStep(1)));
    assert!(matches!(loop_start(1, 3, 10, 50, Some(100)), LoopStart::Step(2)));
    assert!(matches!(loop_start(1, 3, 10_000, 50, None), LoopStart::Step(2)));
}

#[test]
fn base64_groups() {
    assert_eq!(to_data_url("a/b", b"Man"), "data:a/b;base64,TWFu");
    assert_eq!(to_data_url("a/b", b"Ma"), "data:a/b;base64,TWE=");
    assert_eq!(to_data_url("a/b", b""), "data:a/b;base64,");
}

#[test]
fn tool_calls_are_dispatched() {
    assert_eq!(call_arguments(&None), "{}");
    assert_eq!(call_arguments(&Some("{\"a\":1}".to_string())), "{\"a\":1}");
    assert!(matches!(dispatch_tool_call(false, Ok(()), Ok(()), Ok(())), ToolDispatch::NotFound));
    assert!(matches!(dispatch_tool_call(true, Err("eof".to_string()), Ok(()), Ok(())), ToolDispatch::BadJson(ref m) if m == "eof"));
    assert!(matches!(dispatch_tool_call(true, Ok(()), Err("s".to_string()), Err("v".to_string())), ToolDispatch::BadSchema(ref m) if m == "s"));
    assert!(matches!(dispatch_tool_call(true, Ok(()), Ok(()), Err("v".to_string())), ToolDispatch::InvalidArguments(ref m) if m == "v"));
    assert!(matches!(dispatch_tool_call(true, Ok(()), Ok(()), Ok(())), ToolDispatch::Run));
}
