use kagent::config::ModelCapability;
use kagent::message::{ContentPart, Message, Role, ToolResult};
use kagent::skill::{Skill, SkillType};
use kagent::soul::approval::Approval;
use kagent::soul::context::Context;
use kagent::soul::denwarenji::{DMail, DenwaRenji};
use kagent::soul::kimisoul::{
    begin_step, begin_turn, build_slash_commands, checkpoint_with_user_message, finish_turn, grow_context,
    is_retryable_error, needs_compaction, next_step, route_input, LoopAction, LoopEvent, LoopState, settle_step, should_retry, skill_prompt, toggle_yolo,
    unknown_slash_text, user_input_message, ChatProviderErrorKind, FlowMove, FlowRunner, InputRoute,
    NodeDecision, SlashHandler, StepOutcome, StepStopReason, StepVerdict, TurnError, TurnOutcome,
};
use kagent::tools::utils::tool_rejected_error;
use kagent::tools::{tool_ok, ToolOutput};
use kagent::wire::UserInput;

fn text_msg(role: Role, t: &str) -> Message {
    Message { role, content: vec![ContentPart::Text(t.to_string())], tool_call_id: None }
}

fn skill(name: &str, kind: SkillType) -> Skill {
    Skill { name: name.to_string(), description: format!("about {name}"), skill_type: kind, dir: String::new(), flow: None }
}

#[test]
fn slash_commands_list_builtins_then_skills_by_name() {
    let mut skills = vec![skill("review", SkillType::Standard), skill("deploy", SkillType::Flow)];
    let table = build_slash_commands(&mut skills);
    assert_eq!(skills[0].name, "deploy");
    let names: Vec<&str> = table.commands.iter().map(|c| c.name.as_str()).collect();
    assert_eq!(names, vec!["init", "compact", "clear", "yolo", "skill:deploy", "skill:review"]);
    assert_eq!(table.commands[2].aliases, vec!["reset".to_string()]);
    let keys: Vec<&str> = table.handlers.iter().map(|h| h.0.as_str()).collect();
    assert_eq!(keys, vec!["init", "compact", "clear", "reset", "yolo", "skill:deploy", "skill:review"]);
    assert!(matches!(table.handlers[6].1, SlashHandler::Skill(1)));
    assert!(matches!(table.handlers[5].1, SlashHandler::Skill(0)));
}

#[test]
fn steps_are_counted_up_to_the_limit() {
    assert!(matches!(begin_step(0, 3), Ok(1)));
    match begin_step(3, 3) {
        Err(e) => assert_eq!(e.n_steps, 3),
        Ok(_) => panic!("the fourth step exceeds the limit"),
    }
}

#[test]
fn compaction_starts_when_the_window_is_reached() {
    assert!(needs_compaction(90, 10, 100));
    assert!(!needs_compaction(89, 10, 100));
    assert!(needs_compaction(i64::MAX, i64::MAX, 0));
}

#[test]
fn retries_follow_the_error_kind_and_the_attempts_left() {
    assert!(is_retryable_error(ChatProviderErrorKind::Status(429)));
    assert!(is_retryable_error(ChatProviderErrorKind::Status(503)));
    assert!(!is_retryable_error(ChatProviderErrorKind::Status(404)));
    assert!(is_retryable_error(ChatProviderErrorKind::Timeout));
    assert!(!is_retryable_error(ChatProviderErrorKind::Other));
    assert!(should_retry(1, 3, ChatProviderErrorKind::Connection));
    assert!(!should_retry(3, 3, ChatProviderErrorKind::Connection));
    assert!(!should_retry(1, 3, ChatProviderErrorKind::Other));
}

#[test]
fn a_turn_keeps_the_final_message_only_when_no_tool_was_called() {
    let done = finish_turn(StepOutcome { stop_reason: StepStopReason::NoToolCalls, assistant_message: text_msg(Role::Assistant, "bye") }, 2);
    assert_eq!(done.step_count, 2);
    assert!(done.final_message.is_some());
    let rejected = finish_turn(StepOutcome { stop_reason: StepStopReason::ToolRejected, assistant_message: text_msg(Role::Assistant, "x") }, 1);
    assert!(rejected.final_message.is_none());
    assert_eq!(StepStopReason::ToolRejected.as_string(), "tool_rejected");
}

#[test]
fn a_rejected_tool_call_ends_the_step_and_drops_the_dmail() {
    let mut renji = DenwaRenji::new();
    renji.set_n_checkpoints(2);
    assert!(renji.send_dmail(DMail { message: "x".to_string(), checkpoint_id: 1 }).is_ok());
    let results = vec![ToolResult { tool_call_id: "c1".to_string(), return_value: tool_rejected_error() }];
    assert!(matches!(settle_step(&mut renji, &results, 1), StepVerdict::Stop(StepStopReason::ToolRejected)));
    assert!(renji.fetch_pending_dmail().is_none());
}

#[test]
fn a_pending_dmail_sends_the_context_back() {
    let mut renji = DenwaRenji::new();
    renji.set_n_checkpoints(3);
    assert!(renji.send_dmail(DMail { message: "  fix the bug  ".to_string(), checkpoint_id: 2 }).is_ok());
    let results = vec![ToolResult { tool_call_id: "c1".to_string(), return_value: tool_ok("out", "", "") }];
    match settle_step(&mut renji, &results, 1) {
        StepVerdict::BackToTheFuture { checkpoint_id, message } => {
            assert_eq!(checkpoint_id, 2);
            match &message.content[0] {
                ContentPart::Text(t) => {
                    assert!(t.starts_with("<system>You just got a D-Mail from your future self."));
                    assert!(t.ends_with("D-Mail content:\n\nfix the bug</system>"));
                }
                _ => panic!("expected text"),
            }
        }
        _ => panic!("expected to go back"),
    }
    let results: Vec<ToolResult> = Vec::new();
    assert!(matches!(settle_step(&mut renji, &results, 2), StepVerdict::Continue));
    assert!(matches!(settle_step(&mut renji, &results, 0), StepVerdict::Stop(StepStopReason::NoToolCalls)));
}

#[test]
fn growing_the_context_adds_the_reply_the_usage_and_the_tool_messages() {
    let mut ctx = Context::new("ctx.jsonl".to_string());
    let caps = vec![ModelCapability::ImageIn];
    let results = vec![ToolResult { tool_call_id: "c1".to_string(), return_value: tool_ok("listing", "", "") }];
    let recs = match grow_context(&mut ctx, &caps, "m", text_msg(Role::Assistant, "calling"), Some(42), &results) {
        Ok(r) => r,
        Err(_) => panic!("text needs no capability"),
    };
    assert_eq!(recs.len(), 3);
    assert_eq!(ctx.token_count(), 42);
    assert_eq!(ctx.history().len(), 2);
    assert!(matches!(ctx.history()[1].role, Role::Tool));
    assert_eq!(ctx.history()[1].tool_call_id.as_deref(), Some("c1"));
}

#[test]
fn a_video_result_needs_video_input() {
    let mut ctx = Context::new("ctx.jsonl".to_string());
    let caps = vec![ModelCapability::ImageIn];
    let mut rv = tool_ok("", "", "");
    rv.output = ToolOutput::Parts(vec![ContentPart::VideoUrl { url: "data:video/mp4;base64,AA".to_string(), id: None }]);
    let results = vec![ToolResult { tool_call_id: "c1".to_string(), return_value: rv }];
    match grow_context(&mut ctx, &caps, "kimi", text_msg(Role::Assistant, "x"), None, &results) {
        Err(e) => {
            assert_eq!(e.model_name, "kimi");
            assert_eq!(e.capabilities.len(), 1);
            assert!(matches!(e.capabilities[0], ModelCapability::VideoIn));
        }
        Ok(_) => panic!("expected the model to lack video input"),
    }
    assert_eq!(ctx.history().len(), 0);
}

#[test]
fn a_turn_needs_a_model_that_takes_its_input() {
    let mut ctx = Context::new("ctx.jsonl".to_string());
    assert!(matches!(begin_turn(&mut ctx, None, "m", false, text_msg(Role::User, "hi")), Err(TurnError::LLMNotSet(_))));
    let caps: Vec<ModelCapability> = Vec::new();
    let image = Message { role: Role::User, content: vec![ContentPart::ImageUrl { url: "u".to_string(), id: None }], tool_call_id: None };
    match begin_turn(&mut ctx, Some(&caps), "m", false, image) {
        Err(TurnError::LLMNotSupported(e)) => assert!(matches!(e.capabilities[0], ModelCapability::ImageIn)),
        _ => panic!("expected the image to be refused"),
    }
    assert!(begin_turn(&mut ctx, Some(&caps), "m", true, text_msg(Role::User, "hi")).is_ok());
    assert_eq!(ctx.n_checkpoints(), 1);
    assert_eq!(ctx.history().len(), 2);
    match &ctx.history()[0].content[0] {
        ContentPart::Text(t) => assert_eq!(t, "<system>CHECKPOINT 0</system>"),
        _ => panic!("expected the checkpoint note"),
    }
}

#[test]
fn input_is_routed_to_slash_commands_the_loop_or_a_turn() {
    let m = user_input_message(&UserInput::Text("  /compact now ".to_string()));
    match route_input(&m, 0) {
        InputRoute::Slash(call) => {
            assert_eq!(call.name, "compact");
            assert_eq!(call.args, "now");
        }
        _ => panic!("expected a slash command"),
    }
    let m = user_input_message(&UserInput::Text("hello".to_string()));
    assert!(matches!(route_input(&m, 0), InputRoute::Turn));
    assert!(matches!(route_input(&m, -1), InputRoute::Ralph));
}

#[test]
fn slash_notes() {
    assert_eq!(unknown_slash_text("nope"), "Unknown slash command \"/nope\".");
    assert_eq!(skill_prompt("Do it.", "  please  "), "Do it.\n\nUser request:\nplease");
    assert_eq!(skill_prompt("Do it.", "   "), "Do it.");
    let mut approval = Approval::new(false);
    assert_eq!(toggle_yolo(&mut approval), "You only live once! All actions will be auto-approved.");
    assert!(approval.is_yolo());
    assert_eq!(toggle_yolo(&mut approval), "You only die once! Actions will require approval.");
    assert!(!approval.is_yolo());
    assert!(checkpoint_with_user_message(&vec!["Shell".to_string(), "SendDMail".to_string()]));
    assert!(!checkpoint_with_user_message(&vec!["Shell".to_string()]));
}

#[test]
fn the_ralph_loop_repeats_until_stop() {
    let m = text_msg(Role::User, "  Fix the tests ");
    let runner = FlowRunner::ralph_loop(&m, 2);
    assert_eq!(runner.max_moves, 3);
    assert_eq!(FlowRunner::ralph_loop(&m, -1).max_moves, 1_000_000_000_000_000);
    let mut progress = runner.start();
    assert!(matches!(runner.advance(&mut progress), FlowMove::Passed));
    assert_eq!(progress.current_id, "R1");
    assert!(matches!(runner.advance(&mut progress), FlowMove::Run));
    let edges = runner.edges("R1");
    let outcome = TurnOutcome { stop_reason: StepStopReason::NoToolCalls, final_message: None, step_count: 1 };
    let next = match FlowRunner::decide_after_turn(runner.flow.nodes[2].kind, &edges, &outcome) {
        NodeDecision::Next(n) => n,
        _ => panic!("a task moves on"),
    };
    assert!(runner.node_done(&mut progress, Some(next), 1));
    assert_eq!(progress.current_id, "R2");
    let edges = runner.edges("R2");
    let prompt = FlowRunner::build_flow_prompt(&runner.flow.nodes[3], &edges);
    assert!(prompt.text.starts_with("Fix the tests. (You are running in an automated loop"));
    assert!(prompt.text.ends_with("\n\nAvailable branches:\n- CONTINUE\n- STOP\n\nReply with a choice using <choice>...</choice>."));
    let stop = TurnOutcome {
        stop_reason: StepStopReason::NoToolCalls,
        final_message: Some(text_msg(Role::Assistant, "Done. <choice>STOP</choice>")),
        step_count: 2,
    };
    match FlowRunner::decide_after_turn(runner.flow.nodes[3].kind, &edges, &stop) {
        NodeDecision::Next(n) => assert_eq!(n, "END"),
        _ => panic!("STOP leads to END"),
    }
    let vague = TurnOutcome { stop_reason: StepStopReason::NoToolCalls, final_message: Some(text_msg(Role::Assistant, "maybe")), step_count: 1 };
    assert!(matches!(FlowRunner::decide_after_turn(runner.flow.nodes[3].kind, &edges, &vague), NodeDecision::Retry));
    assert_eq!(
        FlowRunner::retry_prompt("Pick."),
        "Pick.\n\nYour last response did not include a valid choice. Reply with one of the choices using <choice>...</choice>."
    );
    let rejected = TurnOutcome { stop_reason: StepStopReason::ToolRejected, final_message: None, step_count: 1 };
    assert!(matches!(FlowRunner::decide_after_turn(runner.flow.nodes[3].kind, &edges, &rejected), NodeDecision::Stop));
    assert!(FlowRunner::ignores_args(" x "));
    assert!(!FlowRunner::ignores_args("  "));
}

#[test]
fn the_agent_loop_runs_steps_until_the_model_stops_calling_tools() {
    let start = LoopState::new(2, 50, Some(100));
    let (s1, a1) = next_step(&start, LoopEvent::Top { token_count: 10 });
    assert!(matches!(a1, LoopAction::Step(1)));
    assert_eq!(s1.step_no, 1);
    let (s1, a) = next_step(&s1, LoopEvent::Settled(StepVerdict::Continue));
    assert!(matches!(a, LoopAction::Next));
    let (s2, a2) = next_step(&s1, LoopEvent::Top { token_count: 60 });
    assert!(matches!(a2, LoopAction::CompactThenStep(2)));
    let (s2, done) = next_step(&s2, LoopEvent::Settled(StepVerdict::Stop(StepStopReason::NoToolCalls)));
    assert!(matches!(done, LoopAction::Finish { stop_reason: StepStopReason::NoToolCalls, step_count: 2 }));
    let (_, out) = next_step(&s2, LoopEvent::Top { token_count: 0 });
    assert!(matches!(out, LoopAction::OutOfSteps(2)));
}

#[test]
fn the_agent_loop_travels_back_and_fails_on_errors() {
    let s = LoopState::new(5, 0, None);
    let (s, a) = next_step(&s, LoopEvent::Top { token_count: 1_000_000 });
    assert!(matches!(a, LoopAction::Step(1)));
    let verdict = StepVerdict::BackToTheFuture { checkpoint_id: 0, message: text_msg(Role::User, "note") };
    let (s, back) = next_step(&s, LoopEvent::Settled(verdict));
    match back {
        LoopAction::TravelBack { checkpoint_id, message } => {
            assert_eq!(checkpoint_id, 0);
            assert_eq!(message.role, Role::User);
        }
        _ => panic!("expected a trip back"),
    }
    let (s, stop) = next_step(&s, LoopEvent::Settled(StepVerdict::Stop(StepStopReason::ToolRejected)));
    assert!(matches!(stop, LoopAction::Finish { stop_reason: StepStopReason::ToolRejected, step_count: 1 }));
    let (_, abort) = next_step(&s, LoopEvent::StepFailed);
    assert!(matches!(abort, LoopAction::Abort));
}
