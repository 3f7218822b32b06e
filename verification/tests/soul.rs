use kagent::message::{ContentPart, Message, Role};
use kagent::soul::approval::{Approval, ApprovalError};
use kagent::soul::context::{Context, ContextRecord};
use kagent::soul::denwarenji::{DMail, DenwaRenji, DenwaRenjiError};
use kagent::wire::ApprovalResponseKind;

fn user(text: &str) -> Message {
    Message { role: Role::User, content: vec![ContentPart::Text(text.to_string())], tool_call_id: None }
}

fn text_of(m: &Message) -> String {
    match &m.content[0] {
        ContentPart::Text(t) => t.clone(),
        _ => panic!("text part expected"),
    }
}

#[test]
fn dmail_is_delivered_once() {
    let mut d = DenwaRenji::new();
    d.set_n_checkpoints(3);
    assert!(d.send_dmail(DMail { message: "hello".to_string(), checkpoint_id: 1 }).is_ok());
    let got = d.fetch_pending_dmail().expect("pending");
    assert_eq!(got.message, "hello");
    assert_eq!(got.checkpoint_id, 1);
    assert!(d.fetch_pending_dmail().is_none());
}

#[test]
fn dmail_errors() {
    let mut d = DenwaRenji::new();
    d.set_n_checkpoints(2);
    assert_eq!(
        d.send_dmail(DMail { message: "x".to_string(), checkpoint_id: -1 }).unwrap_err(),
        DenwaRenjiError::NegativeCheckpoint
    );
    assert_eq!(
        d.send_dmail(DMail { message: "x".to_string(), checkpoint_id: 2 }).unwrap_err(),
        DenwaRenjiError::InvalidCheckpoint
    );
    assert!(d.send_dmail(DMail { message: "a".to_string(), checkpoint_id: 0 }).is_ok());
    let err = d.send_dmail(DMail { message: "b".to_string(), checkpoint_id: 1 }).unwrap_err();
    assert_eq!(err, DenwaRenjiError::AlreadyPending);
    assert_eq!(err.to_message(), "only one D-Mail can be sent at a time");
    // The first one stays pending.
    assert_eq!(d.fetch_pending_dmail().unwrap().message, "a");
}

#[test]
fn approval_outside_tool_call_is_refused() {
    let mut a = Approval::new(false);
    match a.begin_request(false, "run shell") {
        Err(e) => assert_eq!(e.to_message(), "approval must be requested from a tool call"),
        Ok(_) => panic!("expected an error"),
    }
}

#[test]
fn yolo_approves_everything() {
    let mut a = Approval::new(true);
    assert!(a.is_yolo());
    assert!(a.is_auto_approved("anything"));
    assert_eq!(a.begin_request(true, "anything").ok(), Some(None));
}

#[test]
fn session_approval_sticks() {
    let mut a = Approval::new(false);
    let id = a.begin_request(true, "edit file").unwrap().expect("a request id");
    assert_eq!(id.len(), 36);
    let action = a.resolve_request(&id, ApprovalResponseKind::ApproveForSession).unwrap();
    assert_eq!(action, "edit file");
    assert!(a.is_auto_approved("edit file"));
    assert!(!a.is_auto_approved("run shell"));
    assert_eq!(a.begin_request(true, "edit file").ok(), Some(None));
}

#[test]
fn request_is_answered_once() {
    let mut a = Approval::new(false);
    let id = a.begin_request(true, "run shell").unwrap().unwrap();
    assert_eq!(a.resolve_request(&id, ApprovalResponseKind::Reject).unwrap(), "run shell");
    assert!(!a.is_auto_approved("run shell"));
    match a.resolve_request(&id, ApprovalResponseKind::Approve) {
        Err(ApprovalError::RequestNotFound(missing)) => assert_eq!(missing, id),
        _ => panic!("expected RequestNotFound"),
    }
}

#[test]
fn finished_request_answers_the_tool() {
    let mut a = Approval::new(false);
    let id = a.begin_request(true, "write file").unwrap().unwrap();
    assert_eq!(a.finish_request(&id, ApprovalResponseKind::Reject).ok(), Some(false));
    let id = a.begin_request(true, "write file").unwrap().unwrap();
    assert_eq!(a.finish_request(&id, ApprovalResponseKind::Approve).ok(), Some(true));
    assert!(!a.is_auto_approved("write file"));
    let id = a.begin_request(true, "write file").unwrap().unwrap();
    assert_eq!(a.finish_request(&id, ApprovalResponseKind::ApproveForSession).ok(), Some(true));
    assert_eq!(a.begin_request(true, "write file").ok(), Some(None));
    match a.finish_request("no-such-id", ApprovalResponseKind::Approve) {
        Err(ApprovalError::RequestNotFound(missing)) => assert_eq!(missing, "no-such-id"),
        _ => panic!("expected RequestNotFound"),
    }
}

#[test]
fn settle_reports_approval() {
    let mut a = Approval::new(false);
    assert!(a.settle("x", ApprovalResponseKind::Approve));
    assert!(!a.is_auto_approved("x"));
    assert!(!a.settle("x", ApprovalResponseKind::Reject));
    assert!(a.settle("x", ApprovalResponseKind::ApproveForSession));
    assert!(a.is_auto_approved("x"));
}

#[test]
fn checkpoint_adds_marker_message() {
    let mut ctx = Context::new("ctx.jsonl".to_string());
    let recs = ctx.checkpoint(true);
    assert_eq!(recs.len(), 2);
    assert!(matches!(recs[0], ContextRecord::Checkpoint(0)));
    assert_eq!(ctx.n_checkpoints(), 1);
    assert_eq!(ctx.history().len(), 1);
    assert_eq!(text_of(&ctx.history()[0]), "<system>CHECKPOINT 0</system>");
    let recs = ctx.checkpoint(false);
    assert_eq!(recs.len(), 1);
    assert_eq!(ctx.n_checkpoints(), 2);
    assert_eq!(ctx.history().len(), 1);
}

#[test]
fn restore_reproduces_the_records() {
    let mut ctx = Context::new("ctx.jsonl".to_string());
    let mut records = Vec::new();
    records.extend(ctx.checkpoint(false));
    records.extend(ctx.append_messages(vec![user("hi"), user("there")]));
    records.push(ctx.update_token_count(42));
    let mut again = Context::new("ctx.jsonl".to_string());
    assert_eq!(again.restore(records).unwrap(), true);
    assert_eq!(again.n_checkpoints(), ctx.n_checkpoints());
    assert_eq!(again.token_count(), 42);
    assert_eq!(again.history().len(), 2);
    assert_eq!(text_of(&again.history()[1]), "there");
}

#[test]
fn restore_refuses_a_filled_context() {
    let mut ctx = Context::new("f".to_string());
    ctx.append_messages(vec![user("x")]);
    assert_eq!(ctx.restore(Vec::new()).unwrap_err(), "The context storage is already modified");
}

#[test]
fn revert_keeps_what_came_before() {
    let mut ctx = Context::new("ctx.jsonl".to_string());
    let mut records = Vec::new();
    records.extend(ctx.checkpoint(false));
    records.extend(ctx.append_messages(vec![user("one")]));
    records.extend(ctx.checkpoint(false));
    records.extend(ctx.append_messages(vec![user("two")]));
    let kept = ctx.revert_to(1, &records).unwrap();
    assert_eq!(kept, 2);
    assert_eq!(ctx.n_checkpoints(), 1);
    assert_eq!(ctx.history().len(), 1);
    assert_eq!(text_of(&ctx.history()[0]), "one");
    assert_eq!(ctx.revert_to(5, &records).unwrap_err(), "Checkpoint 5 does not exist");
}
