use kagent::message::{ContentPart, Message, Role};
use kagent::soul::compaction::{compacted_messages, SimpleCompaction};

const COMPACT: &str = "Summarize the conversation above.";

fn msg(role: Role, parts: Vec<ContentPart>) -> Message {
    Message { role, content: parts, tool_call_id: None }
}

fn text(t: &str) -> ContentPart {
    ContentPart::Text(t.to_string())
}

fn role_label(role: &Role) -> &'static str {
    match role {
        Role::System => "system",
        Role::User => "user",
        Role::Assistant => "assistant",
        Role::Tool => "tool",
    }
}

fn show(ms: &[Message]) -> String {
    format!("{:?}", ms)
}

#[test]
fn test_prepare_returns_original_when_not_enough_messages() {
    let messages = vec![msg(Role::User, vec![text("Only one message")])];

    let result = SimpleCompaction::new(2).prepare(&messages, COMPACT);

    assert!(result.compact_message.is_none());
    assert_eq!(show(&result.to_preserve), show(&messages));
}

#[test]
fn test_prepare_skips_compaction_with_only_preserved_messages() {
    let messages = vec![
        msg(Role::User, vec![text("Latest question")]),
        msg(Role::Assistant, vec![text("Latest reply")]),
    ];

    let result = SimpleCompaction::new(2).prepare(&messages, COMPACT);

    assert!(result.compact_message.is_none());
    assert_eq!(show(&result.to_preserve), show(&messages));
}

#[test]
fn test_prepare_builds_compact_message_and_preserves_tail() {
    let messages = vec![
        msg(Role::System, vec![text("System note")]),
        msg(
            Role::User,
            vec![text("Old question"), ContentPart::Think("Hidden thoughts".to_string())],
        ),
        msg(Role::Assistant, vec![text("Old answer")]),
        msg(Role::User, vec![text("Latest question")]),
        msg(Role::Assistant, vec![text("Latest answer")]),
    ];

    let result = SimpleCompaction::new(2).prepare(&messages, COMPACT);

    let mut compact_message = msg(Role::User, Vec::new());
    let to_compact = &messages[..3];
    for (idx, m) in to_compact.iter().enumerate() {
        compact_message.content.push(ContentPart::Text(format!(
            "## Message {}\nRole: {}\nContent:\n",
            idx + 1,
            role_label(&m.role)
        )));
        compact_message.content.extend(
            m.content.iter().filter(|part| !matches!(part, ContentPart::Think(_))).cloned(),
        );
    }
    compact_message.content.push(ContentPart::Text(format!("\n{}", COMPACT)));

    assert_eq!(
        format!("{:?}", result.compact_message),
        format!("{:?}", Some(compact_message))
    );
    assert_eq!(show(&result.to_preserve), show(&messages[3..]));
}

#[test]
fn prepare_with_nothing_to_keep_returns_everything() {
    let messages = vec![msg(Role::User, vec![text("a")]), msg(Role::Assistant, vec![text("b")])];
    let result = SimpleCompaction::new(0).prepare(&messages, COMPACT);
    assert!(result.compact_message.is_none());
    assert_eq!(result.to_preserve.len(), 2);
    let empty: Vec<Message> = Vec::new();
    let result = SimpleCompaction::new(2).prepare(&empty, COMPACT);
    assert!(result.compact_message.is_none());
    assert!(result.to_preserve.is_empty());
}

#[test]
fn prepare_keeps_tool_messages_after_the_last_conversation_messages() {
    let messages = vec![
        msg(Role::User, vec![text("q1")]),
        msg(Role::Assistant, vec![text("a1")]),
        msg(Role::User, vec![text("q2")]),
        msg(Role::Tool, vec![text("tool output")]),
        msg(Role::Assistant, vec![text("a2")]),
    ];
    let result = SimpleCompaction::new(2).prepare(&messages, COMPACT);
    let compact = result.compact_message.expect("something to sum up");
    assert_eq!(result.to_preserve.len(), 3);
    assert_eq!(show(&result.to_preserve), show(&messages[2..]));
    assert_eq!(compact.content.len(), 2 + 2 + 1);
}

#[test]
fn compacted_messages_open_with_the_summary_without_thinking() {
    let summary = msg(
        Role::Assistant,
        vec![ContentPart::Think("plan".to_string()), text("The user asked about X.")],
    );
    let kept = vec![msg(Role::User, vec![text("Latest question")])];
    let out = compacted_messages(&summary, kept);
    assert_eq!(out.len(), 2);
    assert!(matches!(out[0].role, Role::User));
    assert_eq!(out[0].content.len(), 2);
    match &out[0].content[0] {
        ContentPart::Text(t) => assert_eq!(
            t,
            "<system>Previous context has been compacted. Here is the compaction output:</system>"
        ),
        _ => panic!("expected a text part"),
    }
    match &out[0].content[1] {
        ContentPart::Text(t) => assert_eq!(t, "The user asked about X."),
        _ => panic!("expected a text part"),
    }
    assert_eq!(format!("{:?}", out[1].content), format!("{:?}", vec![text("Latest question")]));
}
