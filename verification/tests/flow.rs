use kagent::flow::d2::{iter_top_level_statements, parse_d2_flowchart};
use kagent::flow::mermaid::parse_mermaid_flowchart;
use kagent::flow::{kind_of_label, line_error, parse_choice, Flow, FlowLabel, FlowNodeKind};

fn kind_of(flow: &Flow, id: &str) -> FlowNodeKind {
    flow.nodes.iter().find(|n| n.id == id).expect("node present").kind
}

fn label_of(flow: &Flow, id: &str) -> String {
    match &flow.nodes.iter().find(|n| n.id == id).expect("node present").label {
        FlowLabel::Text(t) => t.clone(),
        FlowLabel::Parts(_) => panic!("text label expected"),
    }
}

fn edges_of(flow: &Flow, id: &str) -> Vec<(String, Option<String>)> {
    flow.outgoing
        .iter()
        .find(|(k, _)| k == id)
        .map(|(_, es)| es.iter().map(|e| (e.dst.clone(), e.label.clone())).collect())
        .unwrap_or_default()
}

#[test]
fn choice_takes_last_tag_trimmed() {
    assert_eq!(parse_choice("a <choice> yes </choice> b <choice>no</choice>"), Some("no".to_string()));
    assert_eq!(parse_choice("nothing here"), None);
    assert_eq!(parse_choice("<choice>unclosed"), None);
}

#[test]
fn label_kinds() {
    assert_eq!(kind_of_label(" BEGIN "), FlowNodeKind::Begin);
    assert_eq!(kind_of_label("End"), FlowNodeKind::End);
    assert_eq!(kind_of_label("Ending"), FlowNodeKind::Task);
}

#[test]
fn line_error_format() {
    assert_eq!(line_error(3, "Expected node id"), "Line 3: Expected node id");
}

#[test]
fn mermaid_basic_flow() {
    let text = "flowchart TD\n\
                A([BEGIN]) --> B[Check the code]\n\
                B --> C{Is it OK?}\n\
                C -->|yes| D([END])\n\
                C -->|no| B\n";
    let flow = parse_mermaid_flowchart(text).expect("valid flow");
    assert_eq!(flow.begin_id, "A");
    assert_eq!(flow.end_id, "D");
    assert_eq!(kind_of(&flow, "A"), FlowNodeKind::Begin);
    assert_eq!(kind_of(&flow, "B"), FlowNodeKind::Task);
    assert_eq!(kind_of(&flow, "C"), FlowNodeKind::Decision);
    assert_eq!(kind_of(&flow, "D"), FlowNodeKind::End);
    assert_eq!(label_of(&flow, "B"), "Check the code");
    assert_eq!(label_of(&flow, "C"), "Is it OK?");
    assert_eq!(
        edges_of(&flow, "C"),
        vec![("D".to_string(), Some("yes".to_string())), ("B".to_string(), Some("no".to_string()))]
    );
    assert_eq!(edges_of(&flow, "D"), vec![]);
}

#[test]
fn mermaid_ids_default_to_labels() {
    let flow = parse_mermaid_flowchart("graph LR\nBEGIN --> work\nwork --> END\n").expect("valid flow");
    assert_eq!(flow.begin_id, "BEGIN");
    assert_eq!(flow.end_id, "END");
    assert_eq!(label_of(&flow, "work"), "work");
}

#[test]
fn mermaid_requires_one_begin() {
    let err = parse_mermaid_flowchart("flowchart TD\nA --> B\n").unwrap_err();
    assert_eq!(err.to_message(), "Expected exactly one BEGIN node, found 0");
}

#[test]
fn mermaid_requires_reachable_end() {
    let err = parse_mermaid_flowchart("flowchart LR\nBEGIN --> A\nB --> END\n").unwrap_err();
    assert_eq!(err.to_message(), "END node is not reachable from BEGIN");
}

#[test]
fn mermaid_branches_need_labels() {
    let err = parse_mermaid_flowchart("flowchart LR\nBEGIN --> A\nBEGIN --> END\nA --> END\n").unwrap_err();
    assert_eq!(err.to_message(), "Node \"BEGIN\" has an unlabeled edge");
    let err = parse_mermaid_flowchart("flowchart LR\nBEGIN -->|x| A\nBEGIN -->|x| END\nA --> END\n").unwrap_err();
    assert_eq!(err.to_message(), "Node \"BEGIN\" has duplicate edge labels");
}

#[test]
fn mermaid_conflicting_node() {
    let err = parse_mermaid_flowchart("flowchart LR\nA[foo] --> B\nA[bar] --> B\n").unwrap_err();
    assert_eq!(err.to_message(), "Line 3: Conflicting definition for node \"A\"");
}

#[test]
fn mermaid_comments_and_styles_are_skipped() {
    let text = "flowchart TD\n%% a comment\nBEGIN --> A:::hot\nclassDef hot fill:#f00\nA --> END %% trailing\n";
    let flow = parse_mermaid_flowchart(text).expect("valid flow");
    assert_eq!(edges_of(&flow, "BEGIN"), vec![("A".to_string(), None)]);
    assert_eq!(edges_of(&flow, "A"), vec![("END".to_string(), None)]);
}

#[test]
fn d2_basic_flow() {
    let text = "BEGIN -> check\n\
                check: Check the code\n\
                check -> END: done\n\
                check -> fix: broken\n\
                fix -> check\n";
    let flow = parse_d2_flowchart(text).expect("valid flow");
    assert_eq!(flow.begin_id, "BEGIN");
    assert_eq!(flow.end_id, "END");
    assert_eq!(label_of(&flow, "check"), "Check the code");
    assert_eq!(kind_of(&flow, "check"), FlowNodeKind::Decision);
    assert_eq!(kind_of(&flow, "fix"), FlowNodeKind::Task);
    assert_eq!(
        edges_of(&flow, "check"),
        vec![("END".to_string(), Some("done".to_string())), ("fix".to_string(), Some("broken".to_string()))]
    );
}

#[test]
fn d2_chain_and_blocks() {
    let text = "direction: right\nBEGIN -> a -> END\na: {\n  shape: rectangle\n}\n";
    let flow = parse_d2_flowchart(text).expect("valid flow");
    assert_eq!(edges_of(&flow, "BEGIN"), vec![("a".to_string(), None)]);
    assert_eq!(edges_of(&flow, "a"), vec![("END".to_string(), None)]);
}

#[test]
fn d2_unmatched_brace() {
    let err = parse_d2_flowchart("BEGIN -> END\n}\n").unwrap_err();
    assert_eq!(err.to_message(), "Line 2: Unmatched '}'");
}

#[test]
fn d2_unclosed_block() {
    let err = parse_d2_flowchart("BEGIN -> END\na: {\n").unwrap_err();
    assert_eq!(err.to_message(), "Line 3: Unclosed '{' block");
}

#[test]
fn d2_statements_come_in_source_order() {
    let text: Vec<char> = "  a -> b  \n# note\nc: {\n  inner -> x\n} rest\n\"multi\nline\" -> d\n".chars().collect();
    let stmts = iter_top_level_statements(&text).unwrap();
    let got: Vec<(u128, String)> = stmts.iter().map(|(l, t)| (*l, t.iter().collect::<String>())).collect();
    assert_eq!(
        got,
        vec![
            (1, "a -> b".to_string()),
            (3, "c:".to_string()),
            (5, "rest".to_string()),
            (6, "\"multi\nline\" -> d".to_string()),
        ]
    );
    for w in got.windows(2) {
        assert!(w[0].0 <= w[1].0);
    }
}
