use kagent::skill::{
    get_builtin_skills_dir, iter_fenced_codeblocks, normalize_skill_name, parse_flow_from_skill, parse_skill_text,
    resolve_skills_roots, supports_builtin_skills, SkillType,
};

fn s(x: &str) -> String {
    x.to_string()
}

const FLOW_SKILL: &str = "---\nname: review\ntype: flow\n---\n\
Some text.\n\
```mermaid\n\
flowchart TD\n\
BEGIN --> work\n\
work --> END\n\
```\n";

#[test]
fn fenced_blocks_in_order() {
    let blocks = iter_fenced_codeblocks("text\n```rust\nfn f() {}\n```\n```\nplain\n```\n```open\nnever closed\n");
    let got: Vec<(String, String)> = blocks
        .iter()
        .map(|(l, c)| (l.iter().collect::<String>(), c.iter().collect::<String>()))
        .collect();
    assert_eq!(got, vec![(s("rust"), s("fn f() {}")), (s(""), s("plain"))]);
}

#[test]
fn flow_from_skill_text() {
    let flow = parse_flow_from_skill(FLOW_SKILL).expect("parseable").expect("a flow");
    assert_eq!(flow.begin_id, "BEGIN");
    assert_eq!(flow.end_id, "END");
    let err = parse_flow_from_skill("no blocks here").expect("parseable").unwrap_err();
    assert_eq!(err.to_message(), "Flow skills require a mermaid or d2 code block in SKILL.md.");
    let d2 = parse_flow_from_skill("```d2\nBEGIN -> END\n```\n").expect("parseable").expect("a flow");
    assert_eq!(d2.end_id, "END");
}

#[test]
fn skills_from_text() {
    let skill = parse_skill_text(FLOW_SKILL, "dir-name", "/skills/dir-name").unwrap().unwrap();
    assert_eq!(skill.name, "review");
    assert_eq!(skill.description, "No description provided.");
    assert_eq!(skill.skill_type, SkillType::Flow);
    assert!(skill.flow.is_some());
    assert_eq!(skill.dir, "/skills/dir-name");

    let plain = parse_skill_text("body", "tool", "/skills/tool").unwrap().unwrap();
    assert_eq!(plain.name, "tool");
    assert_eq!(plain.description, "No description provided.");
    assert_eq!(plain.skill_type, SkillType::Standard);
    assert!(plain.flow.is_none());

    let fallback = parse_skill_text("---
description: d
type: flow
---
no flow", "x", "/x").unwrap().unwrap();
    assert_eq!(fallback.name, "x");
    assert_eq!(fallback.skill_type, SkillType::Standard);
    assert_eq!(fallback.description, "d");

    let numeric = parse_skill_text("---
name: 42
description: [a]
---
", "dir", "/dir").unwrap().unwrap();
    assert_eq!(numeric.name, "dir");
    assert_eq!(numeric.description, "No description provided.");

    match parse_skill_text("---
name: [unclosed
---
", "x", "/x") {
        Some(Err(m)) => assert_eq!(m, "Invalid frontmatter YAML."),
        _ => panic!("expected the front matter error"),
    }
    match parse_skill_text("---
- a
- b
---
", "x", "/x") {
        Some(Err(m)) => assert_eq!(m, "Frontmatter YAML must be a mapping."),
        _ => panic!("expected the mapping error"),
    }
}

#[test]
fn skill_roots() {
    assert_eq!(
        resolve_skills_roots(Some(s("/b")), None, Some(s("/u")), Some(s("/p"))),
        vec![s("/b"), s("/u"), s("/p")]
    );
    assert_eq!(resolve_skills_roots(None, Some(s("/o")), Some(s("/u")), None), vec![s("/o")]);
    assert!(supports_builtin_skills("local"));
    assert!(supports_builtin_skills("acp"));
    assert!(!supports_builtin_skills("ssh"));
    assert_eq!(get_builtin_skills_dir("/pkg"), "/pkg/src/skills");
    assert_eq!(normalize_skill_name("Code-Review"), "code-review");
    assert_eq!(normalize_skill_name(&normalize_skill_name("Code-Review")), "code-review");
}
