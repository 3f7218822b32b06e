use kagent::message::ContentPart;
use kagent::tools::DisplayBlock;
use kagent::utils::diff::{build_diff_blocks, format_unified_diff};
use kagent::utils::environment::{choose_shell, os_kind};
use kagent::utils::frontmatter::{frontmatter_block, parse_frontmatter, yaml_string};
use kagent::utils::media_tags::{escape_attr, format_tag, wrap_media_part};
use kagent::utils::path::{first_rotation_number, format_mode, listing_line, parse_rotation_suffix, rotation_name};
use kagent::utils::slashcmd::{parse_slash_command_call, SlashCommandRegistry};
use kagent::utils::string::{random_string, shorten_middle};

#[test]
fn slash_calls_are_parsed() {
    let call = parse_slash_command_call("  /compact now please ").expect("a call");
    assert_eq!(call.name, "compact");
    assert_eq!(call.args, "now please");
    assert_eq!(call.raw_input, "/compact now please");
    let call = parse_slash_command_call("/skill:review").expect("a call");
    assert_eq!(call.name, "skill:review");
    assert_eq!(call.args, "");
    assert!(parse_slash_command_call("hello").is_none());
    assert!(parse_slash_command_call("/").is_none());
    assert!(parse_slash_command_call("/foo!bar").is_none());
}

#[test]
fn registry_finds_names_and_aliases() {
    let mut reg: SlashCommandRegistry<u32> = SlashCommandRegistry::new();
    reg.register("help".to_string(), "Show help".to_string(), 1, vec!["h".to_string(), "?".to_string()]);
    reg.register("clear".to_string(), "Clear".to_string(), 2, vec![]);
    assert_eq!(reg.find_command("help").unwrap().func, 1);
    assert_eq!(reg.find_command("h").unwrap().func, 1);
    assert_eq!(reg.find_command("clear").unwrap().func, 2);
    assert!(reg.find_command("nope").is_none());
    assert_eq!(reg.find_command("?").unwrap().slash_name(), "/help (h, ?)");
    assert_eq!(reg.find_command("clear").unwrap().slash_name(), "/clear");
    let mut names: Vec<String> = reg.list_commands().iter().map(|c| c.name.clone()).collect();
    names.sort();
    assert_eq!(names, vec!["clear".to_string(), "help".to_string()]);
}

#[test]
fn shorten_middle_keeps_both_ends() {
    assert_eq!(shorten_middle("short", 10, true), "short");
    assert_eq!(shorten_middle("abcdefghijkl", 6, true), "abc...jkl");
    assert_eq!(shorten_middle("ab\ncdefghij\nkl", 6, true), "ab ... kl");
}

#[test]
fn random_strings_are_lowercase() {
    let s = random_string(12);
    assert_eq!(s.len(), 12);
    assert!(s.chars().all(|c| c.is_ascii_lowercase()));
    assert_eq!(random_string(0), "");
}

#[test]
fn diff_blocks_group_changes() {
    let blocks = build_diff_blocks("f.txt", "a\nb\nc", "a\nB\nc");
    assert_eq!(blocks.len(), 1);
    match &blocks[0] {
        DisplayBlock::Diff { path, old_text, new_text } => {
            assert_eq!(path, "f.txt");
            assert_eq!(old_text, "a\nb\nc");
            assert_eq!(new_text, "a\nB\nc");
        },
        _ => panic!("diff block expected"),
    }
    assert!(build_diff_blocks("f.txt", "same", "same").is_empty());
}

#[test]
fn unified_diff_headers() {
    let with = format_unified_diff("a\nb\n", "a\nc\n", Some("x.rs"), true);
    assert!(with.starts_with("--- a/x.rs\n+++ b/x.rs\n"));
    assert!(with.contains("-b"));
    assert!(with.contains("+c"));
    let without = format_unified_diff("a\nb\n", "a\nc\n", None, false);
    assert!(without.starts_with("@@"));
    let nameless = format_unified_diff("a\n", "b\n", None, true);
    assert!(nameless.starts_with("--- a/file\n+++ b/file\n"));
}

#[test]
fn frontmatter_is_found() {
    assert_eq!(frontmatter_block("---\nname: x\n---\nbody"), Some("name: x".to_string()));
    assert_eq!(frontmatter_block("no front matter"), None);
    assert_eq!(frontmatter_block("---\nname: x\n"), None);
    assert_eq!(frontmatter_block("---\n\n---\n"), None);
}

#[test]
fn frontmatter_is_read_as_yaml() {
    let entries = parse_frontmatter("---\nname: x\ntype: flow\ncount: 3\n1: one\n---\nbody").unwrap().unwrap();
    let keys: Vec<&str> = entries.iter().map(|(k, _)| k.as_str()).collect();
    assert_eq!(keys, vec!["name", "type", "count"]);
    assert_eq!(yaml_string(&entries, "name"), Some("x".to_string()));
    assert_eq!(yaml_string(&entries, "type"), Some("flow".to_string()));
    assert_eq!(yaml_string(&entries, "count"), None);
    assert_eq!(yaml_string(&entries, "missing"), None);
    assert_eq!(parse_frontmatter("plain text"), Ok(None));
    assert_eq!(parse_frontmatter("---\nname: [x\n---\n"), Err("Invalid frontmatter YAML.".to_string()));
    assert_eq!(parse_frontmatter("---\njust a string\n---\n"), Err("Frontmatter YAML must be a mapping.".to_string()));
}

#[test]
fn tags_escape_and_sort() {
    assert_eq!(escape_attr("a<b>&\"'"), "a&lt;b&gt;&amp;&quot;&#x27;");
    let attrs = vec![
        ("path".to_string(), Some("/x".to_string())),
        ("empty".to_string(), Some(String::new())),
        ("none".to_string(), None),
        ("mime".to_string(), Some("image/png".to_string())),
    ];
    let (tag, _) = format_tag("image", &attrs);
    assert_eq!(tag, "<image mime=\"image/png\" path=\"/x\">");
    let (tag, _) = format_tag("video", &vec![]);
    assert_eq!(tag, "<video>");
}

#[test]
fn media_part_is_wrapped() {
    let part = ContentPart::ImageUrl { url: "data:x".to_string(), id: None };
    let (parts, _) = wrap_media_part(part, "image", &vec![("path".to_string(), Some("a.png".to_string()))]);
    assert_eq!(parts.len(), 3);
    assert!(matches!(&parts[0], ContentPart::Text(t) if t == "<image path=\"a.png\">"));
    assert!(matches!(&parts[1], ContentPart::ImageUrl { url, .. } if url == "data:x"));
    assert!(matches!(&parts[2], ContentPart::Text(t) if t == "</image>"));
}

#[test]
fn rotations() {
    assert_eq!(parse_rotation_suffix("log_3.txt", "log", ".txt"), Some(3));
    assert_eq!(parse_rotation_suffix("log.txt", "log", ".txt"), None);
    assert_eq!(parse_rotation_suffix("log_x.txt", "log", ".txt"), None);
    assert_eq!(rotation_name("log", 4, ".txt"), "log_4.txt");
    let names = vec!["log_3.txt".to_string(), "log_10.txt".to_string(), "other.md".to_string()];
    assert_eq!(first_rotation_number(&names, "log", ".txt"), Some(11));
    assert_eq!(first_rotation_number(&vec![], "log", ".txt"), Some(1));
}

#[test]
fn listing_lines() {
    assert_eq!(format_mode(0o040755), "drwxr-xr-x");
    assert_eq!(format_mode(0o100644), "-rw-r--r--");
    assert_eq!(listing_line(Some(0o100600), 42, "a.txt"), "-rw-------         42 a.txt");
    assert_eq!(listing_line(None, 0, "b"), "?---------          ? b [stat failed]");
}

#[test]
fn shells() {
    assert_eq!(os_kind("macos"), "macOS");
    assert_eq!(os_kind("freebsd"), "freebsd");
    assert_eq!(choose_shell("Windows", &[true, true, true]), ("Windows PowerShell".to_string(), "powershell.exe".to_string()));
    assert_eq!(choose_shell("Linux", &[false, true, true]), ("bash".to_string(), "/usr/bin/bash".to_string()));
    assert_eq!(choose_shell("Linux", &[false, false, false]), ("sh".to_string(), "/bin/sh".to_string()));
}
