use kagent::tools::file::{
    apply_edits, check_read_params, edited_content, glob_matches, is_unsafe_glob, unreadable_kind_error,
    validate_absolute_path, write_new_text, write_success_message, EditParams, LineReader, ReadParams, WriteMode,
};
use kagent::tools::utils::{
    is_tool_rejected, load_desc, replace_all, split_lines_keepends, tool_rejected_error, truncate_line,
    ToolResultBuilder,
};
use kagent::tools::{extract_key_argument, normalize_path, tool_error, tool_ok, DisplayBlock, ToolOutput};
use kagent::file_type::FileKind;
use kagent::tools::html::JsonValue;

fn text(o: &ToolOutput) -> String {
    match o {
        ToolOutput::Text(t) => t.clone(),
        ToolOutput::Parts(_) => panic!("text output expected"),
    }
}

#[test]
fn desc_substitutes_keys() {
    let subs = [("NAME", "bash".to_string()), ("N", "3".to_string())];
    assert_eq!(load_desc("Run ${NAME} ${N} times; ${NAME}!", &subs), "Run bash 3 times; bash!");
    assert_eq!(replace_all("a-b-c", "-", "+"), "a+b+c");
}

#[test]
fn truncate_keeps_line_break() {
    assert_eq!(truncate_line("short\n", 20, "..."), "short\n");
    assert_eq!(truncate_line("abcdefghij\n", 8, "..."), "abcd...\n");
    assert_eq!(truncate_line("abcdefghij", 8, "..."), "abcde...");
}

#[test]
fn lines_keep_their_ends() {
    assert_eq!(split_lines_keepends("a\r\nb\nc"), vec!["a\r\n", "b\n", "c"]);
    assert!(split_lines_keepends("").is_empty());
}

#[test]
fn builder_collects_and_truncates() {
    let mut b = ToolResultBuilder::new(50, Some(20));
    assert_eq!(b.write("hello\nworld\n"), 12);
    assert_eq!(b.n_lines(), 2);
    assert_eq!(b.n_chars(), 12);
    let long = "x".repeat(30);
    assert_eq!(b.write(&long), 20);
    let r = b.ok("Done", "brief");
    assert!(!r.is_error);
    assert_eq!(text(&r.output), format!("hello\nworld\n{}[...truncated]", "x".repeat(6)));
    assert_eq!(r.message, "Done. Output is truncated to fit in the message.");
    assert_eq!(r.brief(), "brief");
}

#[test]
fn builder_stops_when_full() {
    let mut b = ToolResultBuilder::new(5, None);
    assert_eq!(b.write("abc\n"), 4);
    assert!(!b.is_full());
    b.write("defgh\n");
    assert!(b.is_full());
    assert_eq!(b.write("more"), 0);
    let r = b.error("", "");
    assert!(r.is_error);
    assert_eq!(r.message, "Output is truncated to fit in the message.");
    assert!(r.display.is_empty());
}

#[test]
fn rejection_is_recognized() {
    let r = tool_rejected_error();
    assert!(is_tool_rejected(&r));
    assert_eq!(r.message, "The tool call is rejected by the user. Please follow the new instructions from the user.");
    assert!(!is_tool_rejected(&tool_ok("", "", "Rejected by user")));
    assert!(!is_tool_rejected(&tool_error("", "", "Something else")));
}

#[test]
fn read_params_are_checked() {
    let p = ReadParams { path: "/a".to_string(), line_offset: 0, n_lines: 5 };
    assert_eq!(check_read_params(&p).unwrap().message, "line_offset must be >= 1");
    let p = ReadParams { path: "/a".to_string(), line_offset: 1, n_lines: 0 };
    assert_eq!(check_read_params(&p).unwrap().message, "n_lines must be >= 1");
    let p = ReadParams { path: String::new(), line_offset: 1, n_lines: 1 };
    assert_eq!(check_read_params(&p).unwrap().message, "File path cannot be empty.");
    let p = ReadParams { path: "/a".to_string(), line_offset: 1, n_lines: 1 };
    assert!(check_read_params(&p).is_none());
}

#[test]
fn unreadable_kinds() {
    let r = unreadable_kind_error("/x.png", FileKind::Image).unwrap();
    assert_eq!(r.message, "`/x.png` is a image file. Use other appropriate tools to read image or video files.");
    assert_eq!(r.brief(), "Unsupported file type");
    assert!(unreadable_kind_error("/x.txt", FileKind::Text).is_none());
}

#[test]
fn absolute_paths_outside_work_dir() {
    assert!(validate_absolute_path("rel", false, true, "read").is_none());
    assert!(validate_absolute_path("/abs", true, false, "read").is_none());
    let r = validate_absolute_path("rel", false, false, "read").unwrap();
    assert_eq!(
        r.message,
        "`rel` is not an absolute path. You must provide an absolute path to read a file outside the working directory."
    );
}

#[test]
fn line_reader_numbers_lines() {
    let p = ReadParams { path: "/f".to_string(), line_offset: 2, n_lines: 2 };
    let mut reader = LineReader::new(&p);
    for line in ["one\n", "two\n", "", "three\n", "four\n"] {
        if reader.is_done() {
            break;
        }
        assert!(reader.can_push(line));
        reader.push_line(line);
    }
    let r = reader.finish();
    assert_eq!(text(&r.output), "     2\ttwo\n     3\tthree\n");
    assert_eq!(r.message, "2 lines read from file starting from line 2.");
}

#[test]
fn line_reader_end_of_file() {
    let p = ReadParams { path: "/f".to_string(), line_offset: 1, n_lines: 10 };
    let mut reader = LineReader::new(&p);
    reader.push_line("only\n");
    let r = reader.finish();
    assert_eq!(text(&r.output), "     1\tonly\n");
    assert_eq!(r.message, "1 lines read from file starting from line 1. End of file reached.");
    let empty = LineReader::new(&p).finish();
    assert_eq!(empty.message, "No lines read from file. End of file reached.");
}

#[test]
fn edits_apply_in_order() {
    let edits = vec![
        EditParams { old: "a".to_string(), new: "b".to_string(), replace_all: false },
        EditParams { old: "b".to_string(), new: "c".to_string(), replace_all: true },
    ];
    assert_eq!(apply_edits("a a b", &edits), "c a c");
    assert_eq!(edited_content("a a b", &edits).unwrap(), "c a c");
    let none = vec![EditParams { old: "zz".to_string(), new: "y".to_string(), replace_all: true }];
    let err = edited_content("abc", &none).unwrap_err();
    assert_eq!(err.message, "No replacements were made. The old string was not found in the file.");
}

#[test]
fn write_modes() {
    assert_eq!(write_new_text(&Some("old".to_string()), "new", WriteMode::Append), "oldnew");
    assert_eq!(write_new_text(&None, "new", WriteMode::Append), "new");
    assert_eq!(write_new_text(&Some("old".to_string()), "new", WriteMode::Overwrite), "new");
    assert_eq!(write_success_message(WriteMode::Append, 12), "File successfully appended to. Current size: 12 bytes.");
    assert_eq!(write_success_message(WriteMode::Overwrite, 0), "File successfully overwritten. Current size: 0 bytes.");
}

#[test]
fn glob_results_are_sorted() {
    assert!(is_unsafe_glob("**/*.rs"));
    assert!(!is_unsafe_glob("src/**/*.rs"));
    let (v, m) = glob_matches("*.rs", vec!["b.rs".to_string(), "a.rs".to_string()]);
    assert_eq!(v, vec!["a.rs".to_string(), "b.rs".to_string()]);
    assert_eq!(m, "Found 2 matches for pattern `*.rs`.");
    let (v, m) = glob_matches("*.md", vec![]);
    assert!(v.is_empty());
    assert_eq!(m, "No matches found for pattern `*.md`.");
}

#[test]
fn glob_caps_matches() {
    let many: Vec<String> = (0..1001).map(|i| format!("f{:04}", i)).collect();
    let (v, m) = glob_matches("f*", many);
    assert_eq!(v.len(), 1000);
    assert_eq!(v[0], "f0000");
    assert_eq!(
        m,
        "Found 1001 matches for pattern `f*`. Only the first 1000 matches are returned. You may want to use a more specific pattern."
    );
}

#[test]
fn tool_display_blocks() {
    let r = tool_ok("out", "msg", "");
    assert!(r.display.is_empty());
    let r = tool_ok("out", "msg", "b");
    assert!(matches!(&r.display[0], DisplayBlock::Brief(t) if t == "b"));
}

#[test]
fn path_normalization() {
    assert_eq!(normalize_path("/work/src/main.rs", "/work"), "src/main.rs");
    assert_eq!(normalize_path("/other/x", "/work"), "/other/x");
}

#[test]
fn key_argument_of_tools() {
    assert_eq!(extract_key_argument("{}", "NoSuchTool", &None, "/work"), Some("{}".to_string()));
    let shell = JsonValue::Object(vec![("command".to_string(), JsonValue::Str("ls -la".to_string()))]);
    assert_eq!(
        extract_key_argument("{\"command\": \"ls -la\"}", "Shell", &Some(shell), "/work"),
        Some("ls -la".to_string())
    );
    let read = JsonValue::Object(vec![("path".to_string(), JsonValue::Str("/work/src/a.rs".to_string()))]);
    assert_eq!(extract_key_argument("", "ReadFile", &Some(read), "/work"), Some("src/a.rs".to_string()));
    assert_eq!(extract_key_argument("not json", "Shell", &None, "/work"), None);
    let dmail = JsonValue::Object(vec![("message".to_string(), JsonValue::Str("m".to_string()))]);
    assert_eq!(extract_key_argument("", "SendDMail", &Some(dmail), "/work"), None);
}
