//! What tools return, and the tools' own logic.
use vstd::prelude::*;

use crate::message::{parts_view, ContentPart};
use crate::text::owned;

pub mod utils;
pub mod file;
pub mod grep;
pub mod html;
pub mod media;
pub mod shell;
pub mod web;
pub mod agent_tools;

verus! {

/// The view of a return value: whether it is an error, its output, its message, its blocks and
/// its extra fields.
pub open spec fn ret_view(r: ToolReturnValue) -> (bool, Option<Seq<char>>, Seq<char>, Seq<(nat, Seq<char>, Seq<char>, Seq<char>)>, Option<Seq<(Seq<char>, Seq<char>)>>) {
    (r.is_error, output_text(r.output), r.message@, blocks_view(r.display@), extras_view(r.extras))
}

/// The view of a return value's extra fields.
pub open spec fn extras_view(e: Option<Vec<(String, String)>>) -> Option<Seq<(Seq<char>, Seq<char>)>> {
    match e {
        Some(v) => Some(v@.map_values(|p: (String, String)| (p.0@, p.1@))),
        None => None,
    }
}

/// What a tool hands back to the model: text, or message parts such as an image.
#[derive(Debug)]
pub enum ToolOutput {
    Text(String),
    Parts(Vec<ContentPart>),
}

/// The text of a text output.
pub open spec fn output_text(o: ToolOutput) -> Option<Seq<char>> {
    match o {
        ToolOutput::Text(t) => Some(t@),
        ToolOutput::Parts(_) => None,
    }
}

/// The message parts an output becomes: its text when there is any, or its parts.
pub open spec fn output_parts(o: ToolOutput) -> Seq<(nat, Seq<char>)> {
    match o {
        ToolOutput::Text(t) => if t@.len() > 0 {
            seq![(0nat, t@)]
        } else {
            Seq::empty()
        },
        ToolOutput::Parts(ps) => parts_view(ps@),
    }
}

/// The view of `tool_error(output, message, brief)`.
pub open spec fn error_view(output: Seq<char>, message: Seq<char>, brief: Seq<char>) -> (bool, Option<Seq<char>>, Seq<char>, Seq<(nat, Seq<char>, Seq<char>, Seq<char>)>, Option<Seq<(Seq<char>, Seq<char>)>>) {
    (true, Some(output), message, brief_blocks(brief), None)
}

/// The view of `tool_ok(output, message, brief)`.
pub open spec fn ok_view(output: Seq<char>, message: Seq<char>, brief: Seq<char>) -> (bool, Option<Seq<char>>, Seq<char>, Seq<(nat, Seq<char>, Seq<char>, Seq<char>)>, Option<Seq<(Seq<char>, Seq<char>)>>) {
    (false, Some(output), message, brief_blocks(brief), None)
}

/// A block shown to the user beside a tool's output.
#[derive(Debug)]
pub enum DisplayBlock {
    /// A one-line summary.
    Brief(String),
    /// A change to a file.
    Diff { path: String, old_text: String, new_text: String },
}

/// What a tool call returns to the model and the user.
#[derive(Debug)]
pub struct ToolReturnValue {
    pub is_error: bool,
    pub output: ToolOutput,
    pub message: String,
    pub display: Vec<DisplayBlock>,
    pub extras: Option<Vec<(String, String)>>,
}

/// The view of a display block: its kind (0 for a summary, 1 for a change) and its texts.
pub open spec fn block_view(b: DisplayBlock) -> (nat, Seq<char>, Seq<char>, Seq<char>) {
    match b {
        DisplayBlock::Brief(t) => (0, t@, Seq::empty(), Seq::empty()),
        DisplayBlock::Diff { path, old_text, new_text } => (1, path@, old_text@, new_text@),
    }
}

/// The views of display blocks.
pub open spec fn blocks_view(bs: Seq<DisplayBlock>) -> Seq<(nat, Seq<char>, Seq<char>, Seq<char>)> {
    bs.map_values(|b: DisplayBlock| block_view(b))
}

/// The summary a return value shows: the text of its first summary block, or nothing.
pub open spec fn brief_of(bs: Seq<(nat, Seq<char>, Seq<char>, Seq<char>)>) -> Seq<char>
    decreases bs.len(),
{
    if bs.len() == 0 {
        Seq::empty()
    } else if bs[0].0 == 0 {
        bs[0].1
    } else {
        brief_of(bs.drop_first())
    }
}

/// The display of a return value with a summary: one summary block, or none when it is empty.
pub open spec fn brief_blocks(brief: Seq<char>) -> Seq<(nat, Seq<char>, Seq<char>, Seq<char>)> {
    if brief.len() == 0 {
        Seq::empty()
    } else {
        seq![(0nat, brief, Seq::<char>::empty(), Seq::<char>::empty())]
    }
}

/// A copy of a display block.
pub fn copy_block(b: &DisplayBlock) -> (r: DisplayBlock)
    ensures
        block_view(r) == block_view(*b),
{
    match b {
        DisplayBlock::Brief(t) => DisplayBlock::Brief(t.clone()),
        DisplayBlock::Diff { path, old_text, new_text } => DisplayBlock::Diff {
            path: path.clone(),
            old_text: old_text.clone(),
            new_text: new_text.clone(),
        },
    }
}

fn brief_display(brief: &str) -> (r: Vec<DisplayBlock>)
    ensures
        blocks_view(r@) == brief_blocks(brief@),
{
    let mut v: Vec<DisplayBlock> = Vec::new();
    if !brief.is_empty() {
        v.push(DisplayBlock::Brief(owned(brief)));
        assert(blocks_view(v@) =~= brief_blocks(brief@));
    } else {
        assert(blocks_view(v@) =~= brief_blocks(brief@));
    }
    v
}

/// A successful result with an output, a message for the model and a summary for the user.
pub fn tool_ok(output: &str, message: &str, brief: &str) -> (r: ToolReturnValue)
    ensures
        !r.is_error,
        output_text(r.output) == Some(output@),
        r.message@ == message@,
        blocks_view(r.display@) == brief_blocks(brief@),
        r.extras is None,
{
    ToolReturnValue {
        is_error: false,
        output: ToolOutput::Text(owned(output)),
        message: owned(message),
        display: brief_display(brief),
        extras: None,
    }
}

/// A failed result with an output, a message for the model and a summary for the user.
pub fn tool_error(output: &str, message: &str, brief: &str) -> (r: ToolReturnValue)
    ensures
        r.is_error,
        output_text(r.output) == Some(output@),
        r.message@ == message@,
        blocks_view(r.display@) == brief_blocks(brief@),
        r.extras is None,
{
    ToolReturnValue {
        is_error: true,
        output: ToolOutput::Text(owned(output)),
        message: owned(message),
        display: brief_display(brief),
        extras: None,
    }
}

/// A failed result for arguments that break the tool's rules.
pub fn tool_validate_error(message: &str) -> (r: ToolReturnValue)
    ensures
        ret_view(r) == error_view(""@, message@, "Invalid arguments"@),
        r.extras is None,
{
    tool_error("", message, "Invalid arguments")
}

impl ToolReturnValue {
    /// The summary the result shows: the text of its first summary block, or nothing.
    pub fn brief(&self) -> (r: String)
        ensures
            r@ == brief_of(blocks_view(self.display@)),
    {
        let mut i: usize = 0;
        assert(blocks_view(self.display@).skip(0) =~= blocks_view(self.display@));
        while i < self.display.len()
            invariant
                i <= self.display@.len(),
                brief_of(blocks_view(self.display@)) == brief_of(blocks_view(self.display@).skip(i as int)),
            decreases self.display@.len() - i,
        {
            assert(blocks_view(self.display@).skip(i as int).drop_first() =~= blocks_view(self.display@).skip(i + 1));
            match &self.display[i] {
                DisplayBlock::Brief(t) => {
                    return t.clone();
                },
                _ => {},
            }
            i = i + 1;
        }
        String::new()
    }
}

/// A tool that is left out of the toolset.
pub struct SkipThisTool;

/// The tools whose key argument is shown by name.
pub open spec fn known_tool(name: Seq<char>) -> bool {
    name == "Task"@ || name == "CreateSubagent"@ || name == "SendDMail"@ || name == "Think"@ || name
        == "SetTodoList"@ || name == "Shell"@ || name == "ReadFile"@ || name == "ReadMediaFile"@ || name
        == "WriteFile"@ || name == "StrReplaceFile"@ || name == "Glob"@ || name == "Grep"@ || name == "SearchWeb"@
        || name == "FetchURL"@
}

/// The field that holds a known tool's key argument; `None` for the tools that show none.
pub open spec fn key_field(name: Seq<char>) -> Option<Seq<char>> {
    if name == "Task"@ {
        Some("description"@)
    } else if name == "CreateSubagent"@ {
        Some("name"@)
    } else if name == "Think"@ {
        Some("thought"@)
    } else if name == "Shell"@ {
        Some("command"@)
    } else if name == "ReadFile"@ || name == "ReadMediaFile"@ || name == "WriteFile"@ || name == "StrReplaceFile"@ {
        Some("path"@)
    } else if name == "Glob"@ || name == "Grep"@ {
        Some("pattern"@)
    } else if name == "SearchWeb"@ {
        Some("query"@)
    } else if name == "FetchURL"@ {
        Some("url"@)
    } else {
        None
    }
}

/// A path shown relative to the working directory when it lies under it: the rest after the
/// directory, without leading separators.
pub open spec fn relative_shown(path: Seq<char>, cwd: Seq<char>) -> Seq<char> {
    if crate::text::has_prefix(path, cwd) {
        strip_separators(path.skip(cwd.len() as int))
    } else {
        path
    }
}

/// A text without its leading `/` and `\` characters.
pub open spec fn strip_separators(s: Seq<char>) -> Seq<char>
    decreases s.len(),
{
    if s.len() > 0 && (s[0] == '/' || s[0] == '\\') {
        strip_separators(s.drop_first())
    } else {
        s
    }
}

/// The text of a tool call's key argument before it is shortened: the whole arguments for an
/// unknown tool; for a known one the string in its key field (a path relative to the working
/// directory), when the arguments parse to an object that has it.
pub open spec fn key_text(json: Seq<char>, tool: Seq<char>, parsed: Option<crate::tools::html::JsonValue>, cwd: Seq<char>) -> Option<Seq<char>> {
    if !known_tool(tool) {
        Some(json)
    } else {
        match parsed {
            None => None,
            Some(v) => match key_field(tool) {
                None => None,
                Some(f) => match v {
                    crate::tools::html::JsonValue::Object(es) => match crate::tools::html::str_entry(es@, f, 0) {
                        Some(t) => if f == "path"@ {
                            Some(relative_shown(t, cwd))
                        } else {
                            Some(t)
                        },
                        None => None,
                    },
                    _ => None,
                },
            },
        }
    }
}

fn strip_seps(s: &[char]) -> (r: Vec<char>)
    ensures
        r@ == strip_separators(s@),
{
    let mut i: usize = 0;
    assert(s@.skip(0) =~= s@);
    while i < s.len() && (s[i] == '/' || s[i] == '\\')
        invariant
            i <= s@.len(),
            strip_separators(s@) == strip_separators(s@.skip(i as int)),
        decreases s@.len() - i,
    {
        assert(s@.skip(i as int).drop_first() =~= s@.skip(i + 1));
        i = i + 1;
    }
    let r = crate::text::slice_chars(s, i, s.len());
    assert(r@ =~= s@.skip(i as int));
    r
}

/// A path shown relative to the working directory when it lies under it.
pub fn normalize_path(path: &str, cwd: &str) -> (r: String)
    ensures
        r@ == relative_shown(path@, cwd@),
{
    let p = crate::text::str_chars(path);
    let c = crate::text::str_chars(cwd);
    if crate::text::starts_with_str(p.as_slice(), cwd) {
        let rest = crate::text::slice_chars(p.as_slice(), c.len(), p.len());
        assert(rest@ =~= p@.skip(c@.len() as int));
        let t = strip_seps(rest.as_slice());
        crate::text::string_from_chars(t.as_slice())
    } else {
        owned(path)
    }
}

/// The key argument a tool call shows: its key text, shortened to 50 bytes around its middle
/// with newlines flattened. The arguments are given as text and, when they parse as JSON, as
/// parsed; the working directory is the canonical one.
pub fn extract_key_argument(json_content: &str, tool_name: &str, parsed: &Option<crate::tools::html::JsonValue>, cwd: &str) -> (r: Option<String>)
    requires
        key_text(json_content@, tool_name@, *parsed, cwd@) matches Some(k) ==> crate::utils::string::shorten_middle_spec(k, 50, true) is Some,
    ensures
        match key_text(json_content@, tool_name@, *parsed, cwd@) {
            Some(k) => r matches Some(s) && s@ == crate::utils::string::shorten_middle_spec(k, 50, true)->Some_0,
            None => r is None,
        },
{
    let known = crate::text::str_eq(tool_name, "Task") || crate::text::str_eq(tool_name, "CreateSubagent")
        || crate::text::str_eq(tool_name, "SendDMail") || crate::text::str_eq(tool_name, "Think")
        || crate::text::str_eq(tool_name, "SetTodoList") || crate::text::str_eq(tool_name, "Shell")
        || crate::text::str_eq(tool_name, "ReadFile") || crate::text::str_eq(tool_name, "ReadMediaFile")
        || crate::text::str_eq(tool_name, "WriteFile") || crate::text::str_eq(tool_name, "StrReplaceFile")
        || crate::text::str_eq(tool_name, "Glob") || crate::text::str_eq(tool_name, "Grep")
        || crate::text::str_eq(tool_name, "SearchWeb") || crate::text::str_eq(tool_name, "FetchURL");
    if !known {
        return Some(crate::utils::string::shorten_middle(json_content, 50, true));
    }
    let value = match parsed {
        Some(v) => v,
        None => {
            return None;
        },
    };
    let field = if crate::text::str_eq(tool_name, "Task") {
        "description"
    } else if crate::text::str_eq(tool_name, "CreateSubagent") {
        "name"
    } else if crate::text::str_eq(tool_name, "Think") {
        "thought"
    } else if crate::text::str_eq(tool_name, "Shell") {
        "command"
    } else if crate::text::str_eq(tool_name, "ReadFile") || crate::text::str_eq(tool_name, "ReadMediaFile")
        || crate::text::str_eq(tool_name, "WriteFile") || crate::text::str_eq(tool_name, "StrReplaceFile") {
        "path"
    } else if crate::text::str_eq(tool_name, "Glob") || crate::text::str_eq(tool_name, "Grep") {
        "pattern"
    } else if crate::text::str_eq(tool_name, "SearchWeb") {
        "query"
    } else if crate::text::str_eq(tool_name, "FetchURL") {
        "url"
    } else {
        return None;
    };
    let text = match value {
        crate::tools::html::JsonValue::Object(es) => match crate::tools::html::str_entry_of(es, field) {
            Some(t) => t,
            None => {
                return None;
            },
        },
        _ => {
            return None;
        },
    };
    proof {
        reveal_strlit("path");
    }
    let shown = if crate::text::str_eq(field, "path") {
        normalize_path(text.as_str(), cwd)
    } else {
        text
    };
    Some(crate::utils::string::shorten_middle(shown.as_str(), 50, true))
}

} // verus!
