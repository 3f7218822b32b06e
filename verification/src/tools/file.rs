//! The file tools' own logic: their parameters, checks, messages and the text they compute.
use vstd::prelude::*;

use crate::file_type::FileKind;
use crate::text::{decimal, format_u64, format_usize, owned, push_str, str_chars, string_from_chars, utf8_len};
use crate::tools::utils::{truncate_line_spec, try_truncate_line};
use crate::tools::{blocks_view, brief_blocks, error_view, ok_view, output_text, ret_view, tool_error, tool_ok, ToolOutput, ToolReturnValue};

verus! {

/// The most lines `ReadFile` returns.
pub const MAX_LINES: usize = 1000;

/// The longest line `ReadFile` returns, in bytes.
pub const MAX_LINE_LENGTH: usize = 2000;

/// The most bytes `ReadFile` returns.
pub const MAX_BYTES: usize = 102400;

/// The largest media file `ReadMediaFile` takes, in megabytes.
pub const MAX_MEDIA_MEGABYTES: usize = 100;

/// The most matches `Glob` returns.
pub const MAX_MATCHES: usize = 1000;

/// How many bytes of a file are read to recognize its type.
pub const MEDIA_SNIFF_BYTES: usize = 512;

/// The approval action for editing a file in the working directory.
pub open spec fn action_edit() -> Seq<char> {
    "edit file"@
}

/// The approval action for editing a file outside the working directory.
pub open spec fn action_edit_outside() -> Seq<char> {
    "edit file outside of working directory"@
}

/// The approval action for an edit, by where the file is.
pub fn file_action(within_work_dir: bool) -> (r: String)
    ensures
        r@ == if within_work_dir {
            action_edit()
        } else {
            action_edit_outside()
        },
{
    if within_work_dir {
        owned("edit file")
    } else {
        owned("edit file outside of working directory")
    }
}

/// `` `path` `` followed by `rest`.
pub open spec fn quoted_path(path: Seq<char>, rest: Seq<char>) -> Seq<char> {
    "`"@ + path + "`"@ + rest
}

pub(crate) fn quoted(path: &str, rest: &str) -> (r: String)
    ensures
        r@ == quoted_path(path@, rest@),
{
    let mut s = owned("`");
    push_str(&mut s, path);
    push_str(&mut s, "`");
    push_str(&mut s, rest);
    s
}

/// The result for an empty path.
pub fn empty_path_error() -> (r: ToolReturnValue)
    ensures
        ret_view(r) == error_view(""@, "File path cannot be empty."@, "Empty file path"@),
{
    tool_error("", "File path cannot be empty.", "Empty file path")
}

/// The result for a path that does not exist.
pub fn missing_file_error(path: &str) -> (r: ToolReturnValue)
    ensures
        ret_view(r) == error_view(""@, quoted_path(path@, " does not exist."@), "File not found"@),
{
    let m = quoted(path, " does not exist.");
    tool_error("", m.as_str(), "File not found")
}

/// The result for a path that is not a file.
pub fn not_a_file_error(path: &str) -> (r: ToolReturnValue)
    ensures
        ret_view(r) == error_view(""@, quoted_path(path@, " is not a file."@), "Invalid path"@),
{
    let m = quoted(path, " is not a file.");
    tool_error("", m.as_str(), "Invalid path")
}

/// The result for a relative path that leads outside the working directory.
pub fn not_absolute_error(path: &str, action: &str) -> (r: ToolReturnValue)
    ensures
        ret_view(r) == error_view(
            ""@,
            quoted_path(path@, " is not an absolute path. You must provide an absolute path to "@ + action@
                + " a file outside the working directory."@),
            "Invalid path"@,
        ),
{
    let mut rest = owned(" is not an absolute path. You must provide an absolute path to ");
    push_str(&mut rest, action);
    push_str(&mut rest, " a file outside the working directory.");
    let m = quoted(path, rest.as_str());
    tool_error("", m.as_str(), "Invalid path")
}

/// The check on a path: a relative path must stay inside the working directory.
pub fn validate_absolute_path(path: &str, is_absolute: bool, within_work_dir: bool, action: &str) -> (r: Option<
    ToolReturnValue,
>)
    ensures
        match r {
            None => within_work_dir || is_absolute,
            Some(v) => !within_work_dir && !is_absolute && ret_view(v) == error_view(
                ""@,
                quoted_path(path@, " is not an absolute path. You must provide an absolute path to "@ + action@
                    + " a file outside the working directory."@),
                "Invalid path"@,
            ),
        },
{
    if !within_work_dir && !is_absolute {
        Some(not_absolute_error(path, action))
    } else {
        None
    }
}

// ----- ReadFile -----

/// The arguments of `ReadFile`.
pub struct ReadParams {
    pub path: String,
    pub line_offset: i64,
    pub n_lines: i64,
}

/// Reading starts at the first line unless asked otherwise.
pub fn default_line_offset() -> (r: i64)
    ensures
        r == 1,
{
    1
}

/// Reading takes up to `MAX_LINES` lines unless asked otherwise.
pub fn default_n_lines() -> (r: i64)
    ensures
        r == 1000,
{
    1000
}

/// What is wrong with `ReadFile`'s arguments, if anything: the validation message, or (for an
/// empty path) `None` inside.
pub open spec fn read_params_problem(p: ReadParams) -> Option<Option<Seq<char>>> {
    if p.line_offset < 1 {
        Some(Some("line_offset must be >= 1"@))
    } else if p.n_lines < 1 {
        Some(Some("n_lines must be >= 1"@))
    } else if p.path@.len() == 0 {
        Some(None)
    } else {
        None
    }
}

/// Checks `ReadFile`'s arguments: both counts at least 1 and a path.
pub fn check_read_params(params: &ReadParams) -> (r: Option<ToolReturnValue>)
    ensures
        match read_params_problem(*params) {
            None => r is None,
            Some(Some(m)) => r is Some && ret_view(r->Some_0) == error_view(""@, m, "Invalid arguments"@),
            Some(None) => r is Some && ret_view(r->Some_0) == error_view(""@, "File path cannot be empty."@, "Empty file path"@),
        },
{
    if params.line_offset < 1 {
        return Some(crate::tools::tool_validate_error("line_offset must be >= 1"));
    }
    if params.n_lines < 1 {
        return Some(crate::tools::tool_validate_error("n_lines must be >= 1"));
    }
    if params.path.as_str().is_empty() {
        return Some(empty_path_error());
    }
    None
}

/// The message for a file that `ReadFile` does not read as text.
pub open spec fn kind_message(path: Seq<char>, kind: FileKind) -> Option<(Seq<char>, Seq<char>)> {
    match kind {
        FileKind::Image => Some((quoted_path(path, " is a image file. Use other appropriate tools to read image or video files."@), "Unsupported file type"@)),
        FileKind::Video => Some((quoted_path(path, " is a video file. Use other appropriate tools to read image or video files."@), "Unsupported file type"@)),
        FileKind::Unknown => Some((quoted_path(path, " seems not readable. You may need to read it with proper shell commands, Python tools or MCP tools if available. If you read/operate it with Python, you MUST ensure that any third-party packages are installed in a virtual environment (venv)."@), "File not readable"@)),
        FileKind::Text => None,
    }
}

/// The result for a file that is not text, or `None` for text.
pub fn unreadable_kind_error(path: &str, kind: FileKind) -> (r: Option<ToolReturnValue>)
    ensures
        match kind_message(path@, kind) {
            None => r is None,
            Some((m, b)) => r is Some && ret_view(r->Some_0) == error_view(""@, m, b),
        },
{
    match kind {
        FileKind::Image => {
            let m = quoted(path, " is a image file. Use other appropriate tools to read image or video files.");
            Some(tool_error("", m.as_str(), "Unsupported file type"))
        },
        FileKind::Video => {
            let m = quoted(path, " is a video file. Use other appropriate tools to read image or video files.");
            Some(tool_error("", m.as_str(), "Unsupported file type"))
        },
        FileKind::Unknown => {
            let m = quoted(
                path,
                " seems not readable. You may need to read it with proper shell commands, Python tools or MCP tools if available. If you read/operate it with Python, you MUST ensure that any third-party packages are installed in a virtual environment (venv).",
            );
            Some(tool_error("", m.as_str(), "File not readable"))
        },
        FileKind::Text => None,
    }
}

/// The result when reading a file fails.
pub fn read_failed_error(path: &str, error: &str) -> (r: ToolReturnValue)
    ensures
        ret_view(r) == error_view(""@, "Failed to read "@ + path@ + ". Error: "@ + error@, "Failed to read file"@),
{
    let mut m = owned("Failed to read ");
    push_str(&mut m, path);
    push_str(&mut m, ". Error: ");
    push_str(&mut m, error);
    tool_error("", m.as_str(), "Failed to read file")
}

/// What `ReadFile` has collected: the lines kept, the numbers of the lines it cut, the bytes
/// kept, the number of non-empty lines seen, why it stopped, and whether it stopped.
pub struct ReadState {
    pub lines: Seq<Seq<char>>,
    pub truncated: Seq<nat>,
    pub n_bytes: nat,
    pub current: nat,
    pub max_lines: bool,
    pub max_bytes: bool,
    pub done: bool,
}

/// The effect of one more line from the file: empty lines are skipped, lines before the offset
/// counted, and the others cut to `MAX_LINE_LENGTH` and kept until the asked number, `MAX_LINES`
/// or `MAX_BYTES` is reached. `None` where a cut would fall inside a character or a count
/// would overflow.
pub open spec fn read_step(st: ReadState, line: Seq<char>, offset: nat, n_lines: nat) -> Option<ReadState> {
    if line.len() == 0 {
        Some(st)
    } else if st.current + 1 > u64::MAX {
        None
    } else if st.current + 1 < offset {
        Some(ReadState { current: st.current + 1, ..st })
    } else {
        match truncate_line_spec(line, 2000, "..."@) {
            None => None,
            Some(t) => {
                let cur = st.current + 1;
                let lines = st.lines.push(t);
                let truncated = if t != line {
                    st.truncated.push(cur)
                } else {
                    st.truncated
                };
                let nb = st.n_bytes + utf8_len(t);
                if nb > usize::MAX {
                    None
                } else if lines.len() >= n_lines {
                    Some(ReadState { lines, truncated, n_bytes: nb, current: cur, done: true, ..st })
                } else if lines.len() >= 1000 {
                    Some(ReadState { lines, truncated, n_bytes: nb, current: cur, max_lines: true, done: true, ..st })
                } else if nb >= 102400 {
                    Some(ReadState { lines, truncated, n_bytes: nb, current: cur, max_bytes: true, done: true, ..st })
                } else {
                    Some(ReadState { lines, truncated, n_bytes: nb, current: cur, done: false, ..st })
                }
            },
        }
    }
}

/// The lines `ReadFile` keeps and counts while it reads a file.
pub struct LineReader {
    line_offset: u64,
    n_lines: u64,
    lines: Vec<String>,
    truncated_lines: Vec<u64>,
    n_bytes: usize,
    current_line: u64,
    max_lines_reached: bool,
    max_bytes_reached: bool,
    done: bool,
}

/// The views of line numbers.
pub open spec fn nums_view(v: Seq<u64>) -> Seq<nat> {
    v.map_values(|n: u64| n as nat)
}

impl LineReader {
    /// What the reader has collected.
    pub closed spec fn state(&self) -> ReadState {
        ReadState {
            lines: crate::utils::slashcmd::strings_view(self.lines@),
            truncated: nums_view(self.truncated_lines@),
            n_bytes: self.n_bytes as nat,
            current: self.current_line as nat,
            max_lines: self.max_lines_reached,
            max_bytes: self.max_bytes_reached,
            done: self.done,
        }
    }

    /// The first line to keep.
    pub closed spec fn offset(&self) -> nat {
        self.line_offset as nat
    }

    /// The number of lines asked for.
    pub closed spec fn asked(&self) -> nat {
        self.n_lines as nat
    }

    /// The reader keeps no more lines than asked for or than `MAX_LINES`, and no more once done.
    pub closed spec fn wf(&self) -> bool {
        &&& self.lines@.len() <= self.n_lines
        &&& self.lines@.len() <= 1000
        &&& self.n_lines >= 1
        &&& self.line_offset >= 1
        &&& self.line_offset <= 0x7fff_ffff_ffff_ffff
        &&& (!self.done ==> self.lines@.len() < self.n_lines && self.lines@.len() < 1000)
    }

    /// A reader for `ReadFile`'s arguments, which must hold counts of at least 1.
    pub fn new(params: &ReadParams) -> (r: LineReader)
        requires
            params.line_offset >= 1,
            params.n_lines >= 1,
        ensures
            r.wf(),
            r.offset() == params.line_offset,
            r.asked() == params.n_lines,
            r.state() == (ReadState {
                lines: Seq::empty(),
                truncated: Seq::empty(),
                n_bytes: 0,
                current: 0,
                max_lines: false,
                max_bytes: false,
                done: false,
            }),
    {
        let r = LineReader {
            line_offset: params.line_offset as u64,
            n_lines: params.n_lines as u64,
            lines: Vec::new(),
            truncated_lines: Vec::new(),
            n_bytes: 0,
            current_line: 0,
            max_lines_reached: false,
            max_bytes_reached: false,
            done: false,
        };
        assert(crate::utils::slashcmd::strings_view(r.lines@) =~= Seq::<Seq<char>>::empty());
        assert(nums_view(r.truncated_lines@) =~= Seq::<nat>::empty());
        r
    }

    /// Whether the reader wants no more lines.
    pub fn is_done(&self) -> (r: bool)
        ensures
            r == self.state().done,
    {
        self.done
    }

    /// Whether `push_line` can take this line: its cut falls between characters and its counts
    /// fit.
    pub fn can_push(&self, line: &str) -> (r: bool)
        ensures
            r == read_step(self.state(), line@, self.offset(), self.asked()) is Some,
    {
        let c = str_chars(line);
        if c.len() == 0 {
            return true;
        }
        if self.current_line == u64::MAX {
            return false;
        }
        if self.current_line + 1 < self.line_offset {
            return true;
        }
        match try_truncate_line(line, 2000, "...") {
            None => false,
            Some(t) => {
                proof {
                    crate::text::lemma_encode_len(t@);
                }
                let len = t.as_str().as_bytes().len();
                len <= usize::MAX - self.n_bytes
            },
        }
    }

    /// Takes the next line of the file; the reader must not be done yet.
    pub fn push_line(&mut self, line: &str)
        requires
            old(self).wf(),
            !old(self).state().done,
            read_step(old(self).state(), line@, old(self).offset(), old(self).asked()) is Some,
        ensures
            final(self).wf(),
            final(self).offset() == old(self).offset(),
            final(self).asked() == old(self).asked(),
            final(self).state() == read_step(old(self).state(), line@, old(self).offset(), old(self).asked())->Some_0,
    {
        proof {
            reveal_strlit("...");
        }
        if line.is_empty() {
            return;
        }
        let cur = self.current_line + 1;
        if cur < self.line_offset {
            self.current_line = cur;
            return;
        }
        let t = match try_truncate_line(line, 2000, "...") {
            Some(t) => t,
            None => {
                return;
            },
        };
        proof {
            crate::text::lemma_encode_len(t@);
        }
        let len = t.as_str().as_bytes().len();
        if !crate::text::str_eq(t.as_str(), line) {
            let ghost tv = self.truncated_lines@;
            self.truncated_lines.push(cur);
            assert(nums_view(self.truncated_lines@) =~= nums_view(tv).push(cur as nat));
        }
        let ghost lv = self.lines@;
        self.lines.push(t);
        assert(crate::utils::slashcmd::strings_view(self.lines@) =~= crate::utils::slashcmd::strings_view(lv).push(
            self.lines@.last()@,
        ));
        self.n_bytes = self.n_bytes + len;
        self.current_line = cur;
        if self.lines.len() as u64 >= self.n_lines {
            self.done = true;
        } else if self.lines.len() >= 1000 {
            self.max_lines_reached = true;
            self.done = true;
        } else if self.n_bytes >= 102400 {
            self.max_bytes_reached = true;
            self.done = true;
        }
    }

    /// The result of the read: the lines numbered from the offset, and a message saying how
    /// many lines were read, why reading stopped, and which lines were cut.
    pub fn finish(&self) -> (r: ToolReturnValue)
        requires
            self.wf(),
        ensures
            ret_view(r) == ok_view(
                numbered_text(self.state().lines, self.offset(), 0),
                read_message(self.state(), self.offset(), self.asked()),
                ""@,
            ),
    {
        let mut out = String::new();
        let mut i: usize = 0;
        while i < self.lines.len()
            invariant
                self.wf(),
                i <= self.lines@.len(),
                numbered_text(self.state().lines, self.offset(), 0) == out@ + numbered_text(
                    self.state().lines,
                    self.offset(),
                    i as int,
                ),
            decreases self.lines@.len() - i,
        {
            let no = format_u64(self.line_offset + i as u64);
            let padded = pad6(no.as_str());
            let ghost o = out@;
            push_str(&mut out, padded.as_str());
            push_str(&mut out, "\t");
            push_str(&mut out, self.lines[i].as_str());
            proof {
                reveal_strlit("\t");
                assert(out@ =~= o + (pad6_spec(decimal((self.line_offset + i) as nat)) + "\t"@ + self.state().lines[i as int]));
                assert(out@ + numbered_text(self.state().lines, self.offset(), i + 1) =~= o + numbered_text(
                    self.state().lines,
                    self.offset(),
                    i as int,
                ));
            }
            i = i + 1;
        }
        assert(out@ + Seq::<char>::empty() =~= out@);
        let mut m = if self.lines.len() == 0 {
            owned("No lines read from file.")
        } else {
            let mut m = format_usize(self.lines.len());
            push_str(&mut m, " lines read from file starting from line ");
            let o = format_u64(self.line_offset);
            push_str(&mut m, o.as_str());
            push_str(&mut m, ".");
            m
        };
        if self.max_lines_reached {
            push_str(&mut m, " Max 1000 lines reached.");
        } else if self.max_bytes_reached {
            push_str(&mut m, " Max 102400 bytes reached.");
        } else if (self.lines.len() as u64) < self.n_lines {
            push_str(&mut m, " End of file reached.");
        }
        if self.truncated_lines.len() > 0 {
            push_str(&mut m, " Lines ");
            let l = debug_list(&self.truncated_lines);
            push_str(&mut m, l.as_str());
            push_str(&mut m, " were truncated.");
        }
        tool_ok(out.as_str(), m.as_str(), "")
    }
}

/// A number right-aligned in six columns.
pub open spec fn pad6_spec(s: Seq<char>) -> Seq<char> {
    if s.len() < 6 {
        Seq::new((6 - s.len()) as nat, |i: int| ' ') + s
    } else {
        s
    }
}

fn pad6(s: &str) -> (r: String)
    ensures
        r@ == pad6_spec(s@),
{
    let c = str_chars(s);
    let mut out: Vec<char> = Vec::new();
    if c.len() < 6 {
        let mut k: usize = 0;
        while k < 6 - c.len()
            invariant
                c@.len() < 6,
                k <= 6 - c@.len(),
                out@ == Seq::new(k as nat, |i: int| ' '),
            decreases 6 - c@.len() - k,
        {
            out.push(' ');
            k = k + 1;
            assert(out@ =~= Seq::new(k as nat, |i: int| ' '));
        }
    }
    crate::text::append_chars(&mut out, c.as_slice());
    assert(out@ =~= pad6_spec(s@));
    string_from_chars(out.as_slice())
}

/// The kept lines from index `i` on, each after its number and a tab.
pub open spec fn numbered_text(lines: Seq<Seq<char>>, offset: nat, i: int) -> Seq<char>
    decreases lines.len() - i,
{
    if i < 0 || i >= lines.len() {
        Seq::empty()
    } else {
        pad6_spec(decimal((offset + i) as nat)) + "\t"@ + lines[i] + numbered_text(lines, offset, i + 1)
    }
}

/// Numbers as `[a, b, c]`.
pub open spec fn debug_list_spec(v: Seq<nat>) -> Seq<char> {
    "["@ + crate::utils::slashcmd::join_spec(v.map_values(|n: nat| decimal(n)), ", "@) + "]"@
}

fn debug_list(v: &Vec<u64>) -> (r: String)
    ensures
        r@ == debug_list_spec(nums_view(v@)),
{
    let mut s = owned("[");
    let ghost s0 = s@;
    let ghost ds = nums_view(v@).map_values(|n: nat| decimal(n));
    let mut i: usize = 0;
    while i < v.len()
        invariant
            i <= v@.len(),
            ds == nums_view(v@).map_values(|n: nat| decimal(n)),
            s@ == s0 + crate::utils::slashcmd::join_spec(ds.take(i as int), ", "@),
        decreases v@.len() - i,
    {
        if i > 0 {
            push_str(&mut s, ", ");
        }
        let d = format_u64(v[i]);
        push_str(&mut s, d.as_str());
        proof {
            let t = ds.take(i + 1);
            assert(t.drop_last() =~= ds.take(i as int));
            if i == 0 {
                assert(ds.take(0) =~= Seq::<Seq<char>>::empty());
            }
        }
        i = i + 1;
    }
    assert(ds.take(v@.len() as int) =~= ds);
    push_str(&mut s, "]");
    proof {
        reveal_strlit("[");
    }
    s
}

/// The message of a read: how many lines, why reading stopped, and which lines were cut.
pub open spec fn read_message(st: ReadState, offset: nat, asked: nat) -> Seq<char> {
    let head = if st.lines.len() == 0 {
        "No lines read from file."@
    } else {
        decimal(st.lines.len()) + " lines read from file starting from line "@ + decimal(offset) + "."@
    };
    let why = if st.max_lines {
        " Max 1000 lines reached."@
    } else if st.max_bytes {
        " Max 102400 bytes reached."@
    } else if st.lines.len() < asked {
        " End of file reached."@
    } else {
        Seq::empty()
    };
    let cut = if st.truncated.len() > 0 {
        " Lines "@ + debug_list_spec(st.truncated) + " were truncated."@
    } else {
        Seq::empty()
    };
    head + why + cut
}

/// `ReadFile` keeps no more lines than asked for and no more than `MAX_LINES`.
pub proof fn lemma_read_bounds(r: LineReader)
    requires
        r.wf(),
    ensures
        r.state().lines.len() <= r.asked(),
        r.state().lines.len() <= 1000,
{
}

// ----- StrReplaceFile -----

/// One replacement: the old text, the new text, and whether every occurrence is replaced.
pub struct EditParams {
    pub old: String,
    pub new: String,
    pub replace_all: bool,
}

/// The arguments of `StrReplaceFile`: a path and the edits, applied in order.
pub struct StrReplaceParams {
    pub path: String,
    pub edit: Vec<EditParams>,
}

/// `str::replacen(from, to, 1)`: the first occurrence of `from` replaced by `to`.
pub open spec fn replace_first_spec(s: Seq<char>, from: Seq<char>, to: Seq<char>) -> Seq<char> {
    match crate::flow::mermaid::find_seq(s, from, 0) {
        Some(k) => s.take(k) + to + s.skip(k + from.len()),
        None => s,
    }
}

/// The views of edits.
pub open spec fn edits_view(edits: Seq<EditParams>) -> Seq<(Seq<char>, Seq<char>, bool)> {
    edits.map_values(|e: EditParams| (e.old@, e.new@, e.replace_all))
}

/// The text after the edits, applied one after the other.
pub open spec fn apply_edits_spec(s: Seq<char>, edits: Seq<(Seq<char>, Seq<char>, bool)>) -> Seq<char>
    decreases edits.len(),
{
    if edits.len() == 0 {
        s
    } else {
        let prev = apply_edits_spec(s, edits.drop_last());
        let e = edits.last();
        if e.2 {
            crate::tools::utils::replace_spec(prev, e.0, e.1)
        } else {
            replace_first_spec(prev, e.0, e.1)
        }
    }
}

fn replace_first(s: &str, from: &str, to: &str) -> (r: String)
    ensures
        r@ == replace_first_spec(s@, from@, to@),
{
    let c = str_chars(s);
    let f = str_chars(from);
    let t = str_chars(to);
    let n = c.len();
    if f.len() > n {
        assert(crate::flow::mermaid::find_seq(c@, f@, 0) is None);
        return owned(s);
    }
    let mut k: usize = 0;
    loop
        invariant
            f@.len() <= n,
            n == c@.len(),
            c@ == s@,
            f@ == from@,
            t@ == to@,
            k <= n - f@.len(),
            crate::flow::mermaid::find_seq(c@, f@, 0) == crate::flow::mermaid::find_seq(c@, f@, k as int),
        ensures
            crate::flow::mermaid::find_seq(c@, f@, 0) is None,
        decreases n - k,
    {
        if crate::text::matches_at(c.as_slice(), k, f.as_slice()) {
            let mut out = crate::text::slice_chars(c.as_slice(), 0, k);
            crate::text::append_chars(&mut out, t.as_slice());
            let tail = crate::text::slice_chars(c.as_slice(), k + f.len(), n);
            crate::text::append_chars(&mut out, tail.as_slice());
            assert(out@ =~= c@.take(k as int) + t@ + c@.skip(k + f@.len()));
            return string_from_chars(out.as_slice());
        }
        if k == n - f.len() {
            assert(crate::flow::mermaid::find_seq(c@, f@, k + 1) is None);
            break;
        }
        k = k + 1;
    }
    owned(s)
}

/// Applies the edits in order: each replaces every occurrence of its old text, or only the
/// first.
pub fn apply_edits(original: &str, edits: &Vec<EditParams>) -> (r: String)
    ensures
        r@ == apply_edits_spec(original@, edits_view(edits@)),
{
    let mut content = owned(original);
    let mut i: usize = 0;
    while i < edits.len()
        invariant
            i <= edits@.len(),
            content@ == apply_edits_spec(original@, edits_view(edits@).take(i as int)),
        decreases edits@.len() - i,
    {
        let e = &edits[i];
        content = if e.replace_all {
            crate::tools::utils::replace_all(content.as_str(), e.old.as_str(), e.new.as_str())
        } else {
            replace_first(content.as_str(), e.old.as_str(), e.new.as_str())
        };
        proof {
            let t = edits_view(edits@).take(i + 1);
            assert(t.drop_last() =~= edits_view(edits@).take(i as int));
        }
        i = i + 1;
    }
    assert(edits_view(edits@).take(edits@.len() as int) =~= edits_view(edits@));
    content
}

/// A replacement whose old text does not occur leaves the text as it is.
pub proof fn lemma_replace_absent(s: Seq<char>, from: Seq<char>, to: Seq<char>)
    requires
        from.len() > 0,
        forall|k: int| 0 <= k ==> !#[trigger] occurs_at_seq(s, k, from),
    ensures
        crate::tools::utils::replace_spec(s, from, to) == s,
        replace_first_spec(s, from, to) == s,
{
    lemma_replace_from_absent(s, from, to, 0);
    lemma_find_seq_absent(s, from, 0);
    assert(s.skip(0) =~= s);
}

/// `occurs_at`, as a trigger.
pub open spec fn occurs_at_seq(s: Seq<char>, k: int, pat: Seq<char>) -> bool {
    crate::text::occurs_at(s, k, pat)
}

proof fn lemma_replace_from_absent(s: Seq<char>, from: Seq<char>, to: Seq<char>, i: int)
    requires
        from.len() > 0,
        0 <= i,
        forall|k: int| 0 <= k ==> !#[trigger] occurs_at_seq(s, k, from),
    ensures
        crate::tools::utils::replace_from(s, from, to, i) == s.skip(i),
    decreases s.len() - i,
{
    if i < s.len() {
        assert(!occurs_at_seq(s, i, from));
        lemma_replace_from_absent(s, from, to, i + 1);
        assert(seq![s[i]] + s.skip(i + 1) =~= s.skip(i));
    }
}

proof fn lemma_find_seq_absent(s: Seq<char>, from: Seq<char>, i: int)
    requires
        0 <= i,
        forall|k: int| 0 <= k ==> !#[trigger] occurs_at_seq(s, k, from),
    ensures
        crate::flow::mermaid::find_seq(s, from, i) is None,
    decreases s.len() + 1 - i,
{
    if i + from.len() <= s.len() {
        assert(!occurs_at_seq(s, i, from));
        lemma_find_seq_absent(s, from, i + 1);
    }
}

/// The result when no edit changed the file.
pub fn no_replacement_error() -> (r: ToolReturnValue)
    ensures
        ret_view(r) == error_view(""@, "No replacements were made. The old string was not found in the file."@, "No replacements made"@),
{
    tool_error("", "No replacements were made. The old string was not found in the file.", "No replacements made")
}

/// The result when the file cannot be read for editing.
pub fn edit_read_failed_error(error: &str) -> (r: ToolReturnValue)
    ensures
        ret_view(r) == error_view(""@, "Failed to edit. Error: "@ + error@, "Failed to edit file"@),
{
    let mut m = owned("Failed to edit. Error: ");
    push_str(&mut m, error);
    tool_error("", m.as_str(), "Failed to edit file")
}

/// The result when the edited file cannot be written.
pub fn edit_write_failed_error(path: &str, error: &str) -> (r: ToolReturnValue)
    ensures
        ret_view(r) == error_view(""@, "Failed to edit "@ + path@ + ". Error: "@ + error@, "Failed to edit file"@),
{
    let mut m = owned("Failed to edit ");
    push_str(&mut m, path);
    push_str(&mut m, ". Error: ");
    push_str(&mut m, error);
    tool_error("", m.as_str(), "Failed to edit file")
}

/// The edited text, or the result to return when the edits change nothing.
pub fn edited_content(original: &str, edits: &Vec<EditParams>) -> (r: Result<String, ToolReturnValue>)
    ensures
        match r {
            Ok(c) => c@ == apply_edits_spec(original@, edits_view(edits@)) && c@ != original@,
            Err(v) => apply_edits_spec(original@, edits_view(edits@)) == original@ && ret_view(v) == error_view(
                ""@,
                "No replacements were made. The old string was not found in the file."@,
                "No replacements made"@,
            ),
        },
{
    let content = apply_edits(original, edits);
    if crate::text::str_eq(content.as_str(), original) {
        Err(no_replacement_error())
    } else {
        Ok(content)
    }
}

/// The result of a successful edit, showing the changes.
pub fn edit_success(diff: Vec<crate::tools::DisplayBlock>) -> (r: ToolReturnValue)
    ensures
        !r.is_error,
        output_text(r.output) == Some(Seq::<char>::empty()),
        r.message@ == "File successfully edited."@,
        r.display == diff,
        r.extras is None,
{
    let r = ToolReturnValue {
        is_error: false,
        output: ToolOutput::Text(String::new()),
        message: owned("File successfully edited."),
        display: diff,
        extras: None,
    };
    r
}

// ----- WriteFile -----

/// How `WriteFile` writes.
#[derive(Clone, Copy, Debug, PartialEq, Eq, Structural)]
pub enum WriteMode {
    Overwrite,
    Append,
}

/// The arguments of `WriteFile`.
pub struct WriteParams {
    pub path: String,
    pub content: String,
    pub mode: WriteMode,
}

/// Files are overwritten unless asked otherwise.
pub fn default_write_mode() -> (r: WriteMode)
    ensures
        r == WriteMode::Overwrite,
{
    WriteMode::Overwrite
}

/// The text the file will hold: the content, after the old text when appending.
pub fn write_new_text(old_text: &Option<String>, content: &str, mode: WriteMode) -> (r: String)
    ensures
        r@ == match mode {
            WriteMode::Append => match old_text {
                Some(t) => t@ + content@,
                None => content@,
            },
            WriteMode::Overwrite => content@,
        },
{
    match mode {
        WriteMode::Append => {
            let mut s = match old_text {
                Some(t) => t.clone(),
                None => String::new(),
            };
            push_str(&mut s, content);
            s
        },
        WriteMode::Overwrite => owned(content),
    }
}

/// The result when the parent directory is missing.
pub fn missing_parent_error(path: &str) -> (r: ToolReturnValue)
    ensures
        ret_view(r) == error_view(""@, quoted_path(path@, " parent directory does not exist."@), "Parent directory not found"@),
{
    let m = quoted(path, " parent directory does not exist.");
    tool_error("", m.as_str(), "Parent directory not found")
}

/// The result when writing fails.
pub fn write_failed_error(path: &str, error: &str) -> (r: ToolReturnValue)
    ensures
        ret_view(r) == error_view(""@, "Failed to write to "@ + path@ + ". Error: "@ + error@, "Failed to write file"@),
{
    let mut m = owned("Failed to write to ");
    push_str(&mut m, path);
    push_str(&mut m, ". Error: ");
    push_str(&mut m, error);
    tool_error("", m.as_str(), "Failed to write file")
}

/// The message of a successful write, with the file's new size.
pub fn write_success_message(mode: WriteMode, size: u64) -> (r: String)
    ensures
        r@ == "File successfully "@ + (match mode {
            WriteMode::Append => "appended to"@,
            WriteMode::Overwrite => "overwritten"@,
        }) + ". Current size: "@ + decimal(size as nat) + " bytes."@,
{
    let mut m = owned("File successfully ");
    match mode {
        WriteMode::Append => push_str(&mut m, "appended to"),
        WriteMode::Overwrite => push_str(&mut m, "overwritten"),
    }
    push_str(&mut m, ". Current size: ");
    let n = format_u64(size);
    push_str(&mut m, n.as_str());
    push_str(&mut m, " bytes.");
    m
}

// ----- Glob -----

/// The arguments of `Glob`.
pub struct GlobParams {
    pub pattern: String,
    pub directory: Option<String>,
    pub include_dirs: bool,
}

/// Directories are listed unless asked otherwise.
pub fn default_include_dirs() -> (r: bool)
    ensures
        r,
{
    true
}

/// Whether a pattern would search every directory recursively from the top.
pub fn is_unsafe_glob(pattern: &str) -> (r: bool)
    ensures
        r == crate::text::has_prefix(pattern@, "**"@),
{
    let c = str_chars(pattern);
    crate::text::starts_with_str(c.as_slice(), "**")
}

/// The result for a pattern that starts with `**`, with the top-level listing as output.
pub fn unsafe_glob_error(pattern: &str, listing: &str) -> (r: ToolReturnValue)
    ensures
        ret_view(r) == error_view(
            listing@,
            "Pattern `"@ + pattern@ + "` starts with '**' which is not allowed. This would recursively search all directories and may include large directories like `node_modules`. Use more specific patterns instead. For your convenience, a list of all files and directories in the top level of the working directory is provided below."@,
            "Unsafe pattern"@,
        ),
{
    let mut m = owned("Pattern `");
    push_str(&mut m, pattern);
    push_str(
        &mut m,
        "` starts with '**' which is not allowed. This would recursively search all directories and may include large directories like `node_modules`. Use more specific patterns instead. For your convenience, a list of all files and directories in the top level of the working directory is provided below.",
    );
    tool_error(listing, m.as_str(), "Unsafe pattern")
}

/// Whether `a` comes before `b` in the order of strings: by character codes, a prefix first.
pub open spec fn chars_lt(a: Seq<char>, b: Seq<char>) -> bool
    decreases a.len(),
{
    if a.len() == 0 {
        b.len() > 0
    } else if b.len() == 0 {
        false
    } else if a[0] != b[0] {
        (a[0] as u32) < (b[0] as u32)
    } else {
        chars_lt(a.drop_first(), b.drop_first())
    }
}

/// `slice::sort` on strings: the same strings, in ascending order (byte order, which for UTF-8
/// is the order of character codes).
#[verifier::external_body]
pub(crate) fn sort_strings(v: &mut Vec<String>)
    ensures
        crate::utils::slashcmd::strings_view(final(v)@).to_multiset() == crate::utils::slashcmd::strings_view(
            old(v)@,
        ).to_multiset(),
        final(v)@.len() == old(v)@.len(),
        forall|i: int, j: int| 0 <= i < j < final(v)@.len() ==> !chars_lt(#[trigger] final(v)@[j]@, #[trigger] final(v)@[i]@),
{
    v.sort();
}

/// The message of a search, before any cut.
pub open spec fn glob_message(pattern: Seq<char>, n: nat) -> Seq<char> {
    if n == 0 {
        "No matches found for pattern `"@ + pattern + "`."@
    } else {
        "Found "@ + decimal(n) + " matches for pattern `"@ + pattern + "`."@ + if n > 1000 {
            " Only the first 1000 matches are returned. You may want to use a more specific pattern."@
        } else {
            Seq::empty()
        }
    }
}

/// Whether a list of strings is in ascending order.
pub open spec fn ascending(v: Seq<Seq<char>>) -> bool {
    forall|i: int, j: int| 0 <= i < j < v.len() ==> !chars_lt(#[trigger] v[j], #[trigger] v[i])
}

/// How many matches a search returns: all of them, up to `MAX_MATCHES`.
pub open spec fn kept_count(n: nat) -> nat {
    if n > 1000 {
        1000
    } else {
        n
    }
}

/// Sorts the matches, keeps the first `MAX_MATCHES`, and says how many were found: the result is
/// the start of the matches in ascending order.
pub fn glob_matches(pattern: &str, matches: Vec<String>) -> (r: (Vec<String>, String))
    ensures
        exists|sorted: Seq<Seq<char>>| {
            &&& sorted.to_multiset() == crate::utils::slashcmd::strings_view(matches@).to_multiset()
            &&& ascending(sorted)
            &&& crate::utils::slashcmd::strings_view(r.0@) == sorted.take(kept_count(matches@.len()) as int)
        },
        r.1@ == glob_message(pattern@, matches@.len()),
{
    let ghost n0 = matches@.len();
    let mut v = matches;
    sort_strings(&mut v);
    let ghost sorted = crate::utils::slashcmd::strings_view(v@);
    assert(ascending(sorted));
    let n = v.len();
    let mut m = if n == 0 {
        let mut m = owned("No matches found for pattern `");
        push_str(&mut m, pattern);
        push_str(&mut m, "`.");
        m
    } else {
        let mut m = owned("Found ");
        let d = format_usize(n);
        push_str(&mut m, d.as_str());
        push_str(&mut m, " matches for pattern `");
        push_str(&mut m, pattern);
        push_str(&mut m, "`.");
        m
    };
    if n > 1000 {
        v.truncate(1000);
        push_str(&mut m, " Only the first 1000 matches are returned. You may want to use a more specific pattern.");
    }
    assert(crate::utils::slashcmd::strings_view(v@) =~= sorted.take(kept_count(n0) as int));
    proof {
        reveal_strlit("");
    }
    assert(m@ == glob_message(pattern@, n as nat)) by {
        if n > 1000 {
            assert(("Found "@ + decimal(n as nat) + " matches for pattern `"@ + pattern@ + "`."@) + " Only the first 1000 matches are returned. You may want to use a more specific pattern."@
                =~= "Found "@ + decimal(n as nat) + " matches for pattern `"@ + pattern@ + "`."@ + " Only the first 1000 matches are returned. You may want to use a more specific pattern."@);
        } else if n > 0 {
            assert("Found "@ + decimal(n as nat) + " matches for pattern `"@ + pattern@ + "`."@ + Seq::<char>::empty()
                =~= "Found "@ + decimal(n as nat) + " matches for pattern `"@ + pattern@ + "`."@);
        }
    }
    (v, m)
}

/// The entries a search keeps: every match when directories are wanted, else the files alone.
/// Each entry is a path and whether it is a file.
pub open spec fn kept_spec(entries: Seq<(Seq<char>, bool)>, include_dirs: bool) -> Seq<Seq<char>>
    decreases entries.len(),
{
    if entries.len() == 0 {
        Seq::empty()
    } else {
        kept_spec(entries.drop_last(), include_dirs) + if include_dirs || entries.last().1 {
            seq![entries.last().0]
        } else {
            Seq::<Seq<char>>::empty()
        }
    }
}

/// The views of search entries.
pub open spec fn entries_view(entries: Seq<(String, bool)>) -> Seq<(Seq<char>, bool)> {
    entries.map_values(|e: (String, bool)| (e.0@, e.1))
}

/// Keeps the entries a search returns: all of them, or the files alone.
pub fn kept_entries(entries: &Vec<(String, bool)>, include_dirs: bool) -> (r: Vec<String>)
    ensures
        crate::utils::slashcmd::strings_view(r@) == kept_spec(entries_view(entries@), include_dirs),
{
    let ghost ev = entries_view(entries@);
    let mut out: Vec<String> = Vec::new();
    let mut i: usize = 0;
    while i < entries.len()
        invariant
            i <= entries@.len(),
            ev == entries_view(entries@),
            crate::utils::slashcmd::strings_view(out@) == kept_spec(ev.take(i as int), include_dirs),
        decreases entries@.len() - i,
    {
        assert(ev.take(i + 1).drop_last() =~= ev.take(i as int));
        if include_dirs || entries[i].1 {
            out.push(entries[i].0.clone());
        }
        assert(crate::utils::slashcmd::strings_view(out@) =~= kept_spec(ev.take(i + 1), include_dirs));
        i = i + 1;
    }
    assert(ev.take(entries@.len() as int) =~= ev);
    out
}

/// A path as the search shows it: relative to the searched directory when it lies inside it
/// (the directory itself shows as empty), else as it is.
pub open spec fn relative_to_dir(path: Seq<char>, dir: Seq<char>) -> Seq<char> {
    let d = if dir.len() > 0 && dir.last() == '/' {
        dir
    } else {
        dir.push('/')
    };
    if path == dir {
        Seq::empty()
    } else if crate::text::has_prefix(path, d) {
        path.skip(d.len() as int)
    } else {
        path
    }
}

fn relative_path(path: &str, dir: &str) -> (r: String)
    ensures
        r@ == relative_to_dir(path@, dir@),
{
    let p = str_chars(path);
    let mut d = str_chars(dir);
    if !(d.len() > 0 && d[d.len() - 1] == '/') {
        d.push('/');
    }
    if crate::text::str_eq(path, dir) {
        return String::new();
    }
    if p.len() >= d.len() && crate::text::matches_at(p.as_slice(), 0, d.as_slice()) {
        let rest = crate::text::slice_chars(p.as_slice(), d.len(), p.len());
        assert(p@.take(d@.len() as int) =~= p@.subrange(0, d@.len() as int));
        assert(rest@ =~= p@.skip(d@.len() as int));
        string_from_chars(rest.as_slice())
    } else {
        proof {
            if crate::text::has_prefix(p@, d@) {
                assert(p@.subrange(0, d@.len() as int) =~= p@.take(d@.len() as int));
            }
        }
        owned(path)
    }
}

/// The lines a search writes: each kept path relative to the directory, one per line.
pub fn relative_lines(paths: &Vec<String>, dir: &str) -> (r: String)
    ensures
        r@ == crate::utils::slashcmd::join_spec(
            crate::utils::slashcmd::strings_view(paths@).map_values(|p: Seq<char>| relative_to_dir(p, dir@)),
            "\n"@,
        ),
{
    let ghost target = crate::utils::slashcmd::strings_view(paths@).map_values(|p: Seq<char>| relative_to_dir(p, dir@));
    let mut rel: Vec<String> = Vec::new();
    let mut i: usize = 0;
    while i < paths.len()
        invariant
            i <= paths@.len(),
            target == crate::utils::slashcmd::strings_view(paths@).map_values(|p: Seq<char>| relative_to_dir(p, dir@)),
            crate::utils::slashcmd::strings_view(rel@) == target.take(i as int),
        decreases paths@.len() - i,
    {
        let r1 = relative_path(paths[i].as_str(), dir);
        let ghost r0 = rel@;
        assert(target[i as int] == relative_to_dir(paths@[i as int]@, dir@));
        rel.push(r1);
        assert(crate::utils::slashcmd::strings_view(rel@) =~= crate::utils::slashcmd::strings_view(r0).push(r1@));
        assert(crate::utils::slashcmd::strings_view(rel@) =~= target.take(i + 1));
        i = i + 1;
    }
    assert(target.take(paths@.len() as int) =~= target);
    let mut out = String::new();
    crate::utils::slashcmd::push_joined(&mut out, &rel, "\n");
    assert(out@ =~= crate::utils::slashcmd::join_spec(target, "\n"@));
    out
}

/// The result of a search that ran: the kept entries in ascending order, the first
/// `MAX_MATCHES` of them written relative to the directory one per line, and a message that
/// says how many were found.
pub fn glob_found(pattern: &str, dir: &str, entries: &Vec<(String, bool)>, include_dirs: bool) -> (r: ToolReturnValue)
    ensures
        r.extras is None,
        !r.is_error,
        blocks_view(r.display@) == brief_blocks(""@),
        r.message@ == glob_message(pattern@, kept_spec(entries_view(entries@), include_dirs).len()),
        exists|sorted: Seq<Seq<char>>| {
            &&& sorted.to_multiset() == kept_spec(entries_view(entries@), include_dirs).to_multiset()
            &&& ascending(sorted)
            &&& output_text(r.output) == Some(
                crate::utils::slashcmd::join_spec(
                    sorted.take(kept_count(sorted.len()) as int).map_values(|p: Seq<char>| relative_to_dir(p, dir@)),
                    "\n"@,
                ),
            )
        },
{
    let kept = kept_entries(entries, include_dirs);
    let ghost kv = crate::utils::slashcmd::strings_view(kept@);
    let (v, m) = glob_matches(pattern, kept);
    let out = relative_lines(&v, dir);
    let r = crate::tools::tool_ok(out.as_str(), m.as_str(), "");
    proof {
        let sorted = choose|sorted: Seq<Seq<char>>| {
            &&& sorted.to_multiset() == kv.to_multiset()
            &&& ascending(sorted)
            &&& crate::utils::slashcmd::strings_view(v@) == sorted.take(kept_count(kv.len()) as int)
        };
        sorted.to_multiset_ensures();
        kv.to_multiset_ensures();
        assert(sorted.len() == kv.len());
    }
    r
}

/// The refusal of a directory to search: one that is not absolute, lies outside the working
/// directory, does not exist or is not a directory. `shown` is the directory as given, and
/// `expanded` the directory with `~` expanded.
pub fn glob_dir_error(shown: &str, expanded: &str, is_absolute: bool, within_work_dir: bool, exists: bool, is_dir: bool) -> (r: Option<
    ToolReturnValue,
>)
    ensures
        !is_absolute ==> (r matches Some(v) && ret_view(v) == error_view(
            ""@,
            quoted_path(shown@, " is not an absolute path. You must provide an absolute path to search."@),
            "Invalid directory"@,
        )),
        is_absolute && !within_work_dir ==> (r matches Some(v) && ret_view(v) == error_view(
            ""@,
            quoted_path(expanded@, " is outside the working directory. You can only search within the working directory."@),
            "Directory outside working directory"@,
        )),
        is_absolute && within_work_dir && !exists ==> (r matches Some(v) && ret_view(v) == error_view(
            ""@,
            quoted_path(shown@, " does not exist."@),
            "Directory not found"@,
        )),
        is_absolute && within_work_dir && exists && !is_dir ==> (r matches Some(v) && ret_view(v) == error_view(
            ""@,
            quoted_path(shown@, " is not a directory."@),
            "Invalid directory"@,
        )),
        is_absolute && within_work_dir && exists && is_dir ==> r is None,
{
    if !is_absolute {
        let m = quoted(shown, " is not an absolute path. You must provide an absolute path to search.");
        return Some(tool_error("", m.as_str(), "Invalid directory"));
    }
    if !within_work_dir {
        let m = quoted(expanded, " is outside the working directory. You can only search within the working directory.");
        return Some(tool_error("", m.as_str(), "Directory outside working directory"));
    }
    if !exists {
        let m = quoted(shown, " does not exist.");
        return Some(tool_error("", m.as_str(), "Directory not found"));
    }
    if !is_dir {
        let m = quoted(shown, " is not a directory.");
        return Some(tool_error("", m.as_str(), "Invalid directory"));
    }
    None
}

} // verus!
