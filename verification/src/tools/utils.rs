//! Shared pieces of the tools: description templates, line truncation and the result builder.
use vstd::prelude::*;

use crate::text::{
    byte_cut, cut_at_byte, lemma_encode_len, occurs_at, owned, push_str, str_chars, string_from_chars,
    utf8_len,
};
use crate::tools::{blocks_view, brief_blocks, brief_of, copy_block, output_text, DisplayBlock, ToolOutput, ToolReturnValue};

verus! {

/// `s[i..]` with every `from` replaced by `to`, scanning left to right.
pub open spec fn replace_from(s: Seq<char>, from: Seq<char>, to: Seq<char>, i: int) -> Seq<char>
    decreases s.len() - i,
{
    if i < 0 || i >= s.len() || from.len() == 0 {
        s.skip(i)
    } else if occurs_at(s, i, from) {
        to + replace_from(s, from, to, i + from.len())
    } else {
        seq![s[i]] + replace_from(s, from, to, i + 1)
    }
}

/// `s[i..]` with `to` put before each character and at the end: what replacing the empty
/// pattern gives.
pub open spec fn replace_empty(s: Seq<char>, to: Seq<char>, i: int) -> Seq<char>
    decreases s.len() - i,
{
    if i < 0 || i >= s.len() {
        to
    } else {
        to + seq![s[i]] + replace_empty(s, to, i + 1)
    }
}

/// `str::replace`: every occurrence of `from`, left to right and not overlapping, replaced by
/// `to`; an empty `from` occurs before each character and at the end.
pub open spec fn replace_spec(s: Seq<char>, from: Seq<char>, to: Seq<char>) -> Seq<char> {
    if from.len() == 0 {
        replace_empty(s, to, 0)
    } else {
        replace_from(s, from, to, 0)
    }
}

/// Every occurrence of `from` in `s` replaced by `to`.
pub fn replace_all(s: &str, from: &str, to: &str) -> (r: String)
    ensures
        r@ == replace_spec(s@, from@, to@),
{
    let c = str_chars(s);
    let f = str_chars(from);
    let t = str_chars(to);
    if f.len() == 0 {
        let mut out: Vec<char> = Vec::new();
        let mut i: usize = 0;
        while i < c.len()
            invariant
                i <= c@.len(),
                replace_empty(c@, t@, 0) == out@ + replace_empty(c@, t@, i as int),
            decreases c@.len() - i,
        {
            let ghost o = out@;
            crate::text::append_chars(&mut out, t.as_slice());
            out.push(c[i]);
            assert(out@ + replace_empty(c@, t@, i + 1) =~= o + (t@ + seq![c@[i as int]] + replace_empty(c@, t@, i + 1)));
            i = i + 1;
        }
        crate::text::append_chars(&mut out, t.as_slice());
        return string_from_chars(out.as_slice());
    }
    let mut out: Vec<char> = Vec::new();
    let mut i: usize = 0;
    while i < c.len()
        invariant
            f@.len() > 0,
            i <= c@.len(),
            replace_spec(c@, f@, t@) == out@ + replace_from(c@, f@, t@, i as int),
        decreases c@.len() - i,
    {
        if crate::text::matches_at(c.as_slice(), i, f.as_slice()) {
            let ghost o = out@;
            crate::text::append_chars(&mut out, t.as_slice());
            assert(out@ + replace_from(c@, f@, t@, i + f@.len()) =~= o + (t@ + replace_from(c@, f@, t@, i + f@.len())));
            i = i + f.len();
        } else {
            let ghost o = out@;
            out.push(c[i]);
            assert(out@ + replace_from(c@, f@, t@, i + 1) =~= o + (seq![c@[i as int]] + replace_from(c@, f@, t@, i + 1)));
            i = i + 1;
        }
    }
    assert(c@.skip(c@.len() as int) =~= Seq::<char>::empty());
    assert(out@ + Seq::<char>::empty() =~= out@);
    string_from_chars(out.as_slice())
}

/// A description template with `${KEY}` replaced by each value, one key after the other.
pub open spec fn render_desc(template: Seq<char>, subs: Seq<(Seq<char>, Seq<char>)>) -> Seq<char>
    decreases subs.len(),
{
    if subs.len() == 0 {
        template
    } else {
        replace_spec(render_desc(template, subs.drop_last()), "${"@ + subs.last().0 + "}"@, subs.last().1)
    }
}

/// The views of substitutions.
pub open spec fn subs_view(subs: Seq<(&str, String)>) -> Seq<(Seq<char>, Seq<char>)> {
    subs.map_values(|p: (&str, String)| (p.0@, p.1@))
}

/// Fills a description template: each `${KEY}` becomes the value given for `KEY`.
pub fn load_desc(template: &str, substitutions: &[(&str, String)]) -> (r: String)
    ensures
        r@ == render_desc(template@, subs_view(substitutions@)),
{
    let mut rendered = owned(template);
    let mut i: usize = 0;
    while i < substitutions.len()
        invariant
            i <= substitutions@.len(),
            rendered@ == render_desc(template@, subs_view(substitutions@).take(i as int)),
        decreases substitutions@.len() - i,
    {
        let (key, value) = &substitutions[i];
        let mut token = owned("${");
        push_str(&mut token, key);
        push_str(&mut token, "}");
        proof {
            reveal_strlit("${");
            reveal_strlit("}");
        }
        rendered = replace_all(rendered.as_str(), token.as_str(), value.as_str());
        proof {
            let t = subs_view(substitutions@).take(i + 1);
            assert(t.drop_last() =~= subs_view(substitutions@).take(i as int));
        }
        i = i + 1;
    }
    assert(subs_view(substitutions@).take(substitutions@.len() as int) =~= subs_view(substitutions@));
    rendered
}

/// The start of the run of `\r` and `\n` that ends the line.
pub open spec fn break_start(s: Seq<char>, i: int) -> int
    decreases i,
{
    if i <= 0 || i > s.len() || !(s[i - 1] == '\r' || s[i - 1] == '\n') {
        i
    } else {
        break_start(s, i - 1)
    }
}

/// What `truncate_line` gives: the line when it fits in `max` bytes; otherwise its first bytes
/// followed by the marker and the line's ending, cut so that the whole takes `max` bytes (or
/// just the marker and ending when they alone are longer). `None` where the cut would fall
/// inside a character.
pub open spec fn truncate_line_spec(line: Seq<char>, max: nat, marker: Seq<char>) -> Option<Seq<char>> {
    if utf8_len(line) <= max {
        Some(line)
    } else {
        let end = marker + line.skip(break_start(line, line.len() as int));
        let m = if max >= utf8_len(end) {
            max
        } else {
            utf8_len(end)
        };
        match byte_cut(line, m - utf8_len(end)) {
            Some(head) => Some(head + end),
            None => None,
        }
    }
}

proof fn lemma_break_start_bounds(s: Seq<char>, i: int)
    requires
        0 <= i <= s.len(),
    ensures
        0 <= break_start(s, i) <= i,
    decreases i,
{
    if i > 0 && (s[i - 1] == '\r' || s[i - 1] == '\n') {
        lemma_break_start_bounds(s, i - 1);
    }
}

pub(crate) fn byte_len(s: &[char]) -> (r: usize)
    ensures
        r == utf8_len(s@),
{
    let st = string_from_chars(s);
    proof {
        lemma_encode_len(s@);
    }
    st.as_str().as_bytes().len()
}

/// A line cut to `max_length` bytes, ending in `marker` and the line's own line break.
pub fn try_truncate_line(line: &str, max_length: usize, marker: &str) -> (r: Option<String>)
    ensures
        match r {
            Some(s) => truncate_line_spec(line@, max_length as nat, marker@) == Some(s@),
            None => truncate_line_spec(line@, max_length as nat, marker@) is None,
        },
{
    let c = str_chars(line);
    let n = byte_len(c.as_slice());
    if n <= max_length {
        return Some(owned(line));
    }
    let mut k = c.len();
    while k > 0 && (c[k - 1] == '\r' || c[k - 1] == '\n')
        invariant
            k <= c@.len(),
            break_start(c@, c@.len() as int) == break_start(c@, k as int),
        decreases k,
    {
        k = k - 1;
    }
    proof {
        lemma_break_start_bounds(c@, c@.len() as int);
    }
    let mut end = str_chars(marker);
    let tail = crate::text::slice_chars(c.as_slice(), k, c.len());
    crate::text::append_chars(&mut end, tail.as_slice());
    assert(tail@ =~= c@.skip(k as int));
    let e = byte_len(end.as_slice());
    let m = if max_length >= e {
        max_length
    } else {
        e
    };
    match cut_at_byte(c.as_slice(), m - e) {
        Some(head) => {
            let mut out = head;
            crate::text::append_chars(&mut out, end.as_slice());
            Some(string_from_chars(out.as_slice()))
        },
        None => None,
    }
}

/// Cuts a line to `max_length` bytes, keeping its line break after `marker`.
pub fn truncate_line(line: &str, max_length: usize, marker: &str) -> (r: String)
    requires
        truncate_line_spec(line@, max_length as nat, marker@) is Some,
    ensures
        r@ == truncate_line_spec(line@, max_length as nat, marker@)->Some_0,
{
    match try_truncate_line(line, max_length, marker) {
        Some(s) => s,
        None => owned(line),
    }
}

/// The characters that end a line: `\n`, `\r`, VT, FF, FS, GS, RS, NEL, LS and PS.
pub open spec fn line_break(c: char) -> bool {
    c == '\n' || c == '\r' || c == '\u{000B}' || c == '\u{000C}' || c == '\u{001C}' || c == '\u{001D}'
        || c == '\u{001E}' || c == '\u{0085}' || c == '\u{2028}' || c == '\u{2029}'
}

/// Whether a character ends a line.
pub fn is_line_break(ch: char) -> (r: bool)
    ensures
        r == line_break(ch),
{
    ch == '\n' || ch == '\r' || ch == '\u{000B}' || ch == '\u{000C}' || ch == '\u{001C}' || ch == '\u{001D}'
        || ch == '\u{001E}' || ch == '\u{0085}' || ch == '\u{2028}' || ch == '\u{2029}'
}

/// The lines of `s` from index `i` on, the current one having started at `start`; each line
/// keeps its break, and `\r\n` is one break.
pub open spec fn lines_keep_from(s: Seq<char>, start: int, i: int) -> Seq<Seq<char>>
    decreases s.len() - i,
{
    if i < 0 || start < 0 || start > i || i >= s.len() {
        if 0 <= start < s.len() {
            seq![s.skip(start)]
        } else {
            Seq::empty()
        }
    } else if line_break(s[i]) {
        let end = if s[i] == '\r' && i + 1 < s.len() && s[i + 1] == '\n' {
            i + 2
        } else {
            i + 1
        };
        seq![s.subrange(start, end)] + lines_keep_from(s, end, end)
    } else {
        lines_keep_from(s, start, i + 1)
    }
}

/// `text` split into lines that keep their line breaks.
pub fn split_lines_keepends(text: &str) -> (r: Vec<String>)
    ensures
        crate::utils::slashcmd::strings_view(r@) == lines_keep_from(text@, 0, 0),
{
    let c = str_chars(text);
    let mut out: Vec<String> = Vec::new();
    let mut start: usize = 0;
    let mut i: usize = 0;
    while i < c.len()
        invariant
            start <= i <= c@.len(),
            lines_keep_from(c@, 0, 0) == crate::utils::slashcmd::strings_view(out@) + lines_keep_from(
                c@,
                start as int,
                i as int,
            ),
        decreases c@.len() - i,
    {
        if is_line_break(c[i]) {
            let end = if c[i] == '\r' && i + 1 < c.len() && c[i + 1] == '\n' {
                i + 2
            } else {
                i + 1
            };
            let piece = crate::text::slice_chars(c.as_slice(), start, end);
            let ghost o = out@;
            out.push(string_from_chars(piece.as_slice()));
            proof {
                assert(crate::utils::slashcmd::strings_view(out@) =~= crate::utils::slashcmd::strings_view(o).push(
                    piece@,
                ));
            }
            start = end;
            i = end;
        } else {
            i = i + 1;
        }
    }
    if start < c.len() {
        let piece = crate::text::slice_chars(c.as_slice(), start, c.len());
        assert(piece@ =~= c@.skip(start as int));
        let ghost o = out@;
        out.push(string_from_chars(piece.as_slice()));
        proof {
            assert(crate::utils::slashcmd::strings_view(out@) =~= crate::utils::slashcmd::strings_view(o).push(
                piece@,
            ));
        }
    } else {
        assert(crate::utils::slashcmd::strings_view(out@) + Seq::<Seq<char>>::empty() =~= crate::utils::slashcmd::strings_view(out@));
    }
    out
}

/// The state a result builder tracks: the pieces written, the bytes and lines written, and
/// whether anything was cut.
pub struct BuilderState {
    pub pieces: Seq<Seq<char>>,
    pub n_chars: nat,
    pub n_lines: nat,
    pub truncation: bool,
    pub written: nat,
}

/// The byte limit for the next line: what is left, or less when lines have a limit.
pub open spec fn line_limit(max_chars: nat, n_chars: nat, max_line: Option<usize>) -> nat {
    let remaining = (max_chars - n_chars) as nat;
    match max_line {
        Some(l) => if l < remaining {
            l as nat
        } else {
            remaining
        },
        None => remaining,
    }
}

/// Writing the lines from index `i` on: each line is cut to the limit, until the builder is
/// full. `None` where a cut would fall inside a character or a count would overflow.
pub open spec fn write_from(
    st: BuilderState,
    lines: Seq<Seq<char>>,
    i: int,
    max_chars: nat,
    max_line: Option<usize>,
    marker: Seq<char>,
) -> Option<BuilderState>
    decreases lines.len() - i,
{
    if i < 0 || i >= lines.len() || st.n_chars >= max_chars {
        Some(st)
    } else {
        match truncate_line_spec(lines[i], line_limit(max_chars, st.n_chars, max_line), marker) {
            None => None,
            Some(t) => {
                let len = utf8_len(t);
                if st.n_chars + len > usize::MAX || st.written + len > usize::MAX {
                    None
                } else {
                    write_from(
                        BuilderState {
                            pieces: st.pieces.push(t),
                            n_chars: st.n_chars + len,
                            n_lines: if t.len() > 0 && t.last() == '\n' {
                                st.n_lines + 1
                            } else {
                                st.n_lines
                            },
                            truncation: st.truncation || len != utf8_len(lines[i]),
                            written: st.written + len,
                        },
                        lines,
                        i + 1,
                        max_chars,
                        max_line,
                        marker,
                    )
                }
            },
        }
    }
}

/// Collects a tool's output line by line up to a byte limit, cutting long lines, and builds
/// the result.
pub struct ToolResultBuilder {
    max_chars: usize,
    max_line_length: Option<usize>,
    marker: String,
    buffer: Vec<String>,
    n_chars: usize,
    n_lines: usize,
    truncation: bool,
    display: Vec<DisplayBlock>,
}

/// The marker that ends a cut line.
pub open spec fn truncation_marker() -> Seq<char> {
    "[...truncated]"@
}

impl ToolResultBuilder {
    /// The byte limit of the output.
    pub closed spec fn char_limit(&self) -> usize {
        self.max_chars
    }

    /// The byte limit of a line, if any.
    pub closed spec fn line_cap(&self) -> Option<usize> {
        self.max_line_length
    }

    /// What has been written, piece by piece.
    pub closed spec fn pieces(&self) -> Seq<Seq<char>> {
        crate::utils::slashcmd::strings_view(self.buffer@)
    }

    /// The number of bytes written.
    pub closed spec fn chars_written(&self) -> nat {
        self.n_chars as nat
    }

    /// The number of complete lines written.
    pub closed spec fn lines_written(&self) -> nat {
        self.n_lines as nat
    }

    /// Whether a line was cut.
    pub closed spec fn truncated(&self) -> bool {
        self.truncation
    }

    /// The blocks to show beside the output.
    pub closed spec fn display_view(&self) -> Seq<(nat, Seq<char>, Seq<char>, Seq<char>)> {
        blocks_view(self.display@)
    }

    /// The builder's own consistency: its marker, and a line limit longer than the marker.
    pub closed spec fn wf(&self) -> bool {
        &&& self.marker@ == truncation_marker()
        &&& self.max_line_length matches Some(l) ==> l > 14
        &&& self.n_lines <= self.n_chars
    }

    /// The state the builder tracks.
    pub open spec fn state(&self) -> BuilderState {
        BuilderState {
            pieces: self.pieces(),
            n_chars: self.chars_written(),
            n_lines: self.lines_written(),
            truncation: self.truncated(),
            written: 0,
        }
    }

    /// An empty builder; a line limit must be longer than the marker.
    pub fn new(max_chars: usize, max_line_length: Option<usize>) -> (r: ToolResultBuilder)
        requires
            max_line_length matches Some(l) ==> l > 14,
        ensures
            r.wf(),
            r.char_limit() == max_chars,
            r.line_cap() == max_line_length,
            r.pieces().len() == 0,
            r.chars_written() == 0,
            r.lines_written() == 0,
            !r.truncated(),
            r.display_view().len() == 0,
    {
        let r = ToolResultBuilder {
            max_chars,
            max_line_length,
            marker: owned("[...truncated]"),
            buffer: Vec::new(),
            n_chars: 0,
            n_lines: 0,
            truncation: false,
            display: Vec::new(),
        };
        assert(r.pieces() =~= Seq::<Seq<char>>::empty());
        assert(r.display_view() =~= Seq::empty());
        r
    }

    /// Whether the byte limit is reached.
    pub fn is_full(&self) -> (r: bool)
        ensures
            r == (self.chars_written() >= self.char_limit()),
    {
        self.n_chars >= self.max_chars
    }

    /// The number of bytes written.
    pub fn n_chars(&self) -> (r: usize)
        ensures
            r == self.chars_written(),
    {
        self.n_chars
    }

    /// The number of complete lines written.
    pub fn n_lines(&self) -> (r: usize)
        ensures
            r == self.lines_written(),
    {
        self.n_lines
    }

    /// Whether `write(text)` can take this text: its cuts fall between characters and its
    /// counts fit in `usize`.
    pub fn can_write(&self, text: &str) -> (r: bool)
        requires
            self.wf(),
        ensures
            r == write_from(self.state(), lines_keep_from(text@, 0, 0), 0, self.char_limit() as nat, self.line_cap(), truncation_marker()) is Some,
    {
        let lines = split_lines_keepends(text);
        let ghost lv = crate::utils::slashcmd::strings_view(lines@);
        let mut n: usize = self.n_chars;
        let mut w: usize = 0;
        let mut nl: usize = self.n_lines;
        let mut tr = self.truncation;
        let ghost mut pieces = self.pieces();
        let mut i: usize = 0;
        while i < lines.len()
            invariant
                self.wf(),
                i <= lines@.len(),
                nl <= n,
                lv == crate::utils::slashcmd::strings_view(lines@),
                lv == lines_keep_from(text@, 0, 0),
                write_from(self.state(), lv, 0, self.char_limit() as nat, self.line_cap(), truncation_marker())
                    == write_from(BuilderState { pieces, n_chars: n as nat, n_lines: nl as nat, truncation: tr, written: w as nat }, lv, i as int, self.char_limit() as nat, self.line_cap(), truncation_marker()),
            decreases lines@.len() - i,
        {
            if n >= self.max_chars {
                return true;
            }
            let remaining = self.max_chars - n;
            let limit = match self.max_line_length {
                Some(l) => if l < remaining {
                    l
                } else {
                    remaining
                },
                None => remaining,
            };
            let t = match try_truncate_line(lines[i].as_str(), limit, self.marker.as_str()) {
                Some(t) => t,
                None => {
                    return false;
                },
            };
            let tc = str_chars(t.as_str());
            let len = byte_len(tc.as_slice());
            let orig = byte_len(str_chars(lines[i].as_str()).as_slice());
            if len > usize::MAX - n || len > usize::MAX - w {
                return false;
            }
            proof {
                pieces = pieces.push(t@);
            }
            if tc.len() > 0 && tc[tc.len() - 1] == '\n' {
                proof {
                    crate::text::lemma_utf8_len_first(tc@);
                }
                nl = nl + 1;
            }
            tr = tr || len != orig;
            n = n + len;
            w = w + len;
            i = i + 1;
        }
        true
    }

    /// Writes text line by line, each line cut to the bytes left (and to the line limit) and
    /// ending in the marker when cut; stops once full. Returns the bytes written.
    pub fn write(&mut self, text: &str) -> (r: usize)
        requires
            old(self).wf(),
            write_from(old(self).state(), lines_keep_from(text@, 0, 0), 0, old(self).char_limit() as nat, old(self).line_cap(), truncation_marker()) is Some,
        ensures
            final(self).wf(),
            final(self).char_limit() == old(self).char_limit(),
            final(self).line_cap() == old(self).line_cap(),
            final(self).display_view() == old(self).display_view(),
            ({
                let st = write_from(old(self).state(), lines_keep_from(text@, 0, 0), 0, old(self).char_limit() as nat, old(self).line_cap(), truncation_marker())->Some_0;
                &&& final(self).pieces() == st.pieces
                &&& final(self).chars_written() == st.n_chars
                &&& final(self).lines_written() == st.n_lines
                &&& final(self).truncated() == st.truncation
                &&& r == st.written
            }),
    {
        let lines = split_lines_keepends(text);
        let ghost lv = crate::utils::slashcmd::strings_view(lines@);
        let ghost st0 = self.state();
        let mut written: usize = 0;
        let mut i: usize = 0;
        while i < lines.len()
            invariant
                self.wf(),
                self.char_limit() == old(self).char_limit(),
                self.line_cap() == old(self).line_cap(),
                self.display_view() == old(self).display_view(),
                i <= lines@.len(),
                lv == crate::utils::slashcmd::strings_view(lines@),
                lv == lines_keep_from(text@, 0, 0),
                st0 == old(self).state(),
                write_from(st0, lv, 0, self.char_limit() as nat, self.line_cap(), truncation_marker()) is Some,
                write_from(st0, lv, 0, self.char_limit() as nat, self.line_cap(), truncation_marker())
                    == write_from(BuilderState { written: written as nat, ..self.state() }, lv, i as int, self.char_limit() as nat, self.line_cap(), truncation_marker()),
            ensures
                i >= lines@.len() || self.chars_written() >= self.char_limit(),
            decreases lines@.len() - i,
        {
            if self.n_chars >= self.max_chars {
                break;
            }
            let remaining = self.max_chars - self.n_chars;
            let limit = match self.max_line_length {
                Some(l) => if l < remaining {
                    l
                } else {
                    remaining
                },
                None => remaining,
            };
            let t = truncate_line(lines[i].as_str(), limit, self.marker.as_str());
            let tc = str_chars(t.as_str());
            let len = byte_len(tc.as_slice());
            let orig = byte_len(str_chars(lines[i].as_str()).as_slice());
            if len != orig {
                self.truncation = true;
            }
            let ends = tc.len() > 0 && tc[tc.len() - 1] == '\n';
            proof {
                if ends {
                    crate::text::lemma_utf8_len_first(tc@);
                }
            }
            let ghost b0 = self.buffer@;
            self.buffer.push(t);
            proof {
                assert(crate::utils::slashcmd::strings_view(self.buffer@) =~= crate::utils::slashcmd::strings_view(b0).push(tc@));
            }
            written = written + len;
            self.n_chars = self.n_chars + len;
            if ends {
                self.n_lines = self.n_lines + 1;
            }
            i = i + 1;
        }
        written
    }

    /// Adds blocks to show beside the output.
    pub fn display(&mut self, blocks: Vec<DisplayBlock>)
        ensures
            final(self).wf() == old(self).wf(),
            final(self).display_view() == old(self).display_view() + blocks_view(blocks@),
            final(self).pieces() == old(self).pieces(),
            final(self).chars_written() == old(self).chars_written(),
            final(self).lines_written() == old(self).lines_written(),
            final(self).truncated() == old(self).truncated(),
            final(self).char_limit() == old(self).char_limit(),
            final(self).line_cap() == old(self).line_cap(),
    {
        let mut i: usize = 0;
        while i < blocks.len()
            invariant
                i <= blocks@.len(),
                self.wf() == old(self).wf(),
                self.display_view() == old(self).display_view() + blocks_view(blocks@).take(i as int),
                self.pieces() == old(self).pieces(),
                self.chars_written() == old(self).chars_written(),
                self.lines_written() == old(self).lines_written(),
                self.truncated() == old(self).truncated(),
                self.char_limit() == old(self).char_limit(),
                self.line_cap() == old(self).line_cap(),
            decreases blocks@.len() - i,
        {
            let ghost d0 = self.display@;
            self.display.push(copy_block(&blocks[i]));
            proof {
                assert(blocks_view(self.display@) =~= blocks_view(d0).push(block_view_of(blocks@[i as int])));
                assert(blocks_view(blocks@).take(i + 1) =~= blocks_view(blocks@).take(i as int).push(
                    block_view_of(blocks@[i as int]),
                ));
            }
            i = i + 1;
        }
        assert(blocks_view(blocks@).take(blocks@.len() as int) =~= blocks_view(blocks@));
    }

    /// A successful result: the output written, the message ending in a period, a note when
    /// output was cut, and the summary before the other blocks.
    pub fn ok(&self, message: &str, brief: &str) -> (r: ToolReturnValue)
        ensures
            !r.is_error,
            output_text(r.output) == Some(crate::text::join_seqs(self.pieces(), Seq::empty())),
            r.message@ == with_truncation_note(with_period(message@), self.truncated()),
            blocks_view(r.display@) == brief_blocks(brief@) + self.display_view(),
            r.extras is None,
    {
        let mut m = str_chars(message);
        if m.len() > 0 && m[m.len() - 1] != '.' {
            m.push('.');
        }
        assert(m@ == with_period(message@));
        self.finish(false, m.as_slice(), brief)
    }

    /// A failed result: the output written, the message, a note when output was cut, and the
    /// summary before the other blocks.
    pub fn error(&self, message: &str, brief: &str) -> (r: ToolReturnValue)
        ensures
            r.is_error,
            output_text(r.output) == Some(crate::text::join_seqs(self.pieces(), Seq::empty())),
            r.message@ == with_truncation_note(message@, self.truncated()),
            blocks_view(r.display@) == brief_blocks(brief@) + self.display_view(),
            r.extras is None,
    {
        let m = str_chars(message);
        self.finish(true, m.as_slice(), brief)
    }

    fn finish(&self, is_error: bool, message: &[char], brief: &str) -> (r: ToolReturnValue)
        ensures
            r.is_error == is_error,
            output_text(r.output) == Some(crate::text::join_seqs(self.pieces(), Seq::empty())),
            r.message@ == with_truncation_note(message@, self.truncated()),
            blocks_view(r.display@) == brief_blocks(brief@) + self.display_view(),
            r.extras is None,
    {
        let mut out: Vec<char> = Vec::new();
        let mut i: usize = 0;
        while i < self.buffer.len()
            invariant
                i <= self.buffer@.len(),
                out@ == crate::text::join_seqs(self.pieces().take(i as int), Seq::empty()),
            decreases self.buffer@.len() - i,
        {
            let piece = str_chars(self.buffer[i].as_str());
            crate::text::append_chars(&mut out, piece.as_slice());
            proof {
                let t = self.pieces().take(i + 1);
                assert(t.drop_last() =~= self.pieces().take(i as int));
                lemma_join_empty_push(self.pieces().take(i as int), piece@);
                assert(self.pieces().take(i as int).push(piece@) =~= t);
            }
            i = i + 1;
        }
        assert(self.pieces().take(self.buffer@.len() as int) =~= self.pieces());
        let mut msg: Vec<char> = crate::text::copy_chars(message);
        if self.truncation {
            let note = str_chars("Output is truncated to fit in the message.");
            if msg.len() == 0 {
                msg = note;
            } else {
                msg.push(' ');
                crate::text::append_chars(&mut msg, note.as_slice());
            }
        }
        proof {
            reveal_strlit("Output is truncated to fit in the message.");
            reveal_strlit(" ");
        }
        let mut display: Vec<DisplayBlock> = Vec::new();
        if !brief.is_empty() {
            display.push(DisplayBlock::Brief(owned(brief)));
        }
        assert(blocks_view(display@) =~= brief_blocks(brief@));
        let mut j: usize = 0;
        while j < self.display.len()
            invariant
                j <= self.display@.len(),
                blocks_view(display@) == brief_blocks(brief@) + blocks_view(self.display@).take(j as int),
            decreases self.display@.len() - j,
        {
            let ghost d0 = display@;
            display.push(copy_block(&self.display[j]));
            proof {
                assert(blocks_view(display@) =~= blocks_view(d0).push(block_view_of(self.display@[j as int])));
                assert(blocks_view(self.display@).take(j + 1) =~= blocks_view(self.display@).take(j as int).push(
                    block_view_of(self.display@[j as int]),
                ));
            }
            j = j + 1;
        }
        assert(blocks_view(self.display@).take(self.display@.len() as int) =~= blocks_view(self.display@));
        ToolReturnValue {
            is_error,
            output: ToolOutput::Text(string_from_chars(out.as_slice())),
            message: string_from_chars(msg.as_slice()),
            display,
            extras: None,
        }
    }
}

/// The byte limit of a builder made with the defaults.
pub const DEFAULT_MAX_CHARS: usize = 50000;

/// The line limit of a builder made with the defaults.
pub const DEFAULT_MAX_LINE_LENGTH: usize = 2000;

impl Default for ToolResultBuilder {
    fn default() -> (r: ToolResultBuilder)
        ensures
            r.wf(),
            r.char_limit() == DEFAULT_MAX_CHARS,
            r.line_cap() == Some(DEFAULT_MAX_LINE_LENGTH),
            r.pieces().len() == 0,
            r.chars_written() == 0,
            r.lines_written() == 0,
            !r.truncated(),
            r.display_view().len() == 0,
    {
        ToolResultBuilder::new(DEFAULT_MAX_CHARS, Some(DEFAULT_MAX_LINE_LENGTH))
    }
}

/// The view of one block, as `blocks_view` takes it.
pub open spec fn block_view_of(b: DisplayBlock) -> (nat, Seq<char>, Seq<char>, Seq<char>) {
    crate::tools::block_view(b)
}

proof fn lemma_join_empty_push(parts: Seq<Seq<char>>, x: Seq<char>)
    ensures
        crate::text::join_seqs(parts.push(x), Seq::empty()) == crate::text::join_seqs(parts, Seq::empty()) + x,
{
    assert(parts.push(x).drop_last() =~= parts);
    if parts.len() == 0 {
        assert(crate::text::join_seqs(parts, Seq::empty()) =~= Seq::<char>::empty());
        assert(Seq::<char>::empty() + x =~= x);
    } else {
        assert(crate::text::join_seqs(parts, Seq::empty()) + Seq::<char>::empty() =~= crate::text::join_seqs(parts, Seq::empty()));
    }
}

/// A message that ends in a period, unless it is empty.
pub open spec fn with_period(m: Seq<char>) -> Seq<char> {
    if m.len() > 0 && m.last() != '.' {
        m.push('.')
    } else {
        m
    }
}

/// A message with the note that output was cut, when it was.
pub open spec fn with_truncation_note(m: Seq<char>, truncated: bool) -> Seq<char> {
    if !truncated {
        m
    } else if m.len() == 0 {
        "Output is truncated to fit in the message."@
    } else {
        m + " "@ + "Output is truncated to fit in the message."@
    }
}

/// The result of a call that the user rejected.
pub fn tool_rejected_error() -> (r: ToolReturnValue)
    ensures
        r.is_error,
        output_text(r.output) == Some(Seq::<char>::empty()),
        r.message@ == "The tool call is rejected by the user. Please follow the new instructions from the user."@,
        blocks_view(r.display@) == brief_blocks("Rejected by user"@),
        brief_of(blocks_view(r.display@)) == "Rejected by user"@,
        r.extras is None,
{
    proof {
        reveal_strlit("Rejected by user");
        reveal_strlit("");
    }
    crate::tools::tool_error(
        "",
        "The tool call is rejected by the user. Please follow the new instructions from the user.",
        "Rejected by user",
    )
}

/// Whether a result is the one a rejected call returns: an error whose summary says so.
pub fn is_tool_rejected(return_value: &ToolReturnValue) -> (r: bool)
    ensures
        r == (return_value.is_error && brief_of(blocks_view(return_value.display@)) == "Rejected by user"@),
{
    if !return_value.is_error {
        return false;
    }
    let b = return_value.brief();
    crate::text::str_eq(b.as_str(), "Rejected by user")
}

/// A rejected call's result is recognized as rejected.
pub proof fn lemma_rejected_is_recognized(r: ToolReturnValue)
    requires
        r.is_error,
        blocks_view(r.display@) == brief_blocks("Rejected by user"@),
    ensures
        r.is_error && brief_of(blocks_view(r.display@)) == "Rejected by user"@,
{
    reveal_strlit("Rejected by user");
    let bs = blocks_view(r.display@);
    assert(bs.len() == 1 && bs[0].0 == 0);
}

} // verus!
