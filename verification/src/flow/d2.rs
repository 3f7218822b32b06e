//! Flow charts written in the D2 diagram language.
use vstd::prelude::*;

use crate::flow::{adj_view, defs_view, AdjV, FlowEdge, FlowV, NodeDef, NodeV};
use crate::text::{
    byte_char, byte_cut, chars_eq_str, cut_at_byte, is_ws, latin1, lemma_vv_push, owned, push_chars, slice_chars,
    str_chars, string_from_chars, trim, trim_chars, utf8_bytes, vv,
};

verus! {

// ----- quote-aware scanning -----

/// Index of the first `tok` outside quotes, scanning from `i` in the given quote state. A
/// backslash inside quotes escapes the next character.
pub open spec fn unquoted_index(t: Seq<char>, tok: char, i: int, sq: bool, dq: bool, esc: bool) -> Option<int>
    decreases t.len() - i,
{
    if i >= t.len() || i < 0 {
        None
    } else {
        let ch = t[i];
        if esc {
            unquoted_index(t, tok, i + 1, sq, dq, false)
        } else if ch == '\\' && (sq || dq) {
            unquoted_index(t, tok, i + 1, sq, dq, true)
        } else if ch == '\'' && !dq {
            unquoted_index(t, tok, i + 1, !sq, dq, false)
        } else if ch == '"' && !sq {
            unquoted_index(t, tok, i + 1, sq, !dq, false)
        } else if ch == tok && !sq && !dq {
            Some(i)
        } else {
            unquoted_index(t, tok, i + 1, sq, dq, false)
        }
    }
}

proof fn lemma_unquoted_index_range(t: Seq<char>, tok: char, i: int, sq: bool, dq: bool, esc: bool)
    requires
        0 <= i,
    ensures
        match unquoted_index(t, tok, i, sq, dq, esc) {
            Some(k) => i <= k < t.len() && t[k] == tok,
            None => true,
        },
    decreases t.len() - i,
{
    if i < t.len() {
        let ch = t[i];
        if esc {
            lemma_unquoted_index_range(t, tok, i + 1, sq, dq, false);
        } else if ch == '\\' && (sq || dq) {
            lemma_unquoted_index_range(t, tok, i + 1, sq, dq, true);
        } else if ch == '\'' && !dq {
            lemma_unquoted_index_range(t, tok, i + 1, !sq, dq, false);
        } else if ch == '"' && !sq {
            lemma_unquoted_index_range(t, tok, i + 1, sq, !dq, false);
        } else if ch == tok && !sq && !dq {
        } else {
            lemma_unquoted_index_range(t, tok, i + 1, sq, dq, false);
        }
    }
}

/// The first index of `tok` outside quotes.
pub fn find_unquoted(t: &[char], tok: char) -> (r: Option<usize>)
    ensures
        match r {
            Some(k) => unquoted_index(t@, tok, 0, false, false, false) == Some(k as int) && k < t@.len(),
            None => unquoted_index(t@, tok, 0, false, false, false).is_none(),
        },
{
    let mut sq = false;
    let mut dq = false;
    let mut esc = false;
    let mut i: usize = 0;
    while i < t.len()
        invariant
            i <= t@.len(),
            unquoted_index(t@, tok, 0, false, false, false) == unquoted_index(t@, tok, i as int, sq, dq, esc),
        decreases t@.len() - i,
    {
        let ch = t[i];
        if esc {
            esc = false;
        } else if ch == '\\' && (sq || dq) {
            esc = true;
        } else if ch == '\'' && !dq {
            sq = !sq;
        } else if ch == '"' && !sq {
            dq = !dq;
        } else if ch == tok && !sq && !dq {
            return Some(i);
        }
        i = i + 1;
    }
    None
}

/// Splits at the first `tok` outside quotes; both sides are trimmed.
pub open spec fn split_once_spec(t: Seq<char>, tok: char) -> (Seq<char>, Option<Seq<char>>) {
    match unquoted_index(t, tok, 0, false, false, false) {
        Some(k) => (trim(t.take(k)), Some(trim(t.skip(k + 1)))),
        None => (trim(t), None),
    }
}

/// Splits text at the first `tok` that stands outside quotes.
pub fn split_unquoted_once(t: &[char], tok: char) -> (r: (Vec<char>, Option<Vec<char>>))
    ensures
        r.0@ == split_once_spec(t@, tok).0,
        match r.1 {
            Some(v) => split_once_spec(t@, tok).1 == Some(v@),
            None => split_once_spec(t@, tok).1.is_none(),
        },
{
    match find_unquoted(t, tok) {
        Some(k) => {
            let n = t.len();
            assert(k < n);
            let left = slice_chars(t, 0, k);
            let right = slice_chars(t, k + 1, n);
            assert(left@ == t@.take(k as int));
            assert(right@ == t@.skip(k + 1));
            (trim_chars(left.as_slice()), Some(trim_chars(right.as_slice())))
        },
        None => (trim_chars(t), None),
    }
}

/// What stripping an unquoted `#` comment keeps: the text up to it. The cut is made at the
/// byte offset equal to the comment's character index; `None` when that offset does not start a
/// character, where slicing the string would fail.
pub open spec fn strip_comment_spec(t: Seq<char>) -> Option<Seq<char>> {
    match unquoted_index(t, '#', 0, false, false, false) {
        Some(k) => byte_cut(t, k),
        None => Some(t),
    }
}

/// Strips a `#` comment that stands outside quotes.
pub fn strip_unquoted_comment(t: &[char]) -> (r: Option<Vec<char>>)
    ensures
        match r {
            Some(v) => strip_comment_spec(t@) == Some(v@),
            None => strip_comment_spec(t@).is_none(),
        },
{
    match find_unquoted(t, '#') {
        Some(k) => cut_at_byte(t, k),
        None => Some(slice_chars(t, 0, t.len())),
    }
}

// ----- splitting on an unquoted token, byte by byte -----

/// Splits bytes at each `->` outside quotes; each part is trimmed after turning its bytes into
/// characters one for one. An unbalanced quote gives no parts.
pub open spec fn arrow_split(
    b: Seq<u8>,
    i: int,
    sq: bool,
    dq: bool,
    esc: bool,
    buf: Seq<u8>,
    parts: Seq<Seq<char>>,
) -> Seq<Seq<char>>
    decreases b.len() - i,
{
    if i >= b.len() || i < 0 {
        if sq || dq {
            Seq::empty()
        } else {
            parts.push(trim(latin1(buf)))
        }
    } else if !sq && !dq && i + 1 < b.len() && b[i] == 0x2d && b[i + 1] == 0x3e {
        arrow_split(b, i + 2, sq, dq, esc, Seq::empty(), parts.push(trim(latin1(buf))))
    } else {
        let ch = b[i];
        if esc {
            arrow_split(b, i + 1, sq, dq, false, buf.push(ch), parts)
        } else if ch == 0x5c && (sq || dq) {
            arrow_split(b, i + 1, sq, dq, true, buf.push(ch), parts)
        } else if ch == 0x27 && !dq {
            arrow_split(b, i + 1, !sq, dq, false, buf.push(ch), parts)
        } else if ch == 0x22 && !sq {
            arrow_split(b, i + 1, sq, !dq, false, buf.push(ch), parts)
        } else {
            arrow_split(b, i + 1, sq, dq, false, buf.push(ch), parts)
        }
    }
}

fn latin1_vec(b: &Vec<u8>) -> (r: Vec<char>)
    ensures
        r@ == latin1(b@),
{
    let mut r: Vec<char> = Vec::new();
    let mut i: usize = 0;
    while i < b.len()
        invariant
            i <= b@.len(),
            r@ == latin1(b@.take(i as int)),
        decreases b@.len() - i,
    {
        r.push(byte_char(b[i]));
        i = i + 1;
        assert(r@ =~= latin1(b@.take(i as int)));
    }
    assert(b@.take(b@.len() as int) =~= b@);
    r
}

/// Splits bytes at each `->` that stands outside quotes.
pub fn split_on_arrow(b: &[u8]) -> (r: Vec<Vec<char>>)
    ensures
        vv(r@) == arrow_split(b@, 0, false, false, false, Seq::empty(), Seq::empty()),
{
    let mut parts: Vec<Vec<char>> = Vec::new();
    let mut buf: Vec<u8> = Vec::new();
    let mut sq = false;
    let mut dq = false;
    let mut esc = false;
    let mut i: usize = 0;
    let n = b.len();
    assert(vv(parts@) =~= Seq::<Seq<char>>::empty());
    assert(buf@ =~= Seq::<u8>::empty());
    while i < n
        invariant
            n == b@.len(),
            i <= n,
            arrow_split(b@, 0, false, false, false, Seq::empty(), Seq::empty()) == arrow_split(
                b@,
                i as int,
                sq,
                dq,
                esc,
                buf@,
                vv(parts@),
            ),
        decreases n - i,
    {
        if !sq && !dq && i + 1 < n && b[i] == 0x2d && b[i + 1] == 0x3e {
            let l = latin1_vec(&buf);
            let ghost old_parts = parts@;
            parts.push(trim_chars(l.as_slice()));
            assert(vv(parts@) =~= old_parts.map_values(|v: Vec<char>| v@).push(trim(latin1(buf@))));
            buf = Vec::new();
            i = i + 2;
            continue;
        }
        let ch = b[i];
        if esc {
            esc = false;
        } else if ch == 0x5c && (sq || dq) {
            esc = true;
        } else if ch == 0x27 && !dq {
            sq = !sq;
        } else if ch == 0x22 && !sq {
            dq = !dq;
        }
        buf.push(ch);
        i = i + 1;
    }
    if sq || dq {
        return Vec::new();
    }
    let l = latin1_vec(&buf);
    let ghost old_parts = parts@;
    parts.push(trim_chars(l.as_slice()));
    assert(vv(parts@) =~= old_parts.map_values(|v: Vec<char>| v@).push(trim(latin1(buf@))));
    parts
}

// ----- markdown blocks -----

/// The number of leading spaces and tabs.
pub open spec fn lead_ws(s: Seq<char>) -> nat
    decreases s.len(),
{
    if s.len() > 0 && (s[0] == ' ' || s[0] == '\t') {
        1 + lead_ws(s.drop_first())
    } else {
        0
    }
}

/// The smallest indentation among the lines, from index `i` on, that are not blank.
pub open spec fn min_indent(lines: Seq<Seq<char>>, i: int, acc: Option<nat>) -> Option<nat>
    decreases lines.len() - i,
{
    if i >= lines.len() || i < 0 {
        acc
    } else if trim(lines[i]).len() == 0 {
        min_indent(lines, i + 1, acc)
    } else {
        let lead = lead_ws(lines[i]);
        min_indent(
            lines,
            i + 1,
            Some(
                match acc {
                    Some(a) => if a < lead {
                        a
                    } else {
                        lead
                    },
                    None => lead,
                },
            ),
        )
    }
}

/// A line with its first `indent` bytes removed: empty when it is shorter, `None` when byte
/// `indent` does not start a character.
pub open spec fn dedent_line(line: Seq<char>, indent: nat) -> Option<Seq<char>> {
    if crate::text::utf8_len(line) >= indent {
        match byte_cut(line, indent as int) {
            Some(p) => Some(line.skip(p.len() as int)),
            None => None,
        }
    } else {
        Some(Seq::empty())
    }
}

/// The lines of a markdown block without their common indentation; `None` when a line cannot
/// be cut at that byte offset.
pub open spec fn dedent_spec(lines: Seq<Seq<char>>) -> Option<Seq<Seq<char>>> {
    match min_indent(lines, 0, None) {
        None => Some(Seq::new(lines.len(), |i: int| Seq::<char>::empty())),
        Some(indent) => if forall|i: int| 0 <= i < lines.len() ==> #[trigger] dedent_line(lines[i], indent) is Some {
            Some(Seq::new(lines.len(), |i: int| dedent_line(lines[i], indent).unwrap()))
        } else {
            None
        },
    }
}

fn lead_ws_of(s: &[char]) -> (r: usize)
    ensures
        r == lead_ws(s@),
        r <= s@.len(),
{
    let mut i: usize = 0;
    assert(s@.skip(0) =~= s@);
    while i < s.len() && (s[i] == ' ' || s[i] == '\t')
        invariant
            i <= s@.len(),
            lead_ws(s@) == i + lead_ws(s@.skip(i as int)),
        decreases s@.len() - i,
    {
        assert(s@.skip(i as int).drop_first() =~= s@.skip(i + 1));
        i = i + 1;
    }
    if i < s.len() {
        assert(s@.skip(i as int)[0] == s@[i as int]);
    } else {
        assert(s@.skip(i as int).len() == 0);
    }
    i
}

fn dedent_block(lines: &Vec<Vec<char>>) -> (r: Option<Vec<Vec<char>>>)
    ensures
        match r {
            Some(v) => dedent_spec(vv(lines@)) == Some(vv(v@)),
            None => dedent_spec(vv(lines@)).is_none(),
        },
{
    let ghost lv = vv(lines@);
    let mut indent: Option<usize> = None;
    let mut i: usize = 0;
    while i < lines.len()
        invariant
            i <= lines@.len(),
            lv == vv(lines@),
            min_indent(lv, 0, None) == min_indent(lv, i as int, match indent {
                Some(x) => Some(x as nat),
                None => None,
            }),
            match indent {
                Some(x) => x <= usize::MAX,
                None => true,
            },
        decreases lines@.len() - i,
    {
        let t = trim_chars(lines[i].as_slice());
        if t.len() != 0 {
            let lead = lead_ws_of(lines[i].as_slice());
            indent = Some(
                match indent {
                    Some(a) => if a < lead {
                        a
                    } else {
                        lead
                    },
                    None => lead,
                },
            );
        }
        i = i + 1;
    }
    let indent = match indent {
        Some(x) => x,
        None => {
            let mut out: Vec<Vec<char>> = Vec::new();
            let mut j: usize = 0;
            while j < lines.len()
                invariant
                    j <= lines@.len(),
                    out@.len() == j,
                    forall|k: int| 0 <= k < j ==> (#[trigger] out@[k])@ == Seq::<char>::empty(),
                decreases lines@.len() - j,
            {
                out.push(Vec::new());
                j = j + 1;
            }
            assert(vv(out@) =~= Seq::new(lv.len(), |i: int| Seq::<char>::empty()));
            return Some(out);
        },
    };
    let mut out: Vec<Vec<char>> = Vec::new();
    let mut j: usize = 0;
    while j < lines.len()
        invariant
            j <= lines@.len(),
            lv == vv(lines@),
            min_indent(lv, 0, None) == Some(indent as nat),
            out@.len() == j,
            forall|k: int| 0 <= k < j ==> dedent_line(lv[k], indent as nat) == Some((#[trigger] out@[k])@),
        decreases lines@.len() - j,
    {
        let line = lines[j].as_slice();
        if crate::text::utf8_len_at_least(line, indent) {
            match cut_at_byte(line, indent) {
                Some(p) => {
                    out.push(slice_chars(line, p.len(), line.len()));
                },
                None => {
                    assert(dedent_line(lv[j as int], indent as nat) is None);
                    return None;
                },
            }
        } else {
            out.push(Vec::new());
        }
        j = j + 1;
    }
    assert forall|i: int| 0 <= i < lv.len() implies #[trigger] dedent_line(lv[i], indent as nat) is Some by {
        assert(dedent_line(lv[i], indent as nat) == Some(out@[i]@));
    }
    assert(vv(out@) =~= Seq::new(lv.len(), |i: int| dedent_line(lv[i], indent as nat).unwrap()));
    Some(out)
}

/// A line with backslashes and double quotes escaped by a backslash.
pub open spec fn escape_spec(s: Seq<char>) -> Seq<char>
    decreases s.len(),
{
    if s.len() == 0 {
        Seq::empty()
    } else {
        let c = s.last();
        escape_spec(s.drop_last()) + if c == '\\' {
            seq!['\\', '\\']
        } else if c == '"' {
            seq!['\\', '"']
        } else {
            seq![c]
        }
    }
}

fn escape_quoted_line(s: &[char]) -> (r: Vec<char>)
    ensures
        r@ == escape_spec(s@),
{
    let mut r: Vec<char> = Vec::new();
    let mut i: usize = 0;
    while i < s.len()
        invariant
            i <= s@.len(),
            r@ == escape_spec(s@.take(i as int)),
        decreases s@.len() - i,
    {
        let c = s[i];
        assert(s@.take(i as int + 1).drop_last() =~= s@.take(i as int));
        if c == '\\' {
            r.push('\\');
            r.push('\\');
        } else if c == '"' {
            r.push('\\');
            r.push('"');
        } else {
            r.push(c);
        }
        i = i + 1;
        assert(r@ =~= escape_spec(s@.take(i as int)));
    }
    assert(s@.take(s@.len() as int) =~= s@);
    r
}

/// Line endings normalised: `\r\n` and a lone `\r` both become `\n`.
pub open spec fn newline_norm(s: Seq<char>) -> Seq<char>
    decreases s.len(),
{
    if s.len() == 0 {
        Seq::empty()
    } else if s.len() >= 2 && s[0] == '\r' && s[1] == '\n' {
        seq!['\n'] + newline_norm(s.skip(2))
    } else if s[0] == '\r' {
        seq!['\n'] + newline_norm(s.skip(1))
    } else {
        seq![s[0]] + newline_norm(s.skip(1))
    }
}

/// Normalises line endings.
pub fn normalize_newlines(s: &[char]) -> (r: Vec<char>)
    ensures
        r@ == newline_norm(s@),
{
    let mut r: Vec<char> = Vec::new();
    let mut i: usize = 0;
    let n = s.len();
    assert(s@.skip(0) =~= s@);
    while i < n
        invariant
            n == s@.len(),
            i <= n,
            r@ + newline_norm(s@.skip(i as int)) == newline_norm(s@),
        decreases n - i,
    {
        let ghost rest = s@.skip(i as int);
        if s[i] == '\r' && i + 1 < n && s[i + 1] == '\n' {
            r.push('\n');
            assert(rest.skip(2) =~= s@.skip(i + 2));
            i = i + 2;
        } else if s[i] == '\r' {
            r.push('\n');
            assert(rest.skip(1) =~= s@.skip(i + 1));
            i = i + 1;
        } else {
            r.push(s[i]);
            assert(rest.skip(1) =~= s@.skip(i + 1));
            i = i + 1;
        }
        assert(r@ + newline_norm(s@.skip(i as int)) =~= newline_norm(s@));
    }
    assert(s@.skip(n as int) =~= Seq::<char>::empty());
    assert(r@ + Seq::<char>::empty() =~= r@);
    r
}

/// The index of the first line at or after `j` that reads `|` once trimmed, or the count of
/// lines.
pub open spec fn block_end(lines: Seq<Seq<char>>, j: int) -> int
    decreases lines.len() - j,
{
    if j >= lines.len() || j < 0 {
        lines.len() as int
    } else if trim(lines[j]) == seq!['|'] {
        j
    } else {
        block_end(lines, j + 1)
    }
}

/// The lines that stand for a markdown block that was not empty: the first carries the key and
/// an opening quote, the last a closing quote, and two empty lines follow.
pub open spec fn block_lines(prefix: Seq<char>, escaped: Seq<Seq<char>>) -> Seq<Seq<char>> {
    let ls = seq![prefix + ": \""@ + escaped[0]] + escaped.skip(1);
    ls.update(ls.len() - 1, ls.last() + "\""@) + seq![Seq::<char>::empty(), Seq::<char>::empty()]
}

/// Whether a line opens a `|md` block: an unquoted `:` followed by `|md` and nothing else but
/// an optional comment. `None` when the comment cannot be cut off.
pub open spec fn md_tag(line: Seq<char>) -> Option<bool> {
    match split_once_spec(line, ':').1 {
        None => Some(false),
        Some(suffix) => match strip_comment_spec(suffix) {
            None => None,
            Some(c) => Some(trim(c) == seq!['|', 'm', 'd']),
        },
    }
}

/// The lines of a D2 text, from index `i` on, with each `key: |md ... |` block turned into a
/// quoted string. `None` marks an input on which slicing would fail; `Err` an unclosed block.
pub open spec fn md_from(lines: Seq<Seq<char>>, i: int, out: Seq<Seq<char>>) -> Option<Result<Seq<Seq<char>>, Seq<char>>>
    decreases lines.len() - i,
{
    if i >= lines.len() || i < 0 {
        Some(Ok(out))
    } else {
        let line = lines[i];
        match md_tag(line) {
            None => None,
            Some(false) => md_from(lines, i + 1, out.push(line)),
            Some(true) => {
                let e = block_end(lines, i + 1);
                proof {
                    lemma_block_end_bounds(lines, i + 1);
                }
                if e >= lines.len() {
                    Some(Err(crate::flow::line_msg((i + 1) as nat, "Unclosed markdown block"@)))
                } else {
                    let prefix = split_once_spec(line, ':').0;
                    match dedent_spec(lines.subrange(i + 1, e)) {
                        None => None,
                        Some(d) => if d.len() > 0 {
                            md_from(lines, e + 1, out + block_lines(prefix, d.map_values(|l: Seq<char>| escape_spec(l))))
                        } else {
                            md_from(lines, e + 1, out + seq![prefix + ": \"\""@, Seq::<char>::empty()])
                        },
                    }
                }
            },
        }
    }
}

/// The D2 text with its markdown blocks turned into quoted strings.
pub open spec fn md_norm_spec(text: Seq<char>) -> Option<Result<Seq<char>, Seq<char>>> {
    match md_from(crate::text::split_char(newline_norm(text), '\n'), 0, Seq::empty()) {
        None => None,
        Some(Err(m)) => Some(Err(m)),
        Some(Ok(out)) => Some(Ok(crate::text::join_seqs(out, seq!['\n']))),
    }
}

pub proof fn lemma_block_end_bounds(lines: Seq<Seq<char>>, j: int)
    requires
        j >= 0,
    ensures
        j <= block_end(lines, j) <= lines.len() || (j > lines.len() && block_end(lines, j) == lines.len()),
    decreases lines.len() - j,
{
    if j < lines.len() && trim(lines[j]) != seq!['|'] {
        lemma_block_end_bounds(lines, j + 1);
    }
}

fn md_tag_of(line: &[char]) -> (r: Option<bool>)
    ensures
        r == md_tag(line@),
{
    let (_, suffix) = split_unquoted_once(line, ':');
    match suffix {
        None => Some(false),
        Some(sfx) => match strip_unquoted_comment(sfx.as_slice()) {
            None => None,
            Some(c) => {
                let t = trim_chars(c.as_slice());
                let tag = vec!['|', 'm', 'd'];
                assert(tag@ =~= seq!['|', 'm', 'd']);
                Some(crate::text::chars_eq(t.as_slice(), tag.as_slice()))
            },
        },
    }
}

/// The outcome of turning markdown blocks into strings: the text, an error message, or `Stop`
/// where slicing a string would fail.
pub enum Normalized {
    Text(Vec<char>),
    Error(String),
    Stop,
}

/// Turns each `key: |md ... |` block of a D2 text into a quoted string.
pub fn normalize_markdown_blocks(text: &[char]) -> (r: Normalized)
    ensures
        match r {
            Normalized::Text(t) => md_norm_spec(text@) == Some(Ok::<Seq<char>, Seq<char>>(t@)),
            Normalized::Error(m) => md_norm_spec(text@) == Some(Err::<Seq<char>, Seq<char>>(m@)),
            Normalized::Stop => md_norm_spec(text@).is_none(),
        },
{
    let normalized = normalize_newlines(text);
    let lines = crate::text::split_chars(normalized.as_slice(), '\n');
    let ghost lv = vv(lines@);
    let mut out: Vec<Vec<char>> = Vec::new();
    let mut i: usize = 0;
    assert(vv(out@) =~= Seq::<Seq<char>>::empty());
    while i < lines.len()
        invariant
            i <= lines@.len(),
            lv == vv(lines@),
            lv == crate::text::split_char(newline_norm(text@), '\n'),
            md_from(lv, 0, Seq::empty()) == md_from(lv, i as int, vv(out@)),
        decreases lines@.len() - i,
    {
        let line = lines[i].as_slice();
        let ghost ov = vv(out@);
        assert(line@ == lv[i as int]);
        match md_tag_of(line) {
            None => {
                assert(md_from(lv, i as int, vv(out@)).is_none());
                assert(lv == crate::text::split_char(newline_norm(text@), '\n'));
                return Normalized::Stop;
            },
            Some(false) => {
                let ghost ob = out@;
                let c = crate::text::copy_chars(line);
                out.push(c);
                proof {
                    lemma_vv_push(ob, c);
                }
                i = i + 1;
            },
            Some(true) => {
                let start_line = i + 1;
                let mut j = i + 1;
                proof {
                    lemma_block_end_bounds(lv, i + 1);
                }
                while j < lines.len() && !is_bar(lines[j].as_slice())
                    invariant
                        i < j <= lines@.len(),
                        lv == vv(lines@),
                        block_end(lv, i + 1) == block_end(lv, j as int),
                    decreases lines@.len() - j,
                {
                    j = j + 1;
                }
                if j >= lines.len() {
                    return Normalized::Error(crate::flow::line_error(start_line, "Unclosed markdown block"));
                }
                assert(j == block_end(lv, i + 1));
                let (prefix, _) = split_unquoted_once(line, ':');
                let mut block: Vec<Vec<char>> = Vec::new();
                let mut k = i + 1;
                while k < j
                    invariant
                        i < k <= j < lines@.len(),
                        lv == vv(lines@),
                        vv(block@) == lv.subrange(i + 1, k as int),
                    decreases j - k,
                {
                    let ghost bb = block@;
                    let c = crate::text::copy_chars(lines[k].as_slice());
                    block.push(c);
                    proof {
                        lemma_vv_push(bb, c);
                    }
                    k = k + 1;
                    assert(vv(block@) =~= lv.subrange(i + 1, k as int));
                }
                assert(vv(block@) == lv.subrange(i + 1, j as int));
                match dedent_block(&block) {
                    None => {
                        return Normalized::Stop;
                    },
                    Some(d) => {
                        if d.len() > 0 {
                            let mut first = prefix.clone();
                            let q = vec![':', ' ', '"'];
                            crate::text::append_chars(&mut first, q.as_slice());
                            let e0 = escape_quoted_line(d[0].as_slice());
                            crate::text::append_chars(&mut first, e0.as_slice());
                            let ghost esc = vv(d@).map_values(|l: Seq<char>| escape_spec(l));
                            proof {
                                reveal_strlit(": \"");
                                reveal_strlit("\"");
                                assert(q@ =~= ": \""@);
                                assert(first@ =~= prefix@ + ": \""@ + esc[0]);
                            }
                            let ghost full = seq![prefix@ + ": \""@ + esc[0]] + esc.skip(1);
                            let mut ls: Vec<Vec<char>> = Vec::new();
                            let ghost l0 = ls@;
                            ls.push(first);
                            proof {
                                lemma_vv_push(l0, first);
                                assert(vv(ls@) =~= full.take(1));
                            }
                            let mut m: usize = 1;
                            while m < d.len()
                                invariant
                                    1 <= m <= d@.len(),
                                    ls@.len() == m,
                                    esc == vv(d@).map_values(|l: Seq<char>| escape_spec(l)),
                                    full == seq![prefix@ + ": \""@ + esc[0]] + esc.skip(1),
                                    vv(ls@) == full.take(m as int),
                                decreases d@.len() - m,
                            {
                                let ghost lb = ls@;
                                let e = escape_quoted_line(d[m].as_slice());
                                ls.push(e);
                                proof {
                                    lemma_vv_push(lb, e);
                                }
                                m = m + 1;
                                assert(vv(ls@) =~= full.take(m as int));
                            }
                            assert(vv(ls@) =~= full);
                            let last_idx = ls.len() - 1;
                            let mut last = crate::text::copy_chars(ls[last_idx].as_slice());
                            last.push('"');
                            let ghost lb2 = ls@;
                            proof {
                                reveal_strlit("\"");
                                assert("\""@ =~= seq!['"']);
                                assert(last@ =~= full.last() + "\""@);
                            }
                            ls.set(last_idx, last);
                            assert(vv(ls@) =~= full.update(full.len() - 1, full.last() + "\""@));
                            let e1: Vec<char> = Vec::new();
                            let e2: Vec<char> = Vec::new();
                            let ghost lb3 = ls@;
                            ls.push(e1);
                            proof {
                                lemma_vv_push(lb3, e1);
                            }
                            let ghost lb4 = ls@;
                            ls.push(e2);
                            proof {
                                lemma_vv_push(lb4, e2);
                                assert(vv(ls@) =~= block_lines(prefix@, esc));
                            }
                            let ghost before = vv(out@);
                            let mut t: usize = 0;
                            while t < ls.len()
                                invariant
                                    t <= ls@.len(),
                                    vv(out@) == before + vv(ls@).take(t as int),
                                decreases ls@.len() - t,
                            {
                                let ghost ob = out@;
                                let c = crate::text::copy_chars(ls[t].as_slice());
                                out.push(c);
                                proof {
                                    lemma_vv_push(ob, c);
                                }
                                t = t + 1;
                                assert(vv(out@) =~= before + vv(ls@).take(t as int));
                            }
                            assert(vv(ls@).take(ls@.len() as int) =~= vv(ls@));
                        } else {
                            let mut first = prefix.clone();
                            let q = vec![':', ' ', '"', '"'];
                            crate::text::append_chars(&mut first, q.as_slice());
                            proof {
                                reveal_strlit(": \"\"");
                                assert(first@ =~= prefix@ + ": \"\""@);
                            }
                            out.push(first);
                            out.push(Vec::new());
                            assert(vv(out@) =~= ov + seq![prefix@ + ": \"\""@, Seq::<char>::empty()]);
                        }
                    },
                }
                i = j + 1;
            },
        }
    }
    let nl = vec!['\n'];
    assert(nl@ =~= seq!['\n']);
    assert(md_from(lv, i as int, vv(out@)) == Some(Ok::<Seq<Seq<char>>, Seq<char>>(vv(out@))));
    Normalized::Text(crate::text::join_chars(&out, nl.as_slice()))
}

fn is_bar(line: &[char]) -> (r: bool)
    ensures
        r == (trim(line@) == seq!['|']),
{
    let t = trim_chars(line);
    let bar = vec!['|'];
    assert(bar@ =~= seq!['|']);
    crate::text::chars_eq(t.as_slice(), bar.as_slice())
}

// ----- top-level statements -----

/// The index of the first newline at or after `i`, or the length.
pub open spec fn next_newline(c: Seq<char>, i: int) -> int
    decreases c.len() - i,
{
    if i >= c.len() || i < 0 {
        if i < 0 { 0 } else { i }
    } else if c[i] == '\n' {
        i
    } else {
        next_newline(c, i + 1)
    }
}

pub proof fn lemma_next_newline(c: Seq<char>, i: int)
    requires
        0 <= i,
    ensures
        i <= next_newline(c, i),
        i <= c.len() ==> next_newline(c, i) <= c.len(),
        next_newline(c, i) < c.len() ==> c[next_newline(c, i)] == '\n',
    decreases c.len() - i,
{
    if i < c.len() && c[i] != '\n' {
        lemma_next_newline(c, i + 1);
    }
}

/// A statement with the line it starts on.
pub type Stmt = (int, Seq<char>);

/// `stmts` with the trimmed buffer appended when it is not empty.
pub open spec fn flush(stmts: Seq<Stmt>, line: int, buf: Seq<char>) -> Seq<Stmt> {
    if trim(buf).len() == 0 {
        stmts
    } else {
        stmts.push((line, trim(buf)))
    }
}

/// Splits D2 text, from index `i` on, into its top-level statements: one per line outside
/// braces, with `#` comments dropped, backslash-newline joining lines, quoted strings spanning
/// lines, and the contents of `{ ... }` blocks skipped (as is the rest of the line that opens
/// one).
pub open spec fn stmts_from(
    c: Seq<char>,
    i: int,
    depth: int,
    sq: bool,
    dq: bool,
    esc: bool,
    drop: bool,
    buf: Seq<char>,
    line_no: int,
    stmt_line: int,
    stmts: Seq<Stmt>,
) -> Result<Seq<Stmt>, Seq<char>>
    decreases c.len() - i,
{
    if i >= c.len() || i < 0 {
        if depth != 0 {
            Err(crate::flow::line_msg(line_no as nat, "Unclosed '{' block"@))
        } else if sq || dq {
            Err(crate::flow::line_msg(line_no as nat, "Unclosed string"@))
        } else {
            Ok(flush(stmts, stmt_line, buf))
        }
    } else {
        let ch = c[i];
        if ch == '\\' && i + 1 < c.len() && c[i + 1] == '\n' {
            stmts_from(c, i + 2, depth, sq, dq, esc, drop, buf, line_no + 1, stmt_line, stmts)
        } else if ch == '\n' {
            if (sq || dq) && depth == 0 && !drop {
                stmts_from(c, i + 1, depth, sq, dq, esc, drop, buf.push('\n'), line_no + 1, stmt_line, stmts)
            } else {
                let s2 = if depth == 0 && !sq && !dq && !drop {
                    flush(stmts, stmt_line, buf)
                } else {
                    stmts
                };
                stmts_from(c, i + 1, depth, sq, dq, esc, false, Seq::empty(), line_no + 1, line_no + 1, s2)
            }
        } else if !sq && !dq && ch == '#' {
            let j = next_newline(c, i + 1);
            proof {
                lemma_next_newline(c, i + 1);
            }
            stmts_from(c, j, depth, sq, dq, esc, drop, buf, line_no, stmt_line, stmts)
        } else if !sq && !dq && ch == '{' {
            if depth == 0 {
                stmts_from(c, i + 1, depth + 1, sq, dq, esc, true, Seq::empty(), line_no, stmt_line, flush(stmts, stmt_line, buf))
            } else {
                stmts_from(c, i + 1, depth + 1, sq, dq, esc, drop, buf, line_no, stmt_line, stmts)
            }
        } else if !sq && !dq && ch == '}' && depth > 0 {
            stmts_from(c, i + 1, depth - 1, sq, dq, esc, drop, buf, line_no, stmt_line, stmts)
        } else if !sq && !dq && ch == '}' {
            Err(crate::flow::line_msg(line_no as nat, "Unmatched '}'"@))
        } else {
            let sq2 = if ch == '\'' && !dq && !esc { !sq } else { sq };
            let dq2 = if !(ch == '\'' && !dq && !esc) && ch == '"' && !sq && !esc { !dq } else { dq };
            let esc2 = if esc { false } else if ch == '\\' && (sq2 || dq2) { true } else { false };
            let buf2 = if depth == 0 && !drop { buf.push(ch) } else { buf };
            stmts_from(c, i + 1, depth, sq2, dq2, esc2, drop, buf2, line_no, stmt_line, stmts)
        }
    }
}

/// The statements of a D2 text, or the message of why it cannot be split.
pub open spec fn stmts_spec(text: Seq<char>) -> Result<Seq<Stmt>, Seq<char>> {
    stmts_from(newline_norm(text), 0, 0, false, false, false, false, Seq::empty(), 1, 1, Seq::empty())
}

/// A statement's text is trimmed and not empty: it starts and ends with a character that is
/// not white space.
pub open spec fn stmt_text_ok(t: Seq<char>) -> bool {
    t.len() > 0 && !is_ws(t[0]) && !is_ws(t[t.len() - 1])
}

/// Statements in source order: each trimmed and not empty, on a line from 1 on, and the lines
/// they start on never going back.
pub open spec fn stmts_in_order(ss: Seq<Stmt>) -> bool {
    &&& forall|k: int| 0 <= k < ss.len() ==> stmt_text_ok(#[trigger] ss[k].1) && ss[k].0 >= 1
    &&& forall|k: int, m: int| 0 <= k < m < ss.len() ==> #[trigger] ss[k].0 <= #[trigger] ss[m].0
}

proof fn lemma_flush_in_order(stmts: Seq<Stmt>, line: int, buf: Seq<char>)
    requires
        stmts_in_order(stmts),
        line >= 1,
        forall|k: int| 0 <= k < stmts.len() ==> (#[trigger] stmts[k]).0 <= line,
    ensures
        stmts_in_order(flush(stmts, line, buf)),
        forall|k: int| 0 <= k < flush(stmts, line, buf).len() ==> (#[trigger] flush(stmts, line, buf)[k]).0 <= line,
{
    crate::text::lemma_trim_edges(buf);
    let f = flush(stmts, line, buf);
    if trim(buf).len() > 0 {
        assert forall|k: int, m: int| 0 <= k < m < f.len() implies #[trigger] f[k].0 <= #[trigger] f[m].0 by {
            if m < stmts.len() {
                assert(f[k] == stmts[k] && f[m] == stmts[m]);
            } else {
                assert(f[k] == stmts[k]);
            }
        }
        assert forall|k: int| 0 <= k < f.len() implies stmt_text_ok(#[trigger] f[k].1) && f[k].0 >= 1 by {
            if k < stmts.len() {
                assert(f[k] == stmts[k]);
            }
        }
    }
}

proof fn lemma_stmts_from_in_order(
    c: Seq<char>,
    i: int,
    depth: int,
    sq: bool,
    dq: bool,
    esc: bool,
    drop: bool,
    buf: Seq<char>,
    line_no: int,
    stmt_line: int,
    stmts: Seq<Stmt>,
)
    requires
        stmts_in_order(stmts),
        1 <= stmt_line <= line_no,
        forall|k: int| 0 <= k < stmts.len() ==> (#[trigger] stmts[k]).0 <= stmt_line,
    ensures
        stmts_from(c, i, depth, sq, dq, esc, drop, buf, line_no, stmt_line, stmts) matches Ok(ss) ==> stmts_in_order(ss),
    decreases c.len() - i,
{
    if i >= c.len() || i < 0 {
        lemma_flush_in_order(stmts, stmt_line, buf);
    } else {
        let ch = c[i];
        if ch == '\\' && i + 1 < c.len() && c[i + 1] == '\n' {
            lemma_stmts_from_in_order(c, i + 2, depth, sq, dq, esc, drop, buf, line_no + 1, stmt_line, stmts);
        } else if ch == '\n' {
            if (sq || dq) && depth == 0 && !drop {
                lemma_stmts_from_in_order(c, i + 1, depth, sq, dq, esc, drop, buf.push('\n'), line_no + 1, stmt_line, stmts);
            } else {
                lemma_flush_in_order(stmts, stmt_line, buf);
                let s2 = if depth == 0 && !sq && !dq && !drop {
                    flush(stmts, stmt_line, buf)
                } else {
                    stmts
                };
                lemma_stmts_from_in_order(c, i + 1, depth, sq, dq, esc, false, Seq::empty(), line_no + 1, line_no + 1, s2);
            }
        } else if !sq && !dq && ch == '#' {
            let j = next_newline(c, i + 1);
            lemma_next_newline(c, i + 1);
            lemma_stmts_from_in_order(c, j, depth, sq, dq, esc, drop, buf, line_no, stmt_line, stmts);
        } else if !sq && !dq && ch == '{' {
            if depth == 0 {
                lemma_flush_in_order(stmts, stmt_line, buf);
                lemma_stmts_from_in_order(c, i + 1, depth + 1, sq, dq, esc, true, Seq::empty(), line_no, stmt_line, flush(stmts, stmt_line, buf));
            } else {
                lemma_stmts_from_in_order(c, i + 1, depth + 1, sq, dq, esc, drop, buf, line_no, stmt_line, stmts);
            }
        } else if !sq && !dq && ch == '}' && depth > 0 {
            lemma_stmts_from_in_order(c, i + 1, depth - 1, sq, dq, esc, drop, buf, line_no, stmt_line, stmts);
        } else if !sq && !dq && ch == '}' {
        } else {
            let sq2 = if ch == '\'' && !dq && !esc { !sq } else { sq };
            let dq2 = if !(ch == '\'' && !dq && !esc) && ch == '"' && !sq && !esc { !dq } else { dq };
            let esc2 = if esc { false } else if ch == '\\' && (sq2 || dq2) { true } else { false };
            let buf2 = if depth == 0 && !drop { buf.push(ch) } else { buf };
            lemma_stmts_from_in_order(c, i + 1, depth, sq2, dq2, esc2, drop, buf2, line_no, stmt_line, stmts);
        }
    }
}

/// The top-level statements of a D2 text come in source order: each is trimmed and not empty,
/// and the lines they start on never go back.
pub proof fn lemma_statements_in_order(text: Seq<char>)
    ensures
        stmts_spec(text) matches Ok(ss) ==> stmts_in_order(ss),
{
    lemma_stmts_from_in_order(newline_norm(text), 0, 0, false, false, false, false, Seq::empty(), 1, 1, Seq::empty());
}

/// The views of statements.
pub open spec fn stmts_view(v: Seq<(u128, Vec<char>)>) -> Seq<Stmt> {
    v.map_values(|p: (u128, Vec<char>)| (p.0 as int, p.1@))
}

pub proof fn lemma_newline_norm_len(s: Seq<char>)
    ensures
        newline_norm(s).len() <= s.len(),
    decreases s.len(),
{
    if s.len() >= 2 && s[0] == '\r' && s[1] == '\n' {
        lemma_newline_norm_len(s.skip(2));
    } else if s.len() > 0 {
        lemma_newline_norm_len(s.skip(1));
    }
}

fn flush_exec(stmts: &mut Vec<(u128, Vec<char>)>, line: u128, buf: &Vec<char>)
    ensures
        stmts_view(final(stmts)@) == flush(stmts_view(old(stmts)@), line as int, buf@),
{
    let t = trim_chars(buf.as_slice());
    if t.len() != 0 {
        let ghost before = stmts@;
        stmts.push((line, t));
        assert(stmts_view(stmts@) =~= stmts_view(before).push((line as int, trim(buf@))));
    }
}

/// Splits D2 text into its top-level statements, each with the line it starts on.
#[verifier::rlimit(60)]
pub fn iter_top_level_statements(text: &[char]) -> (r: Result<Vec<(u128, Vec<char>)>, String>)
    ensures
        match r {
            Ok(v) => stmts_spec(text@) == Ok::<Seq<Stmt>, Seq<char>>(stmts_view(v@)),
            Err(m) => stmts_spec(text@) == Err::<Seq<Stmt>, Seq<char>>(m@),
        },
{
    let c = normalize_newlines(text);
    proof {
        lemma_newline_norm_len(text@);
    }
    let n = c.len();
    let mut stmts: Vec<(u128, Vec<char>)> = Vec::new();
    let mut depth: usize = 0;
    let mut sq = false;
    let mut dq = false;
    let mut esc = false;
    let mut drop = false;
    let mut buf: Vec<char> = Vec::new();
    let mut line_no: u128 = 1;
    let mut stmt_line: u128 = 1;
    let mut i: usize = 0;
    assert(stmts_view(stmts@) =~= Seq::<Stmt>::empty());
    assert(buf@ =~= Seq::<char>::empty());
    while i < n
        invariant
            n == c@.len(),
            c@ == newline_norm(text@),
            i <= n,
            depth <= i,
            1 <= line_no <= i + 1,
            stmt_line <= line_no,
            stmts_spec(text@) == stmts_from(
                c@,
                i as int,
                depth as int,
                sq,
                dq,
                esc,
                drop,
                buf@,
                line_no as int,
                stmt_line as int,
                stmts_view(stmts@),
            ),
        decreases n - i,
    {
        let ch = c[i];
        if ch == '\\' && i + 1 < n && c[i + 1] == '\n' {
            i = i + 2;
            line_no = line_no + 1;
            continue;
        }
        if ch == '\n' {
            if (sq || dq) && depth == 0 && !drop {
                buf.push('\n');
                line_no = line_no + 1;
                i = i + 1;
                continue;
            }
            if depth == 0 && !sq && !dq && !drop {
                flush_exec(&mut stmts, stmt_line, &buf);
            }
            buf = Vec::new();
            drop = false;
            stmt_line = line_no + 1;
            line_no = line_no + 1;
            i = i + 1;
            assert(buf@ =~= Seq::<char>::empty());
            continue;
        }
        if !sq && !dq {
            if ch == '#' {
                let ghost start = i;
                proof {
                    lemma_next_newline(c@, i + 1);
                }
                while i < n && c[i] != '\n'
                    invariant
                        n == c@.len(),
                        c@ == newline_norm(text@),
                        start <= i <= n,
                        c@[start as int] == '#',
                        depth <= start,
                        1 <= line_no <= start + 1,
                        stmt_line <= line_no,
                        !sq && !dq,
                        next_newline(c@, i as int) == next_newline(c@, start + 1),
                        stmts_spec(text@) == stmts_from(
                            c@,
                            start as int,
                            depth as int,
                            sq,
                            dq,
                            esc,
                            drop,
                            buf@,
                            line_no as int,
                            stmt_line as int,
                            stmts_view(stmts@),
                        ),
                    decreases n - i,
                {
                    i = i + 1;
                }
                assert(next_newline(c@, i as int) == i);
                continue;
            }
            if ch == '{' {
                if depth == 0 {
                    flush_exec(&mut stmts, stmt_line, &buf);
                    drop = true;
                    buf = Vec::new();
                    assert(buf@ =~= Seq::<char>::empty());
                }
                depth = depth + 1;
                i = i + 1;
                continue;
            }
            if ch == '}' && depth > 0 {
                depth = depth - 1;
                i = i + 1;
                continue;
            }
            if ch == '}' && depth == 0 {
                return Err(crate::flow::line_error_wide(line_no, "Unmatched '}'"));
            }
        }
        if ch == '\'' && !dq && !esc {
            sq = !sq;
        } else if ch == '"' && !sq && !esc {
            dq = !dq;
        }
        if esc {
            esc = false;
        } else if ch == '\\' && (sq || dq) {
            esc = true;
        }
        if depth == 0 && !drop {
            buf.push(ch);
        }
        i = i + 1;
    }
    if depth != 0 {
        return Err(crate::flow::line_error_wide(line_no, "Unclosed '{' block"));
    }
    if sq || dq {
        return Err(crate::flow::line_error_wide(line_no, "Unclosed string"));
    }
    flush_exec(&mut stmts, stmt_line, &buf);
    Ok(stmts)
}

// ----- node ids and labels -----

/// A character that may start a node id.
pub open spec fn id_start_char(c: char) -> bool {
    ('A' <= c && c <= 'Z') || ('a' <= c && c <= 'z') || ('0' <= c && c <= '9') || c == '_'
}

/// A character that may continue a node id.
pub open spec fn id_char(c: char) -> bool {
    id_start_char(c) || c == '.' || c == '/' || c == '-'
}

/// Whether text is a whole node id: `[A-Za-z0-9_][A-Za-z0-9_./-]*`.
pub open spec fn valid_id(s: Seq<char>) -> bool {
    s.len() >= 1 && id_start_char(s[0]) && forall|i: int| 1 <= i < s.len() ==> #[trigger] id_char(s[i])
}

/// Node ids are exactly the texts matching `[A-Za-z0-9_][A-Za-z0-9_./-]*`: at least one
/// character, the first an ASCII letter, digit or `_`, the others ASCII letters, digits, `_`,
/// `.`, `/` or `-`.
pub proof fn lemma_valid_id_pattern(s: Seq<char>)
    ensures
        valid_id(s) <==> {
            &&& s.len() >= 1
            &&& ('A' <= s[0] <= 'Z') || ('a' <= s[0] <= 'z') || ('0' <= s[0] <= '9') || s[0] == '_'
            &&& forall|i: int|
                1 <= i < s.len() ==> ('A' <= #[trigger] s[i] <= 'Z') || ('a' <= s[i] <= 'z') || ('0' <= s[i] <= '9')
                    || s[i] == '_' || s[i] == '.' || s[i] == '/' || s[i] == '-'
        },
{
    if valid_id(s) {
        assert forall|i: int| 1 <= i < s.len() implies ('A' <= #[trigger] s[i] <= 'Z') || ('a' <= s[i] <= 'z') || ('0'
            <= s[i] <= '9') || s[i] == '_' || s[i] == '.' || s[i] == '/' || s[i] == '-' by {
            assert(id_char(s[i]));
        }
    }
    if s.len() >= 1 && (forall|i: int|
        1 <= i < s.len() ==> ('A' <= #[trigger] s[i] <= 'Z') || ('a' <= s[i] <= 'z') || ('0' <= s[i] <= '9') || s[i]
            == '_' || s[i] == '.' || s[i] == '/' || s[i] == '-') {
        assert forall|i: int| 1 <= i < s.len() implies #[trigger] id_char(s[i]) by {
            assert(('A' <= s[i] <= 'Z') || ('a' <= s[i] <= 'z') || ('0' <= s[i] <= '9') || s[i] == '_' || s[i] == '.'
                || s[i] == '/' || s[i] == '-');
        }
    }
}

fn is_valid_id(s: &[char]) -> (r: bool)
    ensures
        r == valid_id(s@),
{
    if s.len() == 0 {
        return false;
    }
    let c0 = s[0];
    if !(('A' <= c0 && c0 <= 'Z') || ('a' <= c0 && c0 <= 'z') || ('0' <= c0 && c0 <= '9') || c0 == '_') {
        return false;
    }
    let mut i: usize = 1;
    while i < s.len()
        invariant
            1 <= i <= s@.len(),
            forall|k: int| 1 <= k < i ==> #[trigger] id_char(s@[k]),
        decreases s@.len() - i,
    {
        let c = s[i];
        if !(('A' <= c && c <= 'Z') || ('a' <= c && c <= 'z') || ('0' <= c && c <= '9') || c == '_'
            || c == '.' || c == '/' || c == '-') {
            assert(!id_char(s@[i as int]));
            return false;
        }
        i = i + 1;
    }
    true
}

/// A node id read from text, or the message of why it is not one.
pub open spec fn node_id_spec(text: Seq<char>, line: nat, allow_inline_label: bool) -> Result<Seq<char>, Seq<char>> {
    let t = trim(text);
    let c = if allow_inline_label && crate::text::has_char(t, ':') {
        split_once_spec(t, ':').0
    } else {
        t
    };
    if c.len() == 0 {
        Err(crate::flow::line_msg(line, "Expected node id"@))
    } else if !valid_id(c) {
        Err(crate::flow::line_msg(line, "Invalid node id \""@ + c + "\""@))
    } else {
        Ok(c)
    }
}

/// Reads a node id; with `allow_inline_label`, an unquoted `:label` after it is dropped.
pub fn parse_node_id(text: &[char], line_no: u128, allow_inline_label: bool) -> (r: Result<Vec<char>, String>)
    ensures
        match r {
            Ok(v) => node_id_spec(text@, line_no as nat, allow_inline_label) == Ok::<Seq<char>, Seq<char>>(v@),
            Err(m) => node_id_spec(text@, line_no as nat, allow_inline_label) == Err::<Seq<char>, Seq<char>>(m@),
        },
{
    let mut cleaned = trim_chars(text);
    if allow_inline_label && crate::text::find_char(cleaned.as_slice(), ':').is_some() {
        let (left, _) = split_unquoted_once(cleaned.as_slice(), ':');
        cleaned = left;
    }
    if cleaned.len() == 0 {
        return Err(crate::flow::line_error_wide(line_no, "Expected node id"));
    }
    if !is_valid_id(cleaned.as_slice()) {
        let mut m = owned("Invalid node id \"");
        push_chars(&mut m, cleaned.as_slice());
        crate::text::push_str(&mut m, "\"");
        return Err(crate::flow::line_error_wide(line_no, m.as_str()));
    }
    Ok(cleaned)
}

/// Whether a segment names a D2 property.
pub open spec fn property_segment(s: Seq<char>) -> bool {
    ||| s == "shape"@ || s == "style"@ || s == "label"@ || s == "link"@ || s == "icon"@
    ||| s == "near"@ || s == "width"@ || s == "height"@ || s == "direction"@ || s == "grid-rows"@
    ||| s == "grid-columns"@ || s == "grid-gap"@ || s == "font-size"@ || s == "font-family"@
    ||| s == "font-color"@ || s == "stroke"@ || s == "fill"@ || s == "opacity"@ || s == "padding"@
    ||| s == "border-radius"@ || s == "shadow"@ || s == "sketch"@ || s == "animated"@
    ||| s == "multiple"@ || s == "constraint"@ || s == "tooltip"@
}

fn is_property_segment(s: &[char]) -> (r: bool)
    ensures
        r == property_segment(s@),
{
    chars_eq_str(s, "shape") || chars_eq_str(s, "style") || chars_eq_str(s, "label") || chars_eq_str(s, "link") || chars_eq_str(s, "icon") || chars_eq_str(
        s,
        "near",
    ) || chars_eq_str(s, "width") || chars_eq_str(s, "height") || chars_eq_str(s, "direction") || chars_eq_str(s, "grid-rows") || chars_eq_str(
        s,
        "grid-columns",
    ) || chars_eq_str(s, "grid-gap") || chars_eq_str(s, "font-size") || chars_eq_str(s, "font-family") || chars_eq_str(s, "font-color")
        || chars_eq_str(s, "stroke") || chars_eq_str(s, "fill") || chars_eq_str(s, "opacity") || chars_eq_str(s, "padding") || chars_eq_str(
        s,
        "border-radius",
    ) || chars_eq_str(s, "shadow") || chars_eq_str(s, "sketch") || chars_eq_str(s, "animated") || chars_eq_str(s, "multiple") || chars_eq_str(
        s,
        "constraint",
    ) || chars_eq_str(s, "tooltip")
}

/// The non-empty pieces of a sequence of pieces, in order.
pub open spec fn non_empty(ps: Seq<Seq<char>>) -> Seq<Seq<char>>
    decreases ps.len(),
{
    if ps.len() == 0 {
        Seq::empty()
    } else if ps.last().len() > 0 {
        non_empty(ps.drop_last()).push(ps.last())
    } else {
        non_empty(ps.drop_last())
    }
}

/// Whether a dotted id addresses a property of a node (such as `a.style.fill`) rather than a node.
pub open spec fn property_path(id: Seq<char>) -> bool {
    let parts = non_empty(crate::text::split_char(id, '.'));
    &&& crate::text::has_char(id, '.')
    &&& parts.len() >= 2
    &&& exists|k: int|
        1 <= k < parts.len() && (property_segment(#[trigger] parts[k]) || crate::text::has_prefix(
            parts[k],
            "style"@,
        ))
}

/// Whether a dotted id addresses a property rather than a node.
pub fn is_property_path(id: &[char]) -> (r: bool)
    ensures
        r == property_path(id@),
{
    if crate::text::find_char(id, '.').is_none() {
        return false;
    }
    let pieces = crate::text::split_chars(id, '.');
    let mut parts: Vec<Vec<char>> = Vec::new();
    let mut i: usize = 0;
    while i < pieces.len()
        invariant
            i <= pieces@.len(),
            vv(parts@) == non_empty(vv(pieces@).take(i as int)),
        decreases pieces@.len() - i,
    {
        assert(vv(pieces@).take(i as int + 1).drop_last() =~= vv(pieces@).take(i as int));
        if pieces[i].len() > 0 {
            let ghost pb = parts@;
            let c = crate::text::copy_chars(pieces[i].as_slice());
            parts.push(c);
            proof {
                lemma_vv_push(pb, c);
            }
        }
        i = i + 1;
    }
    assert(vv(pieces@).take(pieces@.len() as int) =~= vv(pieces@));
    if parts.len() < 2 {
        return false;
    }
    assert(crate::text::has_char(id@, '.'));
    let mut k: usize = 1;
    while k < parts.len()
        invariant
            1 <= k <= parts@.len(),
            vv(parts@) == non_empty(crate::text::split_char(id@, '.')),
            crate::text::has_char(id@, '.'),
            forall|j: int|
                1 <= j < k ==> !(property_segment(#[trigger] vv(parts@)[j]) || crate::text::has_prefix(
                    vv(parts@)[j],
                    "style"@,
                )),
        decreases parts@.len() - k,
    {
        if is_property_segment(parts[k].as_slice()) || crate::text::starts_with_str(parts[k].as_slice(), "style") {
            assert(property_segment(vv(parts@)[k as int]) || crate::text::has_prefix(vv(parts@)[k as int], "style"@));
            return true;
        }
        k = k + 1;
    }
    false
}

/// The characters of a quoted label from index `i` on, with backslash escapes resolved.
pub open spec fn quoted_from(t: Seq<char>, q: char, i: int, esc: bool, buf: Seq<char>, line: nat) -> Result<Seq<char>, Seq<char>>
    decreases t.len() - i,
{
    if i >= t.len() || i < 0 {
        Err(crate::flow::line_msg(line, "Unclosed quoted label"@))
    } else {
        let ch = t[i];
        if esc {
            quoted_from(t, q, i + 1, false, buf.push(ch), line)
        } else if ch == '\\' {
            quoted_from(t, q, i + 1, true, buf, line)
        } else if ch == q {
            if trim(t.skip(i + 1)).len() > 0 {
                Err(crate::flow::line_msg(line, "Unexpected trailing content"@))
            } else {
                Ok(buf)
            }
        } else {
            quoted_from(t, q, i + 1, false, buf.push(ch), line)
        }
    }
}

/// A label read from text: trimmed, and unquoted when it starts with a quote.
pub open spec fn label_spec(text: Seq<char>, line: nat) -> Result<Seq<char>, Seq<char>> {
    let l = trim(text);
    if l.len() == 0 {
        Err(crate::flow::line_msg(line, "Label cannot be empty"@))
    } else if l[0] == '\'' || l[0] == '"' {
        quoted_from(l, l[0], 1, false, Seq::empty(), line)
    } else {
        Ok(l)
    }
}

/// Reads a label.
pub fn parse_label(text: &[char], line_no: u128) -> (r: Result<Vec<char>, String>)
    ensures
        match r {
            Ok(v) => label_spec(text@, line_no as nat) == Ok::<Seq<char>, Seq<char>>(v@),
            Err(m) => label_spec(text@, line_no as nat) == Err::<Seq<char>, Seq<char>>(m@),
        },
{
    let l = trim_chars(text);
    if l.len() == 0 {
        return Err(crate::flow::line_error_wide(line_no, "Label cannot be empty"));
    }
    let q = l[0];
    if q != '\'' && q != '"' {
        return Ok(l);
    }
    let mut buf: Vec<char> = Vec::new();
    let mut esc = false;
    let mut i: usize = 1;
    assert(buf@ =~= Seq::<char>::empty());
    while i < l.len()
        invariant
            1 <= i <= l@.len(),
            q == l@[0],
            label_spec(text@, line_no as nat) == quoted_from(l@, q, i as int, esc, buf@, line_no as nat),
            l@ == trim(text@),
        decreases l@.len() - i,
    {
        let ch = l[i];
        if esc {
            buf.push(ch);
            esc = false;
        } else if ch == '\\' {
            esc = true;
        } else if ch == q {
            let rest = slice_chars(l.as_slice(), i + 1, l.len());
            assert(rest@ =~= l@.skip(i + 1));
            let t = trim_chars(rest.as_slice());
            if t.len() > 0 {
                return Err(crate::flow::line_error_wide(line_no, "Unexpected trailing content"));
            }
            return Ok(buf);
        } else {
            buf.push(ch);
        }
        i = i + 1;
    }
    Err(crate::flow::line_error_wide(line_no, "Unclosed quoted label"))
}

// ----- statements -----

/// The node ids of the parts of an edge statement, from index `i` on; all but the last may
/// carry an inline label.
pub open spec fn ids_spec(parts: Seq<Seq<char>>, line: nat, i: int, acc: Seq<Seq<char>>) -> Result<Seq<Seq<char>>, Seq<char>>
    decreases parts.len() - i,
{
    if i >= parts.len() || i < 0 {
        Ok(acc)
    } else {
        match node_id_spec(parts[i], line, i < parts.len() - 1) {
            Err(m) => Err(m),
            Ok(id) => ids_spec(parts, line, i + 1, acc.push(id)),
        }
    }
}

/// The adjacency list with the edges of a chain of ids added from index `k` on; the label goes
/// on the last edge.
pub open spec fn chain_adj(av: AdjV, ids: Seq<Seq<char>>, label: Option<Seq<char>>, k: int) -> AdjV
    decreases ids.len() - k,
{
    if k < 0 || k + 1 >= ids.len() {
        av
    } else {
        let e = (ids[k], ids[k + 1], if k == ids.len() - 2 { label } else { None });
        chain_adj(
            crate::flow::adj_touch_spec(crate::flow::adj_add_spec(av, e), ids[k + 1]),
            ids,
            label,
            k + 1,
        )
    }
}

/// The node table with each id of a chain recorded (without a label), from index `k` on.
pub open spec fn chain_nodes(t: Seq<(NodeV, bool)>, ids: Seq<Seq<char>>, line: nat, k: int) -> Result<Seq<(NodeV, bool)>, Seq<char>>
    decreases ids.len() - k,
{
    if k < 0 || k >= ids.len() {
        Ok(t)
    } else {
        match crate::flow::add_node_spec(t, ids[k], None, false, line) {
            Err(m) => Err(m),
            Ok((t2, _)) => chain_nodes(t2, ids, line, k + 1),
        }
    }
}

/// The effect of an edge statement `a -> b -> c: label` on the node table and adjacency list.
pub open spec fn edge_stmt_spec(stmt: Seq<char>, line: nat, t: Seq<(NodeV, bool)>, av: AdjV) -> Result<(Seq<(NodeV, bool)>, AdjV), Seq<char>> {
    let parts0 = arrow_split(vstd::utf8::encode_utf8(stmt), 0, false, false, false, Seq::empty(), Seq::empty());
    if parts0.len() < 2 {
        Err(crate::flow::line_msg(line, "Expected edge arrow"@))
    } else {
        let sp = split_once_spec(parts0.last(), ':');
        let parts = parts0.drop_last().push(sp.0);
        match ids_spec(parts, line, 0, Seq::empty()) {
            Err(m) => Err(m),
            Ok(ids) => if exists|k: int| 0 <= k < ids.len() && #[trigger] property_path(ids[k]) {
                Ok((t, av))
            } else if ids.len() < 2 {
                Err(crate::flow::line_msg(line, "Edge must have at least two nodes"@))
            } else {
                let lab: Result<Option<Seq<char>>, Seq<char>> = match sp.1 {
                    Some(l) => match label_spec(l, line) {
                        Ok(x) => Ok(Some(x)),
                        Err(m) => Err(m),
                    },
                    None => Ok(None),
                };
                match lab {
                    Err(m) => Err(m),
                    Ok(label) => match chain_nodes(t, ids, line, 0) {
                        Err(m) => Err(m),
                        Ok(t2) => Ok((t2, chain_adj(av, ids, label, 0))),
                    },
                }
            },
        }
    }
}

/// The effect of a node statement `id` or `id: label` on the node table. Property
/// assignments and empty labels leave it unchanged.
pub open spec fn node_stmt_spec(stmt: Seq<char>, line: nat, t: Seq<(NodeV, bool)>) -> Result<Seq<(NodeV, bool)>, Seq<char>> {
    let sp = split_once_spec(stmt, ':');
    match sp.1 {
        Some(label) => if property_path(sp.0) {
            Ok(t)
        } else if trim(label).len() == 0 {
            Ok(t)
        } else {
            match node_id_spec(sp.0, line, false) {
                Err(m) => Err(m),
                Ok(id) => match label_spec(label, line) {
                    Err(m) => Err(m),
                    Ok(l) => match crate::flow::add_node_spec(t, id, Some(l), true, line) {
                        Err(m) => Err(m),
                        Ok((t2, _)) => Ok(t2),
                    },
                },
            }
        },
        None => match node_id_spec(sp.0, line, false) {
            Err(m) => Err(m),
            Ok(id) => match crate::flow::add_node_spec(t, id, None, false, line) {
                Err(m) => Err(m),
                Ok((t2, _)) => Ok(t2),
            },
        },
    }
}

/// Whether a statement holds an unquoted `->`.
pub open spec fn is_edge_stmt(stmt: Seq<char>) -> bool {
    arrow_split(vstd::utf8::encode_utf8(stmt), 0, false, false, false, Seq::empty(), Seq::empty()).len() > 1
}

/// The node table and adjacency list after the statements from index `i` on.
pub open spec fn stmts_fold(stmts: Seq<Stmt>, i: int, t: Seq<(NodeV, bool)>, av: AdjV) -> Result<(Seq<(NodeV, bool)>, AdjV), Seq<char>>
    decreases stmts.len() - i,
{
    if i >= stmts.len() || i < 0 {
        Ok((t, av))
    } else {
        let line = if stmts[i].0 < 0 { 0 } else { stmts[i].0 as nat };
        if is_edge_stmt(stmts[i].1) {
            match edge_stmt_spec(stmts[i].1, line, t, av) {
                Err(m) => Err(m),
                Ok((t2, av2)) => stmts_fold(stmts, i + 1, t2, av2),
            }
        } else {
            match node_stmt_spec(stmts[i].1, line, t) {
                Err(m) => Err(m),
                Ok(t2) => stmts_fold(stmts, i + 1, t2, av),
            }
        }
    }
}

/// What parsing a D2 flow chart gives: the flow or an error message; `None` where the text
/// would make slicing a string fail.
pub open spec fn d2_spec(text: Seq<char>) -> Option<Result<FlowV, Seq<char>>> {
    match md_norm_spec(text) {
        None => None,
        Some(Err(m)) => Some(Err(m)),
        Some(Ok(norm)) => match stmts_spec(norm) {
            Err(m) => Some(Err(m)),
            Ok(stmts) => match stmts_fold(stmts, 0, Seq::empty(), Seq::empty()) {
                Err(m) => Some(Err(m)),
                Ok((t, av)) => Some(crate::flow::finish_spec(t, av)),
            },
        },
    }
}

fn node_ids_of(parts: &Vec<Vec<char>>, line_no: u128) -> (r: Result<Vec<Vec<char>>, String>)
    ensures
        match r {
            Ok(v) => ids_spec(vv(parts@), line_no as nat, 0, Seq::empty()) == Ok::<Seq<Seq<char>>, Seq<char>>(vv(v@)),
            Err(m) => ids_spec(vv(parts@), line_no as nat, 0, Seq::empty()) == Err::<Seq<Seq<char>>, Seq<char>>(m@),
        },
{
    let mut ids: Vec<Vec<char>> = Vec::new();
    let mut i: usize = 0;
    assert(vv(ids@) =~= Seq::<Seq<char>>::empty());
    while i < parts.len()
        invariant
            i <= parts@.len(),
            ids_spec(vv(parts@), line_no as nat, 0, Seq::empty()) == ids_spec(vv(parts@), line_no as nat, i as int, vv(ids@)),
        decreases parts@.len() - i,
    {
        let id = parse_node_id(parts[i].as_slice(), line_no, i < parts.len() - 1)?;
        let ghost ib = ids@;
        ids.push(id);
        proof {
            lemma_vv_push(ib, id);
        }
        i = i + 1;
    }
    Ok(ids)
}

fn any_property_path(ids: &Vec<Vec<char>>) -> (r: bool)
    ensures
        r == exists|k: int| 0 <= k < ids@.len() && #[trigger] property_path(vv(ids@)[k]),
{
    let mut i: usize = 0;
    while i < ids.len()
        invariant
            i <= ids@.len(),
            forall|k: int| 0 <= k < i ==> !#[trigger] property_path(vv(ids@)[k]),
        decreases ids@.len() - i,
    {
        if is_property_path(ids[i].as_slice()) {
            assert(property_path(vv(ids@)[i as int]));
            return true;
        }
        i = i + 1;
    }
    false
}

fn parse_edge_statement(
    stmt: &[char],
    line_no: u128,
    t: &mut Vec<NodeDef>,
    adj: &mut Vec<(String, Vec<FlowEdge>)>,
) -> (r: Result<(), String>)
    requires
        crate::flow::text_labels(old(t)@),
    ensures
        crate::flow::text_labels(final(t)@),
        match r {
            Ok(_) => edge_stmt_spec(stmt@, line_no as nat, defs_view(old(t)@), adj_view(old(adj)@))
                == Ok::<(Seq<(NodeV, bool)>, AdjV), Seq<char>>((defs_view(final(t)@), adj_view(final(adj)@))),
            Err(m) => edge_stmt_spec(stmt@, line_no as nat, defs_view(old(t)@), adj_view(old(adj)@))
                == Err::<(Seq<(NodeV, bool)>, AdjV), Seq<char>>(m@),
        },
{
    let bytes = utf8_bytes(stmt);
    let parts0 = split_on_arrow(bytes.as_slice());
    if parts0.len() < 2 {
        return Err(crate::flow::line_error_wide(line_no, "Expected edge arrow"));
    }
    let last_idx = parts0.len() - 1;
    let (target, edge_label) = split_unquoted_once(parts0[last_idx].as_slice(), ':');
    let mut parts: Vec<Vec<char>> = Vec::new();
    let mut i: usize = 0;
    while i < last_idx
        invariant
            i <= last_idx,
            last_idx == parts0@.len() - 1,
            vv(parts@) == vv(parts0@).take(i as int),
        decreases last_idx - i,
    {
        let ghost pb = parts@;
        let c = crate::text::copy_chars(parts0[i].as_slice());
        parts.push(c);
        proof {
            lemma_vv_push(pb, c);
        }
        i = i + 1;
        assert(vv(parts@) =~= vv(parts0@).take(i as int));
    }
    let ghost pb = parts@;
    parts.push(target);
    proof {
        lemma_vv_push(pb, target);
        assert(vv(parts@) =~= vv(parts0@).drop_last().push(split_once_spec(vv(parts0@).last(), ':').0));
    }
    let ids = node_ids_of(&parts, line_no)?;
    if any_property_path(&ids) {
        return Ok(());
    }
    if ids.len() < 2 {
        return Err(crate::flow::line_error_wide(line_no, "Edge must have at least two nodes"));
    }
    let label: Option<Vec<char>> = match edge_label {
        Some(l) => Some(parse_label(l.as_slice(), line_no)?),
        None => None,
    };
    add_chain_edges(adj, &ids, &label);
    add_chain_nodes(t, &ids, line_no)
}

fn add_chain_edges(adj: &mut Vec<(String, Vec<FlowEdge>)>, ids: &Vec<Vec<char>>, label: &Option<Vec<char>>)
    ensures
        adj_view(final(adj)@) == chain_adj(adj_view(old(adj)@), vv(ids@), match label {
            Some(x) => Some(x@),
            None => None::<Seq<char>>,
        }, 0),
{
    let ghost av0 = adj_view(adj@);
    let ghost lab = match label {
        Some(x) => Some(x@),
        None => None::<Seq<char>>,
    };
    if ids.len() < 2 {
        return;
    }
    let mut k: usize = 0;
    while k < ids.len() - 1
        invariant
            ids@.len() >= 2,
            k <= ids@.len() - 1,
            chain_adj(av0, vv(ids@), lab, 0) == chain_adj(adj_view(adj@), vv(ids@), lab, k as int),
            lab == match label {
                Some(x) => Some(x@),
                None => None::<Seq<char>>,
            },
        decreases ids@.len() - k,
    {
        let src = string_from_chars(ids[k].as_slice());
        let dst = string_from_chars(ids[k + 1].as_slice());
        let el: Option<String> = if k == ids.len() - 2 {
            match label {
                Some(x) => Some(string_from_chars(x.as_slice())),
                None => None,
            }
        } else {
            None
        };
        let dst2 = dst.clone();
        crate::flow::adj_add_edge(adj, FlowEdge { src, dst, label: el });
        crate::flow::adj_touch(adj, dst2.as_str());
        k = k + 1;
    }
}

fn add_chain_nodes(t: &mut Vec<NodeDef>, ids: &Vec<Vec<char>>, line_no: u128) -> (r: Result<(), String>)
    requires
        crate::flow::text_labels(old(t)@),
    ensures
        crate::flow::text_labels(final(t)@),
        match r {
            Ok(_) => chain_nodes(defs_view(old(t)@), vv(ids@), line_no as nat, 0)
                == Ok::<Seq<(NodeV, bool)>, Seq<char>>(defs_view(final(t)@)),
            Err(m) => chain_nodes(defs_view(old(t)@), vv(ids@), line_no as nat, 0)
                == Err::<Seq<(NodeV, bool)>, Seq<char>>(m@),
        },
{
    let ghost t0 = defs_view(t@);
    let mut j: usize = 0;
    while j < ids.len()
        invariant
            j <= ids@.len(),
            t0 == defs_view(old(t)@),
            crate::flow::text_labels(t@),
            chain_nodes(t0, vv(ids@), line_no as nat, 0) == chain_nodes(defs_view(t@), vv(ids@), line_no as nat, j as int),
        decreases ids@.len() - j,
    {
        let id = string_from_chars(ids[j].as_slice());
        let ghost tb = defs_view(t@);
        let res = crate::flow::add_node(t, id.as_str(), None, false, line_no);
        match res {
            Ok(_) => {},
            Err(e) => {
                proof {
                    assert(id@ == vv(ids@)[j as int]);
                    assert(crate::flow::opt_str(None) == None::<Seq<char>>);
                }
                return Err(e.to_message());
            },
        }
        j = j + 1;
    }
    Ok(())
}

fn parse_node_statement(stmt: &[char], line_no: u128, t: &mut Vec<NodeDef>) -> (r: Result<(), String>)
    requires
        crate::flow::text_labels(old(t)@),
    ensures
        crate::flow::text_labels(final(t)@),
        match r {
            Ok(_) => node_stmt_spec(stmt@, line_no as nat, defs_view(old(t)@)) == Ok::<Seq<(NodeV, bool)>, Seq<char>>(defs_view(final(t)@)),
            Err(m) => node_stmt_spec(stmt@, line_no as nat, defs_view(old(t)@)) == Err::<Seq<(NodeV, bool)>, Seq<char>>(m@),
        },
{
    let (node_text, label_text) = split_unquoted_once(stmt, ':');
    match label_text {
        Some(label) => {
            if is_property_path(node_text.as_slice()) {
                return Ok(());
            }
            let lt = trim_chars(label.as_slice());
            if lt.len() == 0 {
                return Ok(());
            }
            let id = parse_node_id(node_text.as_slice(), line_no, false)?;
            let l = parse_label(label.as_slice(), line_no)?;
            let ids = string_from_chars(id.as_slice());
            let ls = string_from_chars(l.as_slice());
            match crate::flow::add_node(t, ids.as_str(), Some(ls), true, line_no) {
                Ok(_) => Ok(()),
                Err(e) => Err(e.to_message()),
            }
        },
        None => {
            let id = parse_node_id(node_text.as_slice(), line_no, false)?;
            let ids = string_from_chars(id.as_slice());
            match crate::flow::add_node(t, ids.as_str(), None, false, line_no) {
                Ok(_) => Ok(()),
                Err(e) => Err(e.to_message()),
            }
        },
    }
}

fn has_unquoted_arrow(stmt: &[char]) -> (r: bool)
    ensures
        r == is_edge_stmt(stmt@),
{
    let bytes = utf8_bytes(stmt);
    let parts = split_on_arrow(bytes.as_slice());
    parts.len() > 1
}

/// Whether the D2 parser can take this text: false where a `|md` block would have it cut a
/// line inside a character.
pub fn d2_text_is_parseable(text: &str) -> (r: bool)
    ensures
        r == d2_spec(text@) is Some,
{
    let chars = str_chars(text);
    match normalize_markdown_blocks(chars.as_slice()) {
        Normalized::Stop => false,
        _ => true,
    }
}

/// Parses a flow chart written in D2: `a -> b: label` edges, `id: label` nodes, `|md` blocks
/// and `BEGIN`/`END` nodes, into a validated flow.
pub fn parse_d2_flowchart(text: &str) -> (r: Result<crate::flow::Flow, crate::flow::FlowParseError>)
    requires
        d2_spec(text@) is Some,
    ensures
        match d2_spec(text@) {
            Some(Ok(f)) => r is Ok && crate::flow::flow_view(r->Ok_0) == f,
            Some(Err(m)) => r is Err && r->Err_0.message() == m,
            None => false,
        },
{
    let chars = str_chars(text);
    let norm = match normalize_markdown_blocks(chars.as_slice()) {
        Normalized::Text(t) => t,
        Normalized::Error(m) => {
            return Err(crate::flow::FlowParseError::new(m));
        },
        Normalized::Stop => {
            return Err(crate::flow::FlowParseError::new(owned("")));
        },
    };
    let stmts = match iter_top_level_statements(norm.as_slice()) {
        Ok(v) => v,
        Err(m) => {
            return Err(crate::flow::FlowParseError::new(m));
        },
    };
    let mut t: Vec<NodeDef> = Vec::new();
    let mut adj: Vec<(String, Vec<FlowEdge>)> = Vec::new();
    assert(defs_view(t@) =~= Seq::<(NodeV, bool)>::empty());
    assert(adj_view(adj@) =~= Seq::empty());
    let ghost sv = stmts_view(stmts@);
    assert(d2_spec(text@) == match stmts_fold(sv, 0, Seq::empty(), Seq::empty()) {
        Err(m) => Some(Err::<FlowV, Seq<char>>(m)),
        Ok((t1, av1)) => Some(crate::flow::finish_spec(t1, av1)),
    });
    let mut i: usize = 0;
    while i < stmts.len()
        invariant
            i <= stmts@.len(),
            sv == stmts_view(stmts@),
            d2_spec(text@) == match stmts_fold(sv, 0, Seq::empty(), Seq::empty()) {
                Err(m) => Some(Err::<FlowV, Seq<char>>(m)),
                Ok((t1, av1)) => Some(crate::flow::finish_spec(t1, av1)),
            },
            crate::flow::text_labels(t@),
            stmts_fold(sv, 0, Seq::empty(), Seq::empty()) == stmts_fold(sv, i as int, defs_view(t@), adj_view(adj@)),
        decreases stmts@.len() - i,
    {
        let line_no = stmts[i].0;
        let stmt = stmts[i].1.as_slice();
        assert(sv[i as int].1 == stmt@ && sv[i as int].0 == line_no as int);
        if has_unquoted_arrow(stmt) {
            match parse_edge_statement(stmt, line_no, &mut t, &mut adj) {
                Ok(_) => {},
                Err(m) => {
                    return Err(crate::flow::FlowParseError::new(m));
                },
            }
        } else {
            match parse_node_statement(stmt, line_no, &mut t) {
                Ok(_) => {},
                Err(m) => {
                    return Err(crate::flow::FlowParseError::new(m));
                },
            }
        }
        i = i + 1;
    }
    crate::flow::finish_flow(t, adj)
}

} // verus!
