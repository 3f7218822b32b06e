//! Flow charts written in Mermaid's `flowchart` syntax.
use vstd::prelude::*;

use crate::flow::{adj_view, defs_view, line_msg, AdjV, FlowEdge, FlowV, NodeDef, NodeV};
use crate::text::{byte_char, byte_cut, cut_at_byte, latin1, occurs_at, slice_chars, trim, trim_chars};

verus! {

// ----- bytes of a line -----

/// `u8::is_ascii_whitespace`.
pub open spec fn ascii_ws_byte(c: u8) -> bool {
    c == 0x20 || c == 0x09 || c == 0x0A || c == 0x0C || c == 0x0D
}

/// A byte that can start a node id: `[A-Za-z0-9_]`.
pub open spec fn id_start_byte(c: u8) -> bool {
    (0x41 <= c <= 0x5A) || (0x61 <= c <= 0x7A) || (0x30 <= c <= 0x39) || c == 0x5F
}

/// A byte that can continue a node id: `[A-Za-z0-9_-]`.
pub open spec fn id_byte(c: u8) -> bool {
    id_start_byte(c) || c == 0x2D
}

/// The first index from `i` on that holds no ASCII whitespace.
pub open spec fn skip_ws_bytes(b: Seq<u8>, i: int) -> int
    decreases b.len() - i,
{
    if i < 0 || i >= b.len() || !ascii_ws_byte(b[i]) {
        i
    } else {
        skip_ws_bytes(b, i + 1)
    }
}

/// The first index from `i` on that holds no id byte.
pub open spec fn id_end(b: Seq<u8>, i: int) -> int
    decreases b.len() - i,
{
    if i < 0 || i >= b.len() || !id_byte(b[i]) {
        i
    } else {
        id_end(b, i + 1)
    }
}

/// The first index from `i` on that holds the byte `c`.
pub open spec fn find_byte(b: Seq<u8>, i: int, c: u8) -> Option<int>
    decreases b.len() - i,
{
    if i < 0 || i >= b.len() {
        None
    } else if b[i] == c {
        Some(i)
    } else {
        find_byte(b, i + 1, c)
    }
}

/// The characters of `s` between byte offsets `i` and `j`, where both fall between
/// characters.
pub open spec fn byte_slice(s: Seq<char>, i: int, j: int) -> Option<Seq<char>> {
    match (byte_cut(s, i), byte_cut(s, j)) {
        (Some(a), Some(c)) => if a.len() <= c.len() {
            Some(c.skip(a.len() as int))
        } else {
            None
        },
        _ => None,
    }
}

proof fn lemma_skip_ws_bounds(b: Seq<u8>, i: int)
    requires
        0 <= i,
    ensures
        i <= skip_ws_bytes(b, i),
        i <= b.len() ==> skip_ws_bytes(b, i) <= b.len(),
        skip_ws_bytes(b, i) < b.len() ==> !ascii_ws_byte(b[skip_ws_bytes(b, i)]),
    decreases b.len() - i,
{
    if i < b.len() && ascii_ws_byte(b[i]) {
        lemma_skip_ws_bounds(b, i + 1);
    }
}

proof fn lemma_id_end_bounds(b: Seq<u8>, i: int)
    requires
        0 <= i <= b.len(),
    ensures
        i <= id_end(b, i) <= b.len(),
        id_end(b, i) < b.len() ==> !id_byte(b[id_end(b, i)]),
    decreases b.len() - i,
{
    if i < b.len() && id_byte(b[i]) {
        lemma_id_end_bounds(b, i + 1);
    }
}

fn skip_ws_at(b: &[u8], i: usize) -> (r: usize)
    ensures
        r == skip_ws_bytes(b@, i as int),
{
    let mut k = i;
    while k < b.len() && (b[k] == 0x20 || b[k] == 0x09 || b[k] == 0x0A || b[k] == 0x0C || b[k] == 0x0D)
        invariant
            i <= k,
            skip_ws_bytes(b@, i as int) == skip_ws_bytes(b@, k as int),
        decreases b@.len() - k,
    {
        k = k + 1;
    }
    k
}

fn id_end_at(b: &[u8], i: usize) -> (r: usize)
    ensures
        r == id_end(b@, i as int),
{
    let mut k = i;
    while k < b.len() && ((0x41 <= b[k] && b[k] <= 0x5A) || (0x61 <= b[k] && b[k] <= 0x7A) || (0x30 <= b[k]
        && b[k] <= 0x39) || b[k] == 0x5F || b[k] == 0x2D)
        invariant
            i <= k,
            id_end(b@, i as int) == id_end(b@, k as int),
        decreases b@.len() - k,
    {
        k = k + 1;
    }
    k
}

fn find_byte_at(b: &[u8], i: usize, c: u8) -> (r: Option<usize>)
    ensures
        match r {
            Some(j) => find_byte(b@, i as int, c) == Some(j as int) && i <= j < b@.len(),
            None => find_byte(b@, i as int, c).is_none(),
        },
{
    let mut k = i;
    while k < b.len()
        invariant
            i <= k,
            find_byte(b@, i as int, c) == find_byte(b@, k as int, c),
        decreases b@.len() - k,
    {
        if b[k] == c {
            return Some(k);
        }
        k = k + 1;
    }
    None
}

fn byte_slice_of(s: &[char], i: usize, j: usize) -> (r: Option<Vec<char>>)
    ensures
        match r {
            Some(v) => byte_slice(s@, i as int, j as int) == Some(v@),
            None => byte_slice(s@, i as int, j as int).is_none(),
        },
{
    let a = match cut_at_byte(s, i) {
        Some(a) => a,
        None => {
            return None;
        },
    };
    let c = match cut_at_byte(s, j) {
        Some(c) => c,
        None => {
            return None;
        },
    };
    if a.len() <= c.len() {
        let v = slice_chars(c.as_slice(), a.len(), c.len());
        assert(v@ =~= c@.skip(a@.len() as int));
        Some(v)
    } else {
        None
    }
}

// ----- node tokens -----

/// What a node token gives: its id and, where a shape holds one, its label.
pub type NodeSpecV = (Seq<char>, Option<Seq<char>>);

/// A quoted label read from index `i` on (just after the opening quote), bytes taken one
/// for one as characters, with `\` escaping the next byte; then the closing bracket.
pub open spec fn quoted_spec(b: Seq<u8>, i: int, close: u8, line: nat, buf: Seq<char>) -> Result<(Seq<char>, int), Seq<char>>
    decreases b.len() - i,
{
    if i < 0 || i >= b.len() {
        Err(line_msg(line, "Unclosed quoted label"@))
    } else if b[i] == 0x22 {
        let k = skip_ws_bytes(b, i + 1);
        if k >= b.len() || b[k] != close {
            Err(line_msg(line, "Unclosed node label"@))
        } else {
            Ok((buf, k + 1))
        }
    } else if b[i] == 0x5C && i + 1 < b.len() {
        quoted_spec(b, i + 2, close, line, buf.push((b[i + 1] as u32) as char))
    } else {
        quoted_spec(b, i + 1, close, line, buf.push((b[i] as u32) as char))
    }
}

/// The label of a shape opened just before byte `idx`, and the index after its closing
/// bracket; `None` where reading it would cut the text inside a character.
pub open spec fn label_spec(s: Seq<char>, idx: int, close: u8, line: nat) -> Option<Result<(Seq<char>, int), Seq<char>>>
    decreases vstd::utf8::encode_utf8(s).len() - idx,
{
    let b = vstd::utf8::encode_utf8(s);
    if idx < 0 || idx >= b.len() {
        Some(Err(line_msg(line, "Expected node label"@)))
    } else if close == 0x29 && b[idx] == 0x5B {
        match label_spec(s, idx + 1, 0x5D, line) {
            None => None,
            Some(Err(m)) => Some(Err(m)),
            Some(Ok((l, j))) => {
                let k = skip_ws_bytes(b, j);
                if k >= b.len() || b[k] != 0x29 {
                    Some(Err(line_msg(line, "Unclosed node label"@)))
                } else {
                    Some(Ok((l, k + 1)))
                }
            },
        }
    } else if b[idx] == 0x22 {
        Some(quoted_spec(b, idx + 1, close, line, Seq::empty()))
    } else {
        match byte_cut(s, idx) {
            None => None,
            Some(_) => match find_byte(b, idx, close) {
                None => Some(Err(line_msg(line, "Unclosed node label"@))),
                Some(j) => match byte_slice(s, idx, j) {
                    None => None,
                    Some(x) => if trim(x).len() == 0 {
                        Some(Err(line_msg(line, "Node label cannot be empty"@)))
                    } else {
                        Some(Ok((trim(x), j + 1)))
                    },
                },
            },
        }
    }
}

/// The closing bracket of a shape's opening bracket.
pub open spec fn shape_close(c: u8) -> Option<u8> {
    if c == 0x5B {
        Some(0x5D)
    } else if c == 0x28 {
        Some(0x29)
    } else if c == 0x7B {
        Some(0x7D)
    } else {
        None
    }
}

/// A node token at byte `idx`: an id, then optionally a shape holding a label; with the
/// index after it. `None` where reading it would cut the text inside a character.
pub open spec fn token_spec(s: Seq<char>, idx: int, line: nat) -> Option<Result<(NodeSpecV, int), Seq<char>>> {
    let b = vstd::utf8::encode_utf8(s);
    if idx < 0 || idx >= b.len() || !id_start_byte(b[idx]) {
        Some(Err(line_msg(line, "Expected node id"@)))
    } else {
        let e = id_end(b, idx + 1);
        let id = latin1(b.subrange(idx, e));
        if e < b.len() && shape_close(b[e]) is Some {
            match label_spec(s, e + 1, shape_close(b[e])->Some_0, line) {
                None => None,
                Some(Err(m)) => Some(Err(m)),
                Some(Ok((l, j))) => Some(Ok(((id, Some(l)), j))),
            }
        } else {
            Some(Ok(((id, None), e)))
        }
    }
}

fn quoted_label(b: &[u8], start: usize, close: u8, line_no: usize) -> (r: Result<(Vec<char>, usize), String>)
    ensures
        match r {
            Ok((l, j)) => quoted_spec(b@, start as int, close, line_no as nat, Seq::empty()) == Ok::<(Seq<char>, int), Seq<char>>((l@, j as int)),
            Err(m) => quoted_spec(b@, start as int, close, line_no as nat, Seq::empty()) == Err::<(Seq<char>, int), Seq<char>>(m@),
        },
{
    let mut buf: Vec<char> = Vec::new();
    let mut i = start;
    while i < b.len()
        invariant
            start <= i,
            quoted_spec(b@, start as int, close, line_no as nat, Seq::empty()) == quoted_spec(b@, i as int, close, line_no as nat, buf@),
        decreases b@.len() - i,
    {
        let ch = b[i];
        if ch == 0x22 {
            let k = skip_ws_at(b, i + 1);
            proof {
                lemma_skip_ws_bounds(b@, i + 1);
            }
            if k >= b.len() || b[k] != close {
                return Err(crate::flow::line_error(line_no, "Unclosed node label"));
            }
            return Ok((buf, k + 1));
        }
        if ch == 0x5C && i + 1 < b.len() {
            buf.push(byte_char(b[i + 1]));
            i = i + 2;
        } else {
            buf.push(byte_char(ch));
            i = i + 1;
        }
    }
    Err(crate::flow::line_error(line_no, "Unclosed quoted label"))
}

fn parse_label(s: &[char], b: &[u8], idx: usize, close: u8, line_no: usize) -> (r: Option<Result<(Vec<char>, usize), String>>)
    requires
        b@ == vstd::utf8::encode_utf8(s@),
    ensures
        match r {
            None => label_spec(s@, idx as int, close, line_no as nat).is_none(),
            Some(Ok((l, j))) => label_spec(s@, idx as int, close, line_no as nat) == Some(Ok::<(Seq<char>, int), Seq<char>>((l@, j as int))),
            Some(Err(m)) => label_spec(s@, idx as int, close, line_no as nat) == Some(Err::<(Seq<char>, int), Seq<char>>(m@)),
        },
    decreases b@.len() - idx,
{
    if idx >= b.len() {
        return Some(Err(crate::flow::line_error(line_no, "Expected node label")));
    }
    if close == 0x29 && b[idx] == 0x5B {
        return match parse_label(s, b, idx + 1, 0x5D, line_no) {
            None => None,
            Some(Err(m)) => Some(Err(m)),
            Some(Ok((l, j))) => {
                let k = skip_ws_at(b, j);
                if k >= b.len() || b[k] != 0x29 {
                    Some(Err(crate::flow::line_error(line_no, "Unclosed node label")))
                } else {
                    Some(Ok((l, k + 1)))
                }
            },
        };
    }
    if b[idx] == 0x22 {
        return Some(quoted_label(b, idx + 1, close, line_no));
    }
    if cut_at_byte(s, idx).is_none() {
        return None;
    }
    match find_byte_at(b, idx, close) {
        None => Some(Err(crate::flow::line_error(line_no, "Unclosed node label"))),
        Some(j) => match byte_slice_of(s, idx, j) {
            None => None,
            Some(x) => {
                let t = trim_chars(x.as_slice());
                if t.len() == 0 {
                    Some(Err(crate::flow::line_error(line_no, "Node label cannot be empty")))
                } else {
                    Some(Ok((t, j + 1)))
                }
            },
        },
    }
}

/// A node token's id and optional label.
pub struct NodeSpec {
    pub node_id: Vec<char>,
    pub label: Option<Vec<char>>,
}

/// The view of a node token.
pub open spec fn spec_view(n: NodeSpec) -> NodeSpecV {
    (n.node_id@, match n.label {
        Some(l) => Some(l@),
        None => None,
    })
}

fn parse_node_token(s: &[char], b: &[u8], idx: usize, line_no: usize) -> (r: Option<Result<(NodeSpec, usize), String>>)
    requires
        b@ == vstd::utf8::encode_utf8(s@),
    ensures
        match r {
            None => token_spec(s@, idx as int, line_no as nat).is_none(),
            Some(Ok((n, j))) => token_spec(s@, idx as int, line_no as nat) == Some(Ok::<(NodeSpecV, int), Seq<char>>((spec_view(n), j as int))),
            Some(Err(m)) => token_spec(s@, idx as int, line_no as nat) == Some(Err::<(NodeSpecV, int), Seq<char>>(m@)),
        },
{
    if idx >= b.len() || !((0x41 <= b[idx] && b[idx] <= 0x5A) || (0x61 <= b[idx] && b[idx] <= 0x7A) || (0x30
        <= b[idx] && b[idx] <= 0x39) || b[idx] == 0x5F) {
        return Some(Err(crate::flow::line_error(line_no, "Expected node id")));
    }
    let e = id_end_at(b, idx + 1);
    proof {
        lemma_id_end_bounds(b@, idx + 1);
    }
    let mut id: Vec<char> = Vec::new();
    let mut k = idx;
    while k < e
        invariant
            idx <= k <= e <= b@.len(),
            id@ == latin1(b@.subrange(idx as int, k as int)),
        decreases e - k,
    {
        id.push(byte_char(b[k]));
        k = k + 1;
        assert(id@ =~= latin1(b@.subrange(idx as int, k as int)));
    }
    let close: u8 = if e < b.len() && b[e] == 0x5B {
        0x5D
    } else if e < b.len() && b[e] == 0x28 {
        0x29
    } else if e < b.len() && b[e] == 0x7B {
        0x7D
    } else {
        return Some(Ok((NodeSpec { node_id: id, label: None }, e)));
    };
    match parse_label(s, b, e + 1, close, line_no) {
        None => None,
        Some(Err(m)) => Some(Err(m)),
        Some(Ok((l, j))) => Some(Ok((NodeSpec { node_id: id, label: Some(l) }, j))),
    }
}

// ----- rewriting a line -----

/// The first index from `i` on where `pat` occurs in `s`.
pub open spec fn find_seq(s: Seq<char>, pat: Seq<char>, i: int) -> Option<int>
    decreases s.len() + 1 - i,
{
    if i < 0 || i + pat.len() > s.len() {
        None
    } else if occurs_at(s, i, pat) {
        Some(i)
    } else {
        find_seq(s, pat, i + 1)
    }
}

/// The line without its `%%` comment.
pub open spec fn strip_comment_spec(s: Seq<char>) -> Seq<char> {
    match find_seq(s, "%%"@, 0) {
        Some(k) => s.take(k),
        None => s,
    }
}

/// A character of a style class name: `[A-Za-z0-9_-]`.
pub open spec fn class_char(c: char) -> bool {
    ('A' <= c <= 'Z') || ('a' <= c <= 'z') || ('0' <= c <= '9') || c == '_' || c == '-'
}

/// The first index from `i` on that holds no class-name character.
pub open spec fn class_end(s: Seq<char>, i: int) -> int
    decreases s.len() - i,
{
    if i < 0 || i >= s.len() || !class_char(s[i]) {
        i
    } else {
        class_end(s, i + 1)
    }
}

/// The text from index `i` on with every `:::class` token removed.
pub open spec fn style_from(s: Seq<char>, i: int) -> Seq<char>
    decreases s.len() - i, 0int,
{
    if i < 0 || i >= s.len() {
        Seq::empty()
    } else if occurs_at(s, i, ":::"@) && i + 3 < s.len() && class_char(s[i + 3]) {
        style_skip(s, i + 3)
    } else {
        seq![s[i]] + style_from(s, i + 1)
    }
}

/// `style_from` after the class name that starts at `i`.
pub open spec fn style_skip(s: Seq<char>, i: int) -> Seq<char>
    decreases s.len() - i, 1int,
{
    if i < 0 || i >= s.len() {
        Seq::empty()
    } else if class_char(s[i]) {
        style_skip(s, i + 1)
    } else {
        style_from(s, i)
    }
}

/// The first index from `i` on that holds `c`.
pub open spec fn find_ch(s: Seq<char>, c: char, i: int) -> Option<int>
    decreases s.len() - i,
{
    if i < 0 || i >= s.len() {
        None
    } else if s[i] == c {
        Some(i)
    } else {
        find_ch(s, c, i + 1)
    }
}

/// Where `--\s*([^>-][^>]*)\s*-->` matches when it starts at `p`: the start of the label group
/// and the index of the closing `>`.
pub open spec fn edge_text_at(s: Seq<char>, p: int) -> Option<(int, int)> {
    if !occurs_at(s, p, "--"@) {
        None
    } else {
        let e = crate::text::trim_start_index(s, p + 2);
        match find_ch(s, '>', p + 2) {
            None => None,
            Some(g) => if !(g >= 2 && s[g - 2] == '-' && s[g - 1] == '-') {
                None
            } else if e < s.len() && s[e] != '>' && s[e] != '-' && g - 2 >= e + 1 {
                Some((e, g))
            } else if e > p + 2 && g - 2 >= e {
                Some((e - 1, g))
            } else {
                None
            },
        }
    }
}

/// The leftmost match of the edge-text pattern from `p` on: its start, group start and `>`.
pub open spec fn edge_text_from(s: Seq<char>, p: int) -> Option<(int, int, int)>
    decreases s.len() - p,
{
    if p < 0 || p >= s.len() {
        None
    } else {
        match edge_text_at(s, p) {
            Some((c, g)) => Some((p, c, g)),
            None => edge_text_from(s, p + 1),
        }
    }
}

/// `Some` of a label that is not empty.
pub open spec fn non_empty_label(l: Seq<char>) -> Option<Seq<char>> {
    if l.len() == 0 {
        None
    } else {
        Some(l)
    }
}

/// An edge line with its label taken out: `A -->|label| B` or `A -- label --> B`.
pub open spec fn normalize_edge_spec(s: Seq<char>) -> (Seq<char>, Option<Seq<char>>) {
    match find_ch(s, '|', 0) {
        Some(p) => match find_ch(s, '|', p + 1) {
            Some(q) => (s.take(p) + s.skip(q + 1), non_empty_label(trim(s.subrange(p + 1, q)))),
            None => normalize_edge_text(s),
        },
        None => normalize_edge_text(s),
    }
}

/// The `A -- label --> B` form of `normalize_edge_spec`.
pub open spec fn normalize_edge_text(s: Seq<char>) -> (Seq<char>, Option<Seq<char>>) {
    match edge_text_from(s, 0) {
        Some((p, c, g)) => (s.take(p) + "-->"@ + s.skip(g + 1), non_empty_label(trim(s.subrange(c, g - 2)))),
        None => (s, None),
    }
}

/// The first `---` in `s` turned into `-->`.
pub open spec fn open_link_spec(s: Seq<char>) -> Seq<char> {
    match find_seq(s, "---"@, 0) {
        Some(k) => s.take(k) + "-->"@ + s.skip(k + 3),
        None => s,
    }
}

/// A character of an arrow shaft: `[-.=]`.
pub open spec fn shaft_char(c: char) -> bool {
    c == '-' || c == '.' || c == '='
}

/// The first index from `i` on that holds no shaft character.
pub open spec fn shaft_end(s: Seq<char>, i: int) -> int
    decreases s.len() - i,
{
    if i < 0 || i >= s.len() || !shaft_char(s[i]) {
        i
    } else {
        shaft_end(s, i + 1)
    }
}

/// The text from `i` on with every arrow `[-.=]+>` written as `-->`.
pub open spec fn arrows_from(s: Seq<char>, i: int) -> Seq<char>
    decreases s.len() - i,
{
    if i < 0 || i >= s.len() {
        Seq::empty()
    } else if shaft_char(s[i]) {
        let j = shaft_end(s, i);
        proof {
            lemma_shaft_end_bounds(s, i);
        }
        if j < s.len() && s[j] == '>' {
            "-->"@ + arrows_from(s, j + 1)
        } else {
            s.subrange(i, j) + arrows_from(s, j)
        }
    } else {
        seq![s[i]] + arrows_from(s, i + 1)
    }
}

proof fn lemma_class_end_bounds(s: Seq<char>, i: int)
    requires
        0 <= i <= s.len(),
    ensures
        i <= class_end(s, i) <= s.len(),
    decreases s.len() - i,
{
    if i < s.len() && class_char(s[i]) {
        lemma_class_end_bounds(s, i + 1);
    }
}

pub proof fn lemma_shaft_end_bounds(s: Seq<char>, i: int)
    requires
        0 <= i < s.len(),
        shaft_char(s[i]),
    ensures
        i < shaft_end(s, i) <= s.len(),
        shaft_end(s, i) < s.len() ==> !shaft_char(s[shaft_end(s, i)]),
    decreases s.len() - i,
{
    if i + 1 < s.len() && shaft_char(s[i + 1]) {
        lemma_shaft_end_bounds(s, i + 1);
    } else {
        assert(shaft_end(s, i + 1) == i + 1);
    }
}

pub fn find_seq_at(s: &[char], pat: &[char], i: usize) -> (r: Option<usize>)
    requires
        pat@.len() > 0,
    ensures
        match r {
            Some(k) => find_seq(s@, pat@, i as int) == Some(k as int) && i <= k && k + pat@.len() <= s@.len(),
            None => find_seq(s@, pat@, i as int).is_none(),
        },
{
    if pat.len() > s.len() {
        return None;
    }
    let mut k = i;
    while k <= s.len() - pat.len()
        invariant
            i <= k,
            pat@.len() > 0,
            pat@.len() <= s@.len(),
            find_seq(s@, pat@, i as int) == find_seq(s@, pat@, k as int),
        decreases s@.len() - k,
    {
        if crate::text::matches_at(s, k, pat) {
            return Some(k);
        }
        k = k + 1;
    }
    None
}

fn find_ch_at(s: &[char], c: char, i: usize) -> (r: Option<usize>)
    ensures
        match r {
            Some(k) => find_ch(s@, c, i as int) == Some(k as int) && i <= k < s@.len(),
            None => find_ch(s@, c, i as int).is_none(),
        },
{
    let mut k = i;
    while k < s.len()
        invariant
            i <= k,
            find_ch(s@, c, i as int) == find_ch(s@, c, k as int),
        decreases s@.len() - k,
    {
        if s[k] == c {
            return Some(k);
        }
        k = k + 1;
    }
    None
}

fn strip_comment(s: &[char]) -> (r: Vec<char>)
    ensures
        r@ == strip_comment_spec(s@),
{
    let pat = crate::text::str_chars("%%");
    proof {
        reveal_strlit("%%");
    }
    match find_seq_at(s, pat.as_slice(), 0) {
        Some(k) => slice_chars(s, 0, k),
        None => crate::text::copy_chars(s),
    }
}

fn is_class_char(c: char) -> (r: bool)
    ensures
        r == class_char(c),
{
    ('A' <= c && c <= 'Z') || ('a' <= c && c <= 'z') || ('0' <= c && c <= '9') || c == '_' || c == '-'
}

fn strip_style_tokens(s: &[char]) -> (r: Vec<char>)
    ensures
        r@ == style_from(s@, 0),
{
    let pat = crate::text::str_chars(":::");
    proof {
        reveal_strlit(":::");
    }
    let mut out: Vec<char> = Vec::new();
    let mut i: usize = 0;
    while i < s.len()
        invariant
            pat@ == ":::"@,
            i <= s@.len(),
            style_from(s@, 0) == out@ + style_from(s@, i as int),
        decreases s@.len() - i,
    {
        if crate::text::matches_at(s, i, pat.as_slice()) && s.len() - i > 3 && is_class_char(s[i + 3]) {
            let mut j = i + 3;
            while j < s.len() && is_class_char(s[j])
                invariant
                    i + 3 <= j <= s@.len(),
                    style_from(s@, i as int) == style_skip(s@, j as int),
                decreases s@.len() - j,
            {
                j = j + 1;
            }
            i = j;
        } else {
            out.push(s[i]);
            proof {
                assert(out@ + style_from(s@, i + 1) =~= out@.drop_last() + (seq![s@[i as int]] + style_from(s@, i + 1)));
            }
            i = i + 1;
        }
    }
    assert(out@ + Seq::<char>::empty() =~= out@);
    out
}

fn edge_text_at_exec(s: &[char], p: usize) -> (r: Option<(usize, usize)>)
    ensures
        match r {
            Some((c, g)) => edge_text_at(s@, p as int) == Some((c as int, g as int)) && p + 2 <= c && c + 1 <= g - 2 && g < s@.len(),
            None => edge_text_at(s@, p as int).is_none(),
        },
{
    let dd = crate::text::str_chars("--");
    proof {
        reveal_strlit("--");
    }
    let n = s.len();
    if !crate::text::matches_at(s, p, dd.as_slice()) {
        return None;
    }
    assert(dd@.len() == 2);
    let e = crate::text::skip_ws_from(s, p + 2);
    let g = match find_ch_at(s, '>', p + 2) {
        Some(g) => g,
        None => {
            return None;
        },
    };
    if !(g >= 2 && s[g - 2] == '-' && s[g - 1] == '-') {
        return None;
    }
    if e < s.len() && s[e] != '>' && s[e] != '-' && g - 2 >= e + 1 {
        Some((e, g))
    } else if e > p + 2 && g - 2 >= e {
        Some((e - 1, g))
    } else {
        None
    }
}

fn edge_text_exec(s: &[char]) -> (r: Option<(usize, usize, usize)>)
    ensures
        match r {
            Some((p, c, g)) => edge_text_from(s@, 0) == Some((p as int, c as int, g as int)) && p + 2 <= c && c + 1 <= g - 2 && g < s@.len(),
            None => edge_text_from(s@, 0).is_none(),
        },
{
    let mut p: usize = 0;
    while p < s.len()
        invariant
            edge_text_from(s@, 0) == edge_text_from(s@, p as int),
        decreases s@.len() - p,
    {
        match edge_text_at_exec(s, p) {
            Some((c, g)) => {
                return Some((p, c, g));
            },
            None => {},
        }
        p = p + 1;
    }
    None
}

fn non_empty(l: Vec<char>) -> (r: Option<Vec<char>>)
    ensures
        match r {
            Some(v) => non_empty_label(l@) == Some(v@),
            None => non_empty_label(l@).is_none(),
        },
{
    if l.len() == 0 {
        None
    } else {
        Some(l)
    }
}

fn normalize_edge_line(s: &[char]) -> (r: (Vec<char>, Option<Vec<char>>))
    ensures
        normalize_edge_spec(s@) == (r.0@, match r.1 {
            Some(l) => Some(l@),
            None => None::<Seq<char>>,
        }),
{
    let n = s.len();
    let first = find_ch_at(s, '|', 0);
    if first.is_some() {
        let p = first.unwrap();
        assert(p < n);
        let second = find_ch_at(s, '|', p + 1);
        if second.is_some() {
            let q = second.unwrap();
            assert(q < n);
            let mut t = slice_chars(s, 0, p);
            let tail = slice_chars(s, q + 1, n);
            crate::text::append_chars(&mut t, tail.as_slice());
            let inner = slice_chars(s, p + 1, q);
            let l = trim_chars(inner.as_slice());
            assert(t@ =~= s@.take(p as int) + s@.skip(q + 1));
            return (t, non_empty(l));
        }
    }
    match edge_text_exec(s) {
        Some((p, c, g)) => {
            assert(g < n);
            let mut t = slice_chars(s, 0, p);
            let arrow = crate::text::str_chars("-->");
            proof {
                reveal_strlit("-->");
            }
            crate::text::append_chars(&mut t, arrow.as_slice());
            let tail = slice_chars(s, g + 1, n);
            crate::text::append_chars(&mut t, tail.as_slice());
            let inner = slice_chars(s, c, g - 2);
            let l = trim_chars(inner.as_slice());
            assert(t@ =~= s@.take(p as int) + "-->"@ + s@.skip(g + 1));
            (t, non_empty(l))
        },
        None => (crate::text::copy_chars(s), None),
    }
}

fn open_link(s: &[char]) -> (r: Vec<char>)
    ensures
        r@ == open_link_spec(s@),
{
    let n = s.len();
    let pat = crate::text::str_chars("---");
    proof {
        reveal_strlit("---");
    }
    match find_seq_at(s, pat.as_slice(), 0) {
        Some(k) => {
            let mut n = slice_chars(s, 0, k);
            let arrow = crate::text::str_chars("-->");
            proof {
                reveal_strlit("-->");
            }
            crate::text::append_chars(&mut n, arrow.as_slice());
            let tail = slice_chars(s, k + 3, s.len());
            crate::text::append_chars(&mut n, tail.as_slice());
            assert(n@ =~= s@.take(k as int) + "-->"@ + s@.skip(k + 3));
            n
        },
        None => crate::text::copy_chars(s),
    }
}

fn is_shaft(c: char) -> (r: bool)
    ensures
        r == shaft_char(c),
{
    c == '-' || c == '.' || c == '='
}

fn replace_arrows(s: &[char]) -> (r: Vec<char>)
    ensures
        r@ == arrows_from(s@, 0),
{
    let arrow = crate::text::str_chars("-->");
    proof {
        reveal_strlit("-->");
    }
    let mut out: Vec<char> = Vec::new();
    let mut i: usize = 0;
    while i < s.len()
        invariant
            arrow@ == "-->"@,
            i <= s@.len(),
            arrows_from(s@, 0) == out@ + arrows_from(s@, i as int),
        decreases s@.len() - i,
    {
        if is_shaft(s[i]) {
            let mut j = i;
            while j < s.len() && is_shaft(s[j])
                invariant
                    i <= j <= s@.len(),
                    shaft_end(s@, i as int) == shaft_end(s@, j as int),
                decreases s@.len() - j,
            {
                j = j + 1;
            }
            proof {
                lemma_shaft_end_bounds(s@, i as int);
            }
            if j < s.len() && s[j] == '>' {
                let ghost o = out@;
                crate::text::append_chars(&mut out, arrow.as_slice());
                assert(out@ + arrows_from(s@, j + 1) =~= o + ("-->"@ + arrows_from(s@, j + 1)));
                i = j + 1;
            } else {
                let ghost o = out@;
                let run = slice_chars(s, i, j);
                crate::text::append_chars(&mut out, run.as_slice());
                assert(out@ + arrows_from(s@, j as int) =~= o + (s@.subrange(i as int, j as int) + arrows_from(s@, j as int)));
                i = j;
            }
        } else {
            let ghost o = out@;
            out.push(s[i]);
            assert(out@ + arrows_from(s@, i + 1) =~= o + (seq![s@[i as int]] + arrows_from(s@, i + 1)));
            i = i + 1;
        }
    }
    assert(out@ + Seq::<char>::empty() =~= out@);
    out
}

// ----- edge and node lines -----

/// The last index below `i` that holds the byte `c`.
pub open spec fn rfind_byte(b: Seq<u8>, i: int, c: u8) -> Option<int>
    decreases i,
{
    if i <= 0 || i > b.len() {
        None
    } else if b[i - 1] == c {
        Some(i - 1)
    } else {
        rfind_byte(b, i - 1, c)
    }
}

/// What an edge line gives: `Some(Some((source, label, target)))` for an edge, `Some(None)` for
/// a line that is no edge, `None` where reading it would cut the text inside a character.
pub open spec fn edge_line_spec(s: Seq<char>, line: nat) -> Option<Option<(NodeSpecV, Option<Seq<char>>, NodeSpecV)>> {
    match token_spec(s, 0, line) {
        None => None,
        Some(Err(_)) => Some(None),
        Some(Ok((src, idx0))) => {
            let (n0, label) = normalize_edge_spec(s);
            let idx = skip_ws_bytes(vstd::utf8::encode_utf8(n0), idx0);
            match byte_cut(n0, idx) {
                None => None,
                Some(pre) => {
                    let rest = n0.skip(pre.len() as int);
                    let dashes = find_seq(rest, "---"@, 0) is Some;
                    if find_ch(rest, '>', 0) is None && !dashes {
                        Some(None)
                    } else {
                        let n1 = if dashes {
                            pre + open_link_spec(rest)
                        } else {
                            n0
                        };
                        let n2 = arrows_from(n1, 0);
                        let b2 = vstd::utf8::encode_utf8(n2);
                        match rfind_byte(b2, b2.len() as int, 0x3E) {
                            None => Some(None),
                            Some(a) => match token_spec(n2, skip_ws_bytes(b2, a + 1), line) {
                                None => None,
                                Some(Err(_)) => Some(None),
                                Some(Ok((dst, _))) => Some(Some((src, label, dst))),
                            },
                        }
                    }
                },
            }
        },
    }
}

fn rfind_byte_at(b: &[u8], c: u8) -> (r: Option<usize>)
    ensures
        match r {
            Some(a) => rfind_byte(b@, b@.len() as int, c) == Some(a as int) && a < b@.len(),
            None => rfind_byte(b@, b@.len() as int, c).is_none(),
        },
{
    let mut i = b.len();
    while i > 0
        invariant
            i <= b@.len(),
            rfind_byte(b@, b@.len() as int, c) == rfind_byte(b@, i as int, c),
        decreases i,
    {
        if b[i - 1] == c {
            return Some(i - 1);
        }
        i = i - 1;
    }
    None
}

/// The view of an optional label.
pub open spec fn opt_chars(o: Option<Vec<char>>) -> Option<Seq<char>> {
    match o {
        Some(v) => Some(v@),
        None => None,
    }
}

proof fn lemma_byte_cut_len(s: Seq<char>, k: int)
    requires
        byte_cut(s, k) is Some,
    ensures
        byte_cut(s, k)->Some_0.len() <= s.len(),
        byte_cut(s, k)->Some_0 == s.take(byte_cut(s, k)->Some_0.len() as int),
{
}

fn try_parse_edge_line(l: &[char], line_no: usize) -> (r: Option<Option<(NodeSpec, Option<Vec<char>>, NodeSpec)>>)
    ensures
        match r {
            None => edge_line_spec(l@, line_no as nat).is_none(),
            Some(None) => edge_line_spec(l@, line_no as nat) == Some(None::<(NodeSpecV, Option<Seq<char>>, NodeSpecV)>),
            Some(Some((a, lab, d))) => edge_line_spec(l@, line_no as nat) == Some(Some((spec_view(a), opt_chars(lab), spec_view(d)))),
        },
{
    let b = crate::text::utf8_bytes(l);
    let (src, idx0) = match parse_node_token(l, b.as_slice(), 0, line_no) {
        None => {
            return None;
        },
        Some(Err(_)) => {
            return Some(None);
        },
        Some(Ok(x)) => x,
    };
    let (n0, label) = normalize_edge_line(l);
    let nb = crate::text::utf8_bytes(n0.as_slice());
    let idx = skip_ws_at(nb.as_slice(), idx0);
    let pre = match cut_at_byte(n0.as_slice(), idx) {
        None => {
            return None;
        },
        Some(p) => p,
    };
    proof {
        lemma_byte_cut_len(n0@, idx as int);
    }
    let rest = slice_chars(n0.as_slice(), pre.len(), n0.len());
    assert(rest@ =~= n0@.skip(pre@.len() as int));
    let dash3 = crate::text::str_chars("---");
    proof {
        reveal_strlit("---");
    }
    let dashes = find_seq_at(rest.as_slice(), dash3.as_slice(), 0).is_some();
    if find_ch_at(rest.as_slice(), '>', 0).is_none() && !dashes {
        return Some(None);
    }
    let n1 = if dashes {
        let mut t = crate::text::copy_chars(pre.as_slice());
        let opened = open_link(rest.as_slice());
        crate::text::append_chars(&mut t, opened.as_slice());
        t
    } else {
        n0
    };
    let n2 = replace_arrows(n1.as_slice());
    let b2 = crate::text::utf8_bytes(n2.as_slice());
    let a = match rfind_byte_at(b2.as_slice(), 0x3E) {
        None => {
            return Some(None);
        },
        Some(a) => a,
    };
    let d = skip_ws_at(b2.as_slice(), a + 1);
    match parse_node_token(n2.as_slice(), b2.as_slice(), d, line_no) {
        None => None,
        Some(Err(_)) => Some(None),
        Some(Ok((dst, _))) => Some(Some((src, label, dst))),
    }
}

// ----- lines -----

/// The `i`-th piece of a text split at `\n`, without the `\r` of a `\r\n` ending.
pub open spec fn line_at(parts: Seq<Seq<char>>, i: int) -> Seq<char> {
    if i < parts.len() - 1 && parts[i].len() > 0 && parts[i].last() == '\r' {
        parts[i].drop_last()
    } else {
        parts[i]
    }
}

/// `str::lines`: the text split at `\n` and `\r\n`, with no empty line after a final ending.
pub open spec fn lines_spec(text: Seq<char>) -> Seq<Seq<char>> {
    let parts = crate::text::split_char(text, '\n');
    let n = if parts.len() > 0 && parts.last().len() == 0 {
        parts.len() - 1
    } else {
        parts.len() as int
    };
    Seq::new(n as nat, |i: int| line_at(parts, i))
}

/// `str::lines` on characters.
pub fn lines_vec(text: &[char]) -> (r: Vec<Vec<char>>)
    ensures
        crate::text::vv(r@) == lines_spec(text@),
{
    let parts = crate::text::split_chars(text, '\n');
    let ghost pv = crate::text::vv(parts@);
    proof {
        crate::text::lemma_split_char_nonempty(text@, '\n');
    }
    let n = if parts.len() > 0 && parts[parts.len() - 1].len() == 0 {
        parts.len() - 1
    } else {
        parts.len()
    };
    let mut out: Vec<Vec<char>> = Vec::new();
    let mut i: usize = 0;
    while i < n
        invariant
            pv == crate::text::vv(parts@),
            pv == crate::text::split_char(text@, '\n'),
            n <= parts@.len(),
            n == (if pv.len() > 0 && pv.last().len() == 0 { pv.len() - 1 } else { pv.len() as int }),
            i <= n,
            crate::text::vv(out@) == Seq::new(i as nat, |k: int| line_at(pv, k)),
        decreases n - i,
    {
        let p = &parts[i];
        let line = if i + 1 < parts.len() && p.len() > 0 && p[p.len() - 1] == '\r' {
            slice_chars(p.as_slice(), 0, p.len() - 1)
        } else {
            crate::text::copy_chars(p.as_slice())
        };
        proof {
            assert(pv[i as int] == p@);
            if i + 1 < parts@.len() && p@.len() > 0 && p@.last() == '\r' {
                assert(line@ =~= pv[i as int].drop_last());
            }
        }
        let ghost ob = out@;
        out.push(line);
        proof {
            crate::text::lemma_vv_push(ob, line);
            assert(crate::text::vv(out@) =~= Seq::new((i + 1) as nat, |k: int| line_at(pv, k)));
        }
        i = i + 1;
    }
    out
}

// ----- the chart -----

/// The outcome of compiling `pattern` with `regex::Regex::new` and testing `text` with
/// `Regex::is_match`: `None` where the pattern does not compile.
pub uninterp spec fn regex_match(pattern: Seq<char>, text: Seq<char>) -> Option<bool>;

/// `regex::Regex::new(pattern)`, then `is_match(text)` on the compiled expression. The result
/// is named by `regex_match`, a function of the two strings alone.
#[verifier::external_body]
fn regex_is_match(pattern: &str, text: &str) -> (r: Option<bool>)
    ensures
        r == regex_match(pattern@, text@),
{
    match regex::Regex::new(pattern) {
        Ok(re) => Some(re.is_match(text)),
        Err(_) => None,
    }
}

/// Whether a line is a chart header such as `flowchart TD` or `graph LR`.
pub open spec fn header_line(l: Seq<char>) -> bool {
    regex_match("^(flowchart|graph)\\b"@, l) == Some(true)
}

/// Whether a line only styles the chart or closes a subgraph.
pub open spec fn style_line(l: Seq<char>) -> bool {
    let lo = crate::text::unicode_lowercase(l);
    lo == "end"@ || crate::text::has_prefix(lo, "classdef "@) || crate::text::has_prefix(lo, "class "@)
        || crate::text::has_prefix(lo, "style "@) || crate::text::has_prefix(lo, "linkstyle "@)
        || crate::text::has_prefix(lo, "click "@) || crate::text::has_prefix(lo, "subgraph "@)
        || crate::text::has_prefix(lo, "direction "@)
}

fn is_style_line(l: &str) -> (r: bool)
    ensures
        r == style_line(l@),
{
    let lo = crate::text::to_lowercase(l);
    let c = crate::text::str_chars(lo.as_str());
    crate::text::chars_eq_str(c.as_slice(), "end") || crate::text::starts_with_str(c.as_slice(), "classdef ")
        || crate::text::starts_with_str(c.as_slice(), "class ") || crate::text::starts_with_str(c.as_slice(), "style ")
        || crate::text::starts_with_str(c.as_slice(), "linkstyle ") || crate::text::starts_with_str(c.as_slice(), "click ")
        || crate::text::starts_with_str(c.as_slice(), "subgraph ") || crate::text::starts_with_str(c.as_slice(), "direction ")
}

/// The effect of one line on the node table and adjacency list; `None` where reading it would
/// cut the text inside a character.
pub open spec fn line_step(raw: Seq<char>, line: nat, t: Seq<(NodeV, bool)>, av: AdjV) -> Option<Result<(Seq<(NodeV, bool)>, AdjV), Seq<char>>> {
    let l0 = trim(strip_comment_spec(raw));
    if l0.len() == 0 || crate::text::has_prefix(l0, "%%"@) || header_line(l0) || style_line(l0) {
        Some(Ok((t, av)))
    } else {
        let l = style_from(l0, 0);
        match edge_line_spec(l, line) {
            None => None,
            Some(Some((src, label, dst))) => match crate::flow::add_node_spec(t, src.0, src.1, src.1 is Some, line) {
                Err(m) => Some(Err(m)),
                Ok((t1, _)) => match crate::flow::add_node_spec(t1, dst.0, dst.1, dst.1 is Some, line) {
                    Err(m) => Some(Err(m)),
                    Ok((t2, _)) => Some(Ok((t2, crate::flow::adj_touch_spec(crate::flow::adj_add_spec(av, (src.0, dst.0, label)), dst.0)))),
                },
            },
            Some(None) => match token_spec(l, 0, line) {
                None => None,
                Some(Err(_)) => Some(Ok((t, av))),
                Some(Ok((n, _))) => match crate::flow::add_node_spec(t, n.0, n.1, n.1 is Some, line) {
                    Err(m) => Some(Err(m)),
                    Ok((t1, _)) => Some(Ok((t1, av))),
                },
            },
        }
    }
}

/// The node table and adjacency list after the lines from index `i` on.
pub open spec fn mermaid_fold(lines: Seq<Seq<char>>, i: int, t: Seq<(NodeV, bool)>, av: AdjV) -> Option<Result<(Seq<(NodeV, bool)>, AdjV), Seq<char>>>
    decreases lines.len() - i,
{
    if i < 0 || i >= lines.len() {
        Some(Ok((t, av)))
    } else {
        match line_step(lines[i], (i + 1) as nat, t, av) {
            None => None,
            Some(Err(m)) => Some(Err(m)),
            Some(Ok((t2, av2))) => mermaid_fold(lines, i + 1, t2, av2),
        }
    }
}

/// What parsing a Mermaid flow chart gives: the flow or an error message; `None` where the
/// text would make slicing a string fail.
pub open spec fn mermaid_spec(text: Seq<char>) -> Option<Result<FlowV, Seq<char>>> {
    match mermaid_fold(lines_spec(text), 0, Seq::empty(), Seq::empty()) {
        None => None,
        Some(Err(m)) => Some(Err(m)),
        Some(Ok((t, av))) => Some(crate::flow::finish_spec(t, av)),
    }
}

fn add_spec_node(t: &mut Vec<NodeDef>, n: &NodeSpec, line_no: usize) -> (r: Result<(), String>)
    requires
        crate::flow::text_labels(old(t)@),
    ensures
        crate::flow::text_labels(final(t)@),
        match crate::flow::add_node_spec(defs_view(old(t)@), spec_view(*n).0, spec_view(*n).1, n.label is Some, line_no as nat) {
            Ok((t2, _)) => r is Ok && defs_view(final(t)@) == t2,
            Err(m) => r is Err && r->Err_0@ == m,
        },
{
    let id = crate::text::string_from_chars(n.node_id.as_slice());
    let label: Option<String> = match &n.label {
        Some(l) => Some(crate::text::string_from_chars(l.as_slice())),
        None => None,
    };
    match crate::flow::add_node(t, id.as_str(), label, n.label.is_some(), line_no as u128) {
        Ok(_) => Ok(()),
        Err(e) => Err(e.to_message()),
    }
}

fn apply_line(raw: &[char], line_no: usize, t: &mut Vec<NodeDef>, adj: &mut Vec<(String, Vec<FlowEdge>)>) -> (r: Option<Result<(), String>>)
    requires
        crate::flow::text_labels(old(t)@),
    ensures
        crate::flow::text_labels(final(t)@),
        match line_step(raw@, line_no as nat, defs_view(old(t)@), adj_view(old(adj)@)) {
            None => r is None,
            Some(Ok((t2, av2))) => r == Some(Ok::<(), String>(())) && defs_view(final(t)@) == t2 && adj_view(final(adj)@) == av2,
            Some(Err(m)) => r is Some && r->Some_0 is Err && r->Some_0->Err_0@ == m,
        },
{
    let stripped = strip_comment(raw);
    let l0 = trim_chars(stripped.as_slice());
    let l0s = crate::text::string_from_chars(l0.as_slice());
    let pct = crate::text::starts_with_str(l0.as_slice(), "%%");
    if l0.len() == 0 || pct {
        return Some(Ok(()));
    }
    let header = match regex_is_match("^(flowchart|graph)\\b", l0s.as_str()) {
        Some(true) => true,
        _ => false,
    };
    if header || is_style_line(l0s.as_str()) {
        return Some(Ok(()));
    }
    let l = strip_style_tokens(l0.as_slice());
    match try_parse_edge_line(l.as_slice(), line_no) {
        None => None,
        Some(Some((src, label, dst))) => {
            match add_spec_node(t, &src, line_no) {
                Ok(_) => {},
                Err(m) => {
                    return Some(Err(m));
                },
            }
            match add_spec_node(t, &dst, line_no) {
                Ok(_) => {},
                Err(m) => {
                    return Some(Err(m));
                },
            }
            let s_id = crate::text::string_from_chars(src.node_id.as_slice());
            let d_id = crate::text::string_from_chars(dst.node_id.as_slice());
            let d_id2 = crate::text::string_from_chars(dst.node_id.as_slice());
            let el: Option<String> = match &label {
                Some(x) => Some(crate::text::string_from_chars(x.as_slice())),
                None => None,
            };
            crate::flow::adj_add_edge(adj, FlowEdge { src: s_id, dst: d_id, label: el });
            crate::flow::adj_touch(adj, d_id2.as_str());
            Some(Ok(()))
        },
        Some(None) => {
            let b = crate::text::utf8_bytes(l.as_slice());
            match parse_node_token(l.as_slice(), b.as_slice(), 0, line_no) {
                None => None,
                Some(Err(_)) => Some(Ok(())),
                Some(Ok((n, _))) => match add_spec_node(t, &n, line_no) {
                    Ok(_) => Some(Ok(())),
                    Err(m) => Some(Err(m)),
                },
            }
        },
    }
}

/// Whether the Mermaid parser can take this text: false where a label or an arrow would have it
/// cut a line inside a character.
pub fn mermaid_text_is_parseable(text: &str) -> (r: bool)
    ensures
        r == mermaid_spec(text@) is Some,
{
    let chars = crate::text::str_chars(text);
    let lines = lines_vec(chars.as_slice());
    let mut t: Vec<NodeDef> = Vec::new();
    let mut adj: Vec<(String, Vec<FlowEdge>)> = Vec::new();
    assert(defs_view(t@) =~= Seq::<(NodeV, bool)>::empty());
    assert(adj_view(adj@) =~= Seq::empty());
    let ghost lv = crate::text::vv(lines@);
    let mut i: usize = 0;
    while i < lines.len()
        invariant
            i <= lines@.len(),
            lv == crate::text::vv(lines@),
            lv == lines_spec(text@),
            crate::flow::text_labels(t@),
            mermaid_fold(lv, 0, Seq::empty(), Seq::empty()) == mermaid_fold(lv, i as int, defs_view(t@), adj_view(adj@)),
        decreases lines@.len() - i,
    {
        assert(lv[i as int] == lines@[i as int]@);
        match apply_line(lines[i].as_slice(), i + 1, &mut t, &mut adj) {
            None => {
                return false;
            },
            Some(Err(_)) => {
                return true;
            },
            Some(Ok(_)) => {},
        }
        i = i + 1;
    }
    true
}

/// Parses a flow chart written in Mermaid: `A --> B`, `A -->|label| B`, `A -- label --> B`,
/// shapes `[..]`, `(..)`, `{..}` holding labels, and `BEGIN`/`END` nodes, into a validated flow.
pub fn parse_mermaid_flowchart(text: &str) -> (r: Result<crate::flow::Flow, crate::flow::FlowParseError>)
    requires
        mermaid_spec(text@) is Some,
    ensures
        match mermaid_spec(text@) {
            Some(Ok(f)) => r is Ok && crate::flow::flow_view(r->Ok_0) == f,
            Some(Err(m)) => r is Err && r->Err_0.message() == m,
            None => false,
        },
{
    let chars = crate::text::str_chars(text);
    let lines = lines_vec(chars.as_slice());
    let mut t: Vec<NodeDef> = Vec::new();
    let mut adj: Vec<(String, Vec<FlowEdge>)> = Vec::new();
    assert(defs_view(t@) =~= Seq::<(NodeV, bool)>::empty());
    assert(adj_view(adj@) =~= Seq::empty());
    let ghost lv = crate::text::vv(lines@);
    let mut i: usize = 0;
    while i < lines.len()
        invariant
            i <= lines@.len(),
            lv == crate::text::vv(lines@),
            lv == lines_spec(text@),
            crate::flow::text_labels(t@),
            mermaid_spec(text@) is Some,
            mermaid_fold(lv, 0, Seq::empty(), Seq::empty()) == mermaid_fold(lv, i as int, defs_view(t@), adj_view(adj@)),
        decreases lines@.len() - i,
    {
        assert(lv[i as int] == lines@[i as int]@);
        match apply_line(lines[i].as_slice(), i + 1, &mut t, &mut adj) {
            None => {
                return Err(crate::flow::FlowParseError::new(crate::text::owned("")));
            },
            Some(Err(m)) => {
                return Err(crate::flow::FlowParseError::new(m));
            },
            Some(Ok(_)) => {},
        }
        i = i + 1;
    }
    crate::flow::finish_flow(t, adj)
}

} // verus!
