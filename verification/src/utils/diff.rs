//! Line diffs of a file before and after a change, computed by `similar`.
use vstd::prelude::*;

use similar::TextDiff;

use crate::flow::mermaid::lines_spec;
use crate::text::{owned, push_str, str_chars, string_from_chars};
use crate::tools::{blocks_view, DisplayBlock};
use crate::utils::slashcmd::{join_spec, strings_view};

verus! {

/// The groups of changes, with three lines of context, that `similar`'s Myers diff finds
/// between two lists of lines: for each operation of a group, its old and new line ranges.
pub uninterp spec fn diff_groups(old: Seq<Seq<char>>, new: Seq<Seq<char>>, context: nat) -> Seq<Seq<(nat, nat, nat, nat)>>;

/// The views of ranges.
pub open spec fn ranges_view(v: Seq<(usize, usize, usize, usize)>) -> Seq<(nat, nat, nat, nat)> {
    v.map_values(|r: (usize, usize, usize, usize)| (r.0 as nat, r.1 as nat, r.2 as nat, r.3 as nat))
}

/// The views of groups of ranges.
pub open spec fn groups_view(v: Seq<Vec<(usize, usize, usize, usize)>>) -> Seq<Seq<(nat, nat, nat, nat)>> {
    v.map_values(|g: Vec<(usize, usize, usize, usize)>| ranges_view(g@))
}

/// `TextDiff::from_slices(old, new).grouped_ops(context)`, each operation taken as its old
/// and new ranges. The result is named by `diff_groups`, a function of the lines and the
/// context alone (the diff runs without a deadline).
#[verifier::external_body]
fn grouped_ranges(old: &Vec<String>, new: &Vec<String>, context: usize) -> (r: Vec<Vec<(usize, usize, usize, usize)>>)
    ensures
        groups_view(r@) == diff_groups(strings_view(old@), strings_view(new@), context as nat),
{
    let o: Vec<&str> = old.iter().map(|s| s.as_str()).collect();
    let n: Vec<&str> = new.iter().map(|s| s.as_str()).collect();
    let diff = TextDiff::from_slices(&o, &n);
    diff.grouped_ops(context)
        .iter()
        .map(|g| g.iter().map(|op| (op.old_range().start, op.old_range().end, op.new_range().start, op.new_range().end)).collect())
        .collect()
}

/// Lines `start..end` joined by newlines; nothing when the range is not within the lines.
pub open spec fn chunk_spec(lines: Seq<Seq<char>>, start: nat, end: nat) -> Seq<char> {
    if start <= end && end <= lines.len() {
        join_spec(lines.subrange(start as int, end as int), "\n"@)
    } else {
        Seq::empty()
    }
}

/// The change blocks for the groups from index `i` on: for each group that is not empty, the
/// old and new lines from its first operation's start to its last operation's end.
pub open spec fn blocks_from(
    path: Seq<char>,
    old: Seq<Seq<char>>,
    new: Seq<Seq<char>>,
    groups: Seq<Seq<(nat, nat, nat, nat)>>,
    i: int,
) -> Seq<(nat, Seq<char>, Seq<char>, Seq<char>)>
    decreases groups.len() - i,
{
    if i < 0 || i >= groups.len() {
        Seq::empty()
    } else if groups[i].len() == 0 {
        blocks_from(path, old, new, groups, i + 1)
    } else {
        let g = groups[i];
        seq![(1nat, path, chunk_spec(old, g[0].0, g.last().1), chunk_spec(new, g[0].2, g.last().3))]
            + blocks_from(path, old, new, groups, i + 1)
    }
}

fn lines_of(text: &str) -> (r: Vec<String>)
    ensures
        strings_view(r@) == lines_spec(text@),
{
    let c = str_chars(text);
    let v = crate::flow::mermaid::lines_vec(c.as_slice());
    let mut out: Vec<String> = Vec::new();
    let mut i: usize = 0;
    while i < v.len()
        invariant
            i <= v@.len(),
            out@.len() == i,
            forall|k: int| 0 <= k < i ==> #[trigger] out@[k]@ == v@[k]@,
        decreases v@.len() - i,
    {
        out.push(string_from_chars(v[i].as_slice()));
        i = i + 1;
    }
    assert(strings_view(out@) =~= crate::text::vv(v@));
    out
}

fn chunk(lines: &Vec<String>, start: usize, end: usize) -> (r: String)
    ensures
        r@ == chunk_spec(strings_view(lines@), start as nat, end as nat),
{
    let mut s = String::new();
    if start <= end && end <= lines.len() {
        let ghost sub = strings_view(lines@).subrange(start as int, end as int);
        let mut i = start;
        while i < end
            invariant
                start <= i <= end <= lines@.len(),
                sub == strings_view(lines@).subrange(start as int, end as int),
                s@ == join_spec(sub.take(i - start), "\n"@),
            decreases end - i,
        {
            if i > start {
                push_str(&mut s, "\n");
            }
            push_str(&mut s, lines[i].as_str());
            proof {
                let t = sub.take(i + 1 - start);
                assert(t.drop_last() =~= sub.take(i - start));
                if i == start {
                    assert(sub.take(0) =~= Seq::<Seq<char>>::empty());
                }
            }
            i = i + 1;
        }
        assert(sub.take(end - start) =~= sub);
    } else {
        proof {
            reveal_strlit("");
        }
    }
    s
}

/// The change blocks of a file: the old and new lines around each group of changes.
pub fn build_diff_blocks(path: &str, old_text: &str, new_text: &str) -> (r: Vec<DisplayBlock>)
    ensures
        blocks_view(r@) == blocks_from(
            path@,
            lines_spec(old_text@),
            lines_spec(new_text@),
            diff_groups(lines_spec(old_text@), lines_spec(new_text@), 3),
            0,
        ),
{
    let old_lines = lines_of(old_text);
    let new_lines = lines_of(new_text);
    let groups = grouped_ranges(&old_lines, &new_lines, 3);
    let ghost gv = groups_view(groups@);
    let ghost ov = strings_view(old_lines@);
    let ghost nv = strings_view(new_lines@);
    let mut blocks: Vec<DisplayBlock> = Vec::new();
    let mut i: usize = 0;
    while i < groups.len()
        invariant
            i <= groups@.len(),
            gv == groups_view(groups@),
            ov == strings_view(old_lines@),
            nv == strings_view(new_lines@),
            blocks_from(path@, ov, nv, gv, 0) == blocks_view(blocks@) + blocks_from(path@, ov, nv, gv, i as int),
        decreases groups@.len() - i,
    {
        let g = &groups[i];
        assert(gv[i as int] == ranges_view(g@));
        if g.len() > 0 {
            let first = g[0];
            let last = g[g.len() - 1];
            let o = chunk(&old_lines, first.0, last.1);
            let n = chunk(&new_lines, first.2, last.3);
            let ghost b0 = blocks@;
            blocks.push(DisplayBlock::Diff { path: owned(path), old_text: o, new_text: n });
            proof {
                assert(blocks_view(blocks@) =~= blocks_view(b0).push(crate::tools::block_view(blocks@.last())));
                assert(blocks_view(blocks@) + blocks_from(path@, ov, nv, gv, i + 1) =~= blocks_view(b0) + blocks_from(
                    path@,
                    ov,
                    nv,
                    gv,
                    i as int,
                ));
            }
        }
        i = i + 1;
    }
    assert(blocks_view(blocks@) + Seq::empty() =~= blocks_view(blocks@));
    blocks
}

/// The unified diff text that `similar` writes for two lists of lines under the given file
/// header names.
pub uninterp spec fn unified_text(old: Seq<Seq<char>>, new: Seq<Seq<char>>, from: Seq<char>, to: Seq<char>) -> Seq<char>;

/// `TextDiff::from_slices(old, new).unified_diff().header(from, to).to_string()`. The result is
/// named by `unified_text`, a function of its four arguments alone.
#[verifier::external_body]
fn unified(old: &Vec<String>, new: &Vec<String>, from: &str, to: &str) -> (r: String)
    ensures
        r@ == unified_text(strings_view(old@), strings_view(new@), from@, to@),
{
    let o: Vec<&str> = old.iter().map(|s| s.as_str()).collect();
    let n: Vec<&str> = new.iter().map(|s| s.as_str()).collect();
    let diff = TextDiff::from_slices(&o, &n);
    diff.unified_diff().header(from, to).to_string()
}

/// The header name of a side: `a/file` (or `b/file`) without a path, else `a/<path>`.
pub open spec fn side_name(side: Seq<char>, path: Seq<char>) -> Seq<char> {
    if path.len() == 0 {
        side + "/file"@
    } else {
        side + "/"@ + path
    }
}

/// The index just after the `k`-th newline (counting from 1) from index `i` on, if there is one.
pub open spec fn after_newline(s: Seq<char>, i: int, k: nat) -> Option<int>
    decreases s.len() - i, k,
{
    if k == 0 {
        Some(i)
    } else if i < 0 || i >= s.len() {
        None
    } else if s[i] == '\n' {
        after_newline(s, i + 1, (k - 1) as nat)
    } else {
        after_newline(s, i + 1, k)
    }
}

/// A unified diff without its `---`/`+++` file header, when asked and when it has one.
pub open spec fn strip_header_spec(u: Seq<char>) -> Seq<char> {
    match (after_newline(u, 0, 1), after_newline(u, 0, 2)) {
        (Some(a), Some(b)) => if crate::text::has_prefix(u, "--- "@) && crate::text::has_prefix(u.skip(a), "+++ "@) {
            u.skip(b)
        } else {
            u
        },
        (Some(a), None) => if crate::text::has_prefix(u, "--- "@) && a < u.len() && crate::text::has_prefix(u.skip(a), "+++ "@) {
            Seq::empty()
        } else {
            u
        },
        _ => u,
    }
}

fn after_newline_exec(s: &[char], i: usize, k: usize) -> (r: Option<usize>)
    requires
        i <= s@.len(),
    ensures
        match r {
            Some(j) => after_newline(s@, i as int, k as nat) == Some(j as int) && j <= s@.len(),
            None => after_newline(s@, i as int, k as nat) is None,
        },
{
    let mut j = i;
    let mut left = k;
    while left > 0 && j < s.len()
        invariant
            i <= j <= s@.len(),
            after_newline(s@, i as int, k as nat) == after_newline(s@, j as int, left as nat),
        decreases s@.len() - j,
    {
        if s[j] == '\n' {
            left = left - 1;
        }
        j = j + 1;
    }
    if left == 0 {
        Some(j)
    } else {
        None
    }
}

/// A unified diff of two texts with `a/<path>` and `b/<path>` headers (`a/file`, `b/file`
/// without a path); without its file header unless asked.
pub fn format_unified_diff(old_text: &str, new_text: &str, path: Option<&str>, include_file_header: bool) -> (r: String)
    ensures
        ({
            let p = match path {
                Some(p) => p@,
                None => Seq::empty(),
            };
            let u = unified_text(lines_spec(old_text@), lines_spec(new_text@), side_name("a"@, p), side_name("b"@, p));
            r@ == if include_file_header {
                u
            } else {
                strip_header_spec(u)
            }
        }),
{
    let old_lines = lines_of(old_text);
    let new_lines = lines_of(new_text);
    let p: &str = match path {
        Some(p) => p,
        None => "",
    };
    proof {
        reveal_strlit("");
    }
    let mut from = owned("a");
    let mut to = owned("b");
    if p.is_empty() {
        push_str(&mut from, "/file");
        push_str(&mut to, "/file");
    } else {
        push_str(&mut from, "/");
        push_str(&mut from, p);
        push_str(&mut to, "/");
        push_str(&mut to, p);
    }
    let u = unified(&old_lines, &new_lines, from.as_str(), to.as_str());
    if include_file_header {
        return u;
    }
    let c = str_chars(u.as_str());
    let first = after_newline_exec(c.as_slice(), 0, 1);
    let second = after_newline_exec(c.as_slice(), 0, 2);
    match (first, second) {
        (Some(a), Some(b)) => {
            let rest1 = crate::text::slice_chars(c.as_slice(), a, c.len());
            assert(rest1@ =~= c@.skip(a as int));
            if crate::text::starts_with_str(c.as_slice(), "--- ") && crate::text::starts_with_str(rest1.as_slice(), "+++ ") {
                let rest2 = crate::text::slice_chars(c.as_slice(), b, c.len());
                assert(rest2@ =~= c@.skip(b as int));
                string_from_chars(rest2.as_slice())
            } else {
                u
            }
        },
        (Some(a), None) => {
            let rest1 = crate::text::slice_chars(c.as_slice(), a, c.len());
            assert(rest1@ =~= c@.skip(a as int));
            if crate::text::starts_with_str(c.as_slice(), "--- ") && a < c.len() && crate::text::starts_with_str(rest1.as_slice(), "+++ ") {
                String::new()
            } else {
                u
            }
        },
        _ => u,
    }
}

} // verus!
