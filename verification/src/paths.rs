//! Paths: joining components as `PathBuf::join` does on Unix, and the last segment of a path.
use vstd::prelude::*;

use crate::text::{owned, push_str, str_chars};

verus! {

/// The index of the last `c` in `s` before `hi`, or -1 when there is none.
pub open spec fn last_index_of(s: Seq<char>, c: char, hi: int) -> int
    decreases hi,
{
    if hi <= 0 {
        -1
    } else if s[hi - 1] == c {
        hi - 1
    } else {
        last_index_of(s, c, hi - 1)
    }
}

/// The text after the last `/` of a path.
pub open spec fn last_segment(p: Seq<char>) -> Seq<char> {
    p.skip(last_index_of(p, '/', p.len() as int) + 1)
}

/// The text before the last `/` of a path.
pub open spec fn before_last_segment(p: Seq<char>) -> Seq<char> {
    p.take(last_index_of(p, '/', p.len() as int))
}

/// Whether a path segment is a file or directory name: not empty, `.` or `..`.
pub open spec fn is_plain_name(seg: Seq<char>) -> bool {
    seg.len() > 0 && seg != seq!['.'] && seg != seq!['.', '.']
}

/// Whether a path is written with `/` alone, with no `\\` or `:` that another platform would
/// read as a separator or a prefix.
pub open spec fn slash_only(p: Seq<char>) -> bool {
    !p.contains('\\') && !p.contains(':')
}

/// The extension of a file name: the text after its last `.`; none when it has no `.`, or its
/// only `.` is the first character.
pub open spec fn name_extension(name: Seq<char>) -> Option<Seq<char>> {
    let k = last_index_of(name, '.', name.len() as int);
    if k <= 0 {
        None
    } else {
        Some(name.skip(k + 1))
    }
}


/// `base.join(comp)`: an absolute `comp` replaces `base`; otherwise a `/` separates them unless
/// `base` is empty or already ends with one.
pub open spec fn join_spec(base: Seq<char>, comp: Seq<char>) -> Seq<char> {
    if comp.len() > 0 && comp[0] == '/' {
        comp
    } else if base.len() == 0 {
        comp
    } else if base.last() == '/' {
        base + comp
    } else {
        base + "/"@ + comp
    }
}

/// Joins a path component onto a base path.
pub fn join(base: &str, comp: &str) -> (r: String)
    ensures
        r@ == join_spec(base@, comp@),
{
    let b = str_chars(base);
    let c = str_chars(comp);
    if c.len() > 0 && c[0] == '/' {
        return owned(comp);
    }
    if b.len() == 0 {
        return owned(comp);
    }
    let mut s = owned(base);
    if b[b.len() - 1] != '/' {
        push_str(&mut s, "/");
    }
    push_str(&mut s, comp);
    s
}

/// The directory the program keeps its state in: `$KIMI_SHARE_DIR` when it is set and not
/// empty, else `.kimi` in the home directory.
pub open spec fn share_dir_spec(env: Option<Seq<char>>, home: Seq<char>) -> Seq<char> {
    match env {
        Some(e) => if e.len() > 0 {
            e
        } else {
            join_spec(home, ".kimi"@)
        },
        None => join_spec(home, ".kimi"@),
    }
}

/// The directory the program keeps its state in, from the value of `KIMI_SHARE_DIR` and the
/// home directory.
pub fn share_dir_of(env: Option<&str>, home: &str) -> (r: String)
    ensures
        r@ == share_dir_spec(
            match env {
                Some(e) => Some(e@),
                None => None,
            },
            home@,
        ),
{
    match env {
        Some(e) => {
            if !e.is_empty() {
                return owned(e);
            }
        },
        None => {},
    }
    join(home, ".kimi")
}

} // verus!
