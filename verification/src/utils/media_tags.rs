//! Tags that wrap a media part in a message, with the media's attributes escaped.
use vstd::prelude::*;

use crate::message::{part_view, parts_view, ContentPart};
use crate::text::{owned, push_char, push_str, str_chars};

verus! {

/// A character of an attribute value, escaped for a tag.
pub open spec fn escape_char(c: char) -> Seq<char> {
    if c == '&' {
        "&amp;"@
    } else if c == '<' {
        "&lt;"@
    } else if c == '>' {
        "&gt;"@
    } else if c == '"' {
        "&quot;"@
    } else if c == '\'' {
        "&#x27;"@
    } else {
        seq![c]
    }
}

/// An attribute value with `&`, `<`, `>`, `"` and `'` escaped.
pub open spec fn escape_spec(s: Seq<char>) -> Seq<char>
    decreases s.len(),
{
    if s.len() == 0 {
        Seq::empty()
    } else {
        escape_spec(s.drop_last()) + escape_char(s.last())
    }
}

/// Whether a character would end or break out of a quoted attribute value.
pub open spec fn is_markup(c: char) -> bool {
    c == '<' || c == '>' || c == '"' || c == '\''
}

/// An escaped attribute value holds no `<`, `>`, `"` or `'`, so it cannot end its quotes or
/// its tag.
pub proof fn lemma_escaped_has_no_markup(s: Seq<char>)
    ensures
        forall|i: int| 0 <= i < escape_spec(s).len() ==> !is_markup(#[trigger] escape_spec(s)[i]),
    decreases s.len(),
{
    reveal_strlit("&amp;");
    reveal_strlit("&lt;");
    reveal_strlit("&gt;");
    reveal_strlit("&quot;");
    reveal_strlit("&#x27;");
    if s.len() > 0 {
        lemma_escaped_has_no_markup(s.drop_last());
        let a = escape_spec(s.drop_last());
        let b = escape_char(s.last());
        assert(escape_spec(s) == a + b);
        assert forall|i: int| 0 <= i < escape_spec(s).len() implies !is_markup(#[trigger] escape_spec(s)[i]) by {
            if i < a.len() {
                assert(escape_spec(s)[i] == a[i]);
            } else {
                assert(escape_spec(s)[i] == b[i - a.len()]);
            }
        }
    }
}

/// Escapes an attribute value.
pub fn escape_attr(value: &str) -> (r: String)
    ensures
        r@ == escape_spec(value@),
{
    let cs = str_chars(value);
    let mut out = String::new();
    let mut i: usize = 0;
    while i < cs.len()
        invariant
            i <= cs@.len(),
            cs@ == value@,
            out@ == escape_spec(cs@.take(i as int)),
        decreases cs@.len() - i,
    {
        let c = cs[i];
        let ghost o0 = out@;
        if c == '&' {
            push_str(&mut out, "&amp;");
        } else if c == '<' {
            push_str(&mut out, "&lt;");
        } else if c == '>' {
            push_str(&mut out, "&gt;");
        } else if c == '"' {
            push_str(&mut out, "&quot;");
        } else if c == '\'' {
            push_str(&mut out, "&#x27;");
        } else {
            push_char(&mut out, c);
            assert(out@ =~= o0 + seq![c]);
        }
        assert(cs@.take(i + 1).drop_last() =~= cs@.take(i as int));
        i = i + 1;
    }
    assert(cs@.take(cs@.len() as int) =~= cs@);
    out
}

/// Whether `a` comes before `b` in byte order, which for UTF-8 is the order of character
/// codes.
pub open spec fn key_lt(a: Seq<char>, b: Seq<char>) -> bool
    decreases a.len(),
{
    if a.len() == 0 {
        b.len() > 0
    } else if b.len() == 0 {
        false
    } else if a[0] != b[0] {
        (a[0] as u32) < (b[0] as u32)
    } else {
        key_lt(a.drop_first(), b.drop_first())
    }
}

/// The attributes a tag shows: those with a non-empty value.
pub open spec fn shown_attrs(attrs: Seq<(Seq<char>, Option<Seq<char>>)>) -> Seq<(Seq<char>, Seq<char>)>
    decreases attrs.len(),
{
    if attrs.len() == 0 {
        Seq::empty()
    } else {
        shown_attrs(attrs.drop_last()) + match attrs.last().1 {
            Some(v) => if v.len() > 0 {
                seq![(attrs.last().0, v)]
            } else {
                Seq::empty()
            },
            None => Seq::empty(),
        }
    }
}

/// The text of attributes inside a tag: ` key="escaped value"` for each.
pub open spec fn attrs_text(ps: Seq<(Seq<char>, Seq<char>)>) -> Seq<char>
    decreases ps.len(),
{
    if ps.len() == 0 {
        Seq::empty()
    } else {
        attrs_text(ps.drop_last()) + " "@ + ps.last().0 + "=\""@ + escape_spec(ps.last().1) + "\""@
    }
}

/// Whether pairs are sorted by key.
pub open spec fn sorted_by_key(ps: Seq<(Seq<char>, Seq<char>)>) -> bool {
    forall|i: int, j: int| 0 <= i < j < ps.len() ==> !key_lt(#[trigger] ps[j].0, #[trigger] ps[i].0)
}

/// The views of pairs of strings.
pub open spec fn pairs_of(v: Seq<(String, String)>) -> Seq<(Seq<char>, Seq<char>)> {
    v.map_values(|p: (String, String)| (p.0@, p.1@))
}

/// The pairs with a key, in order.
pub open spec fn with_key(ps: Seq<(Seq<char>, Seq<char>)>, k: Seq<char>) -> Seq<(Seq<char>, Seq<char>)> {
    ps.filter(|p: (Seq<char>, Seq<char>)| p.0 == k)
}

/// `slice::sort_by` on pairs, comparing keys: the pairs come out ordered by key, and the pairs
/// of each key keep their order (the sort is stable).
#[verifier::external_body]
fn sort_by_key(ps: &mut Vec<(String, String)>)
    ensures
        sorted_by_key(pairs_of(final(ps)@)),
        forall|k: Seq<char>| #[trigger] with_key(pairs_of(final(ps)@), k) == with_key(pairs_of(old(ps)@), k),
{
    ps.sort_by(|a, b| a.0.cmp(&b.0));
}

/// The opening tag: `<tag>`, or with its shown attributes sorted by key.
pub open spec fn tag_text(tag: Seq<char>, sorted: Seq<(Seq<char>, Seq<char>)>) -> Seq<char> {
    "<"@ + tag + attrs_text(sorted) + ">"@
}

/// Writes an opening tag with the attributes that have a non-empty value, sorted by key.
/// Returns the tag and the attributes in the order it shows them.
pub fn format_tag(tag: &str, attrs: &Vec<(String, Option<String>)>) -> (r: (String, Ghost<Seq<(Seq<char>, Seq<char>)>>))
    ensures
        r.0@ == tag_text(tag@, r.1@),
        sorted_by_key(r.1@),
        forall|k: Seq<char>| #[trigger] with_key(r.1@, k) == with_key(shown_attrs(attrs_view(attrs@)), k),
        shown_attrs(attrs_view(attrs@)).len() <= 1 ==> r.1@ == shown_attrs(attrs_view(attrs@)),
{
    let mut pairs: Vec<(String, String)> = Vec::new();
    let mut i: usize = 0;
    while i < attrs.len()
        invariant
            i <= attrs@.len(),
            pairs_of(pairs@) == shown_attrs(attrs_view(attrs@).take(i as int)),
        decreases attrs@.len() - i,
    {
        let ghost p0 = pairs@;
        proof {
            assert(attrs_view(attrs@).take(i + 1).drop_last() =~= attrs_view(attrs@).take(i as int));
        }
        match &attrs[i].1 {
            Some(v) => {
                if !v.as_str().is_empty() {
                    pairs.push((attrs[i].0.clone(), v.clone()));
                    assert(pairs_of(pairs@) =~= pairs_of(p0).push((attrs@[i as int].0@, v@)));
                } else {
                    assert(shown_attrs(attrs_view(attrs@).take(i + 1)) =~= shown_attrs(attrs_view(attrs@).take(i as int)));
                }
            },
            None => {
                assert(shown_attrs(attrs_view(attrs@).take(i + 1)) =~= shown_attrs(attrs_view(attrs@).take(i as int)));
            },
        }
        i = i + 1;
    }
    assert(attrs_view(attrs@).take(attrs@.len() as int) =~= attrs_view(attrs@));
    if pairs.len() > 1 {
        sort_by_key(&mut pairs);
    } else {
        assert(sorted_by_key(pairs_of(pairs@)));
    }
    let ghost sorted = pairs_of(pairs@);
    let mut out = owned("<");
    push_str(&mut out, tag);
    let mut k: usize = 0;
    while k < pairs.len()
        invariant
            k <= pairs@.len(),
            sorted == pairs_of(pairs@),
            out@ == "<"@ + tag@ + attrs_text(sorted.take(k as int)),
        decreases pairs@.len() - k,
    {
        push_str(&mut out, " ");
        push_str(&mut out, pairs[k].0.as_str());
        push_str(&mut out, "=\"");
        let e = escape_attr(pairs[k].1.as_str());
        push_str(&mut out, e.as_str());
        push_str(&mut out, "\"");
        assert(sorted.take(k + 1).drop_last() =~= sorted.take(k as int));
        k = k + 1;
    }
    assert(sorted.take(pairs@.len() as int) =~= sorted);
    push_str(&mut out, ">");
    (out, Ghost(sorted))
}

/// The views of attributes: key and optional value.
pub open spec fn attrs_view(attrs: Seq<(String, Option<String>)>) -> Seq<(Seq<char>, Option<Seq<char>>)> {
    attrs.map_values(
        |a: (String, Option<String>)| (
            a.0@,
            match a.1 {
                Some(v) => Some(v@),
                None => None,
            },
        ),
    )
}

/// Wraps a media part in an opening tag with its attributes and a closing tag.
pub fn wrap_media_part(part: ContentPart, tag: &str, attrs: &Vec<(String, Option<String>)>) -> (r: (Vec<ContentPart>, Ghost<Seq<(Seq<char>, Seq<char>)>>))
    ensures
        parts_view(r.0@) == seq![(0nat, tag_text(tag@, r.1@)), part_view(part), (0nat, "</"@ + tag@ + ">"@)],
        sorted_by_key(r.1@),
        forall|k: Seq<char>| #[trigger] with_key(r.1@, k) == with_key(shown_attrs(attrs_view(attrs@)), k),
        shown_attrs(attrs_view(attrs@)).len() <= 1 ==> r.1@ == shown_attrs(attrs_view(attrs@)),
{
    let (open, shown) = format_tag(tag, attrs);
    let mut close = owned("</");
    push_str(&mut close, tag);
    push_str(&mut close, ">");
    let mut v: Vec<ContentPart> = Vec::new();
    v.push(ContentPart::Text(open));
    v.push(part);
    v.push(ContentPart::Text(close));
    assert(parts_view(v@) =~= seq![(0nat, tag_text(tag@, shown@)), part_view(v@[1]), (0nat, "</"@ + tag@ + ">"@)]);
    (v, shown)
}

} // verus!
