//! The front matter of a Markdown file: the lines between two `---` lines at its start.
use vstd::prelude::*;

use crate::flow::mermaid::lines_spec;
use crate::text::{string_from_chars, trim};
use crate::utils::slashcmd::join_spec;

verus! {

/// The index of the first line from `i` on that is `---` once trimmed.
pub open spec fn closing_line(lines: Seq<Seq<char>>, i: int) -> Option<int>
    decreases lines.len() - i,
{
    if i < 0 || i >= lines.len() {
        None
    } else if trim(lines[i]) == "---"@ {
        Some(i)
    } else {
        closing_line(lines, i + 1)
    }
}

/// The front matter of a text: the lines between a first line `---` and the next `---` line,
/// joined and trimmed; `None` when there is none or it is empty.
pub open spec fn frontmatter_spec(text: Seq<char>) -> Option<Seq<char>> {
    let lines = lines_spec(text);
    if lines.len() == 0 || trim(lines[0]) != "---"@ {
        None
    } else {
        match closing_line(lines, 1) {
            None => None,
            Some(k) => {
                let body = trim(join_spec(lines.subrange(1, k), "\n"@));
                if body.len() == 0 {
                    None
                } else {
                    Some(body)
                }
            },
        }
    }
}

/// The front matter of a text, to be read as YAML.
pub fn frontmatter_block(text: &str) -> (r: Option<String>)
    ensures
        match frontmatter_spec(text@) {
            Some(b) => (r matches Some(s) && s@ == b),
            None => r is None,
        },
{
    let c = crate::text::str_chars(text);
    let lines = crate::flow::mermaid::lines_vec(c.as_slice());
    let ghost lv = crate::text::vv(lines@);
    if lines.len() == 0 {
        return None;
    }
    let first = crate::text::trim_chars(lines[0].as_slice());
    assert(lv[0] == lines@[0]@);
    if !crate::text::chars_eq_str(first.as_slice(), "---") {
        return None;
    }
    let mut k: usize = 1;
    while k < lines.len()
        invariant
            1 <= k <= lines@.len(),
            lv == crate::text::vv(lines@),
            closing_line(lv, 1) == closing_line(lv, k as int),
        ensures
            closing_line(lv, 1) == (if k < lines@.len() { Some(k as int) } else { None::<int> }),
        decreases lines@.len() - k,
    {
        let t = crate::text::trim_chars(lines[k].as_slice());
        assert(lv[k as int] == lines@[k as int]@);
        if crate::text::chars_eq_str(t.as_slice(), "---") {
            break;
        }
        k = k + 1;
    }
    if k >= lines.len() {
        return None;
    }
    let mut out: Vec<char> = Vec::new();
    let ghost parts = lv.subrange(1, k as int);
    let mut i: usize = 1;
    while i < k
        invariant
            1 <= i <= k < lines@.len(),
            lv == crate::text::vv(lines@),
            parts == lv.subrange(1, k as int),
            out@ == join_spec(parts.take(i - 1), "\n"@),
        decreases k - i,
    {
        if i > 1 {
            out.push('\n');
        }
        crate::text::append_chars(&mut out, lines[i].as_slice());
        proof {
            reveal_strlit("\n");
            let t = parts.take(i as int);
            assert(t.drop_last() =~= parts.take(i - 1));
            assert(parts[i - 1] == lines@[i as int]@);
            if i == 1 {
                assert(parts.take(0) =~= Seq::<Seq<char>>::empty());
                assert(out@ =~= parts[0]);
            } else {
                assert(out@ =~= join_spec(parts.take(i - 1), "\n"@) + "\n"@ + parts[i - 1]);
            }
        }
        i = i + 1;
    }
    assert(parts.take(k - 1) =~= parts);
    let body = crate::text::trim_chars(out.as_slice());
    if body.len() == 0 {
        None
    } else {
        Some(string_from_chars(body.as_slice()))
    }
}

/// The entries of a YAML mapping with their keys and values where those are plain strings.
pub type YamlEntries = Seq<(Option<Seq<char>>, Option<Seq<char>>)>;

/// What `serde_yaml` reads from a text: the text of its error; `None` for a value that is not
/// a mapping; or the mapping's entries in order, each key and value kept where it is a string.
pub uninterp spec fn yaml_string_map(text: Seq<char>) -> Result<Option<YamlEntries>, Seq<char>>;

/// The view of read entries.
pub open spec fn entries_view(v: Seq<(Option<String>, Option<String>)>) -> YamlEntries {
    v.map_values(|e: (Option<String>, Option<String>)| (
        match e.0 {
            Some(k) => Some(k@),
            None => None,
        },
        match e.1 {
            Some(x) => Some(x@),
            None => None,
        },
    ))
}

/// `serde_yaml::from_str::<serde_yaml::Value>(text)`: the error's text, `None` when the value
/// is not a mapping, else each entry's key and value as a string when it is `Value::String`.
#[verifier::external_body]
fn read_yaml_mapping(text: &str) -> (r: Result<Option<Vec<(Option<String>, Option<String>)>>, String>)
    ensures
        match r {
            Err(e) => yaml_string_map(text@) == Err::<Option<YamlEntries>, Seq<char>>(e@),
            Ok(None) => yaml_string_map(text@) == Ok::<Option<YamlEntries>, Seq<char>>(None),
            Ok(Some(v)) => yaml_string_map(text@) == Ok::<Option<YamlEntries>, Seq<char>>(Some(entries_view(v@))),
        },
{
    let as_text = |v: &serde_yaml::Value| match v {
        serde_yaml::Value::String(s) => Some(s.clone()),
        _ => None,
    };
    match serde_yaml::from_str::<serde_yaml::Value>(text) {
        Err(e) => Err(e.to_string()),
        Ok(serde_yaml::Value::Mapping(m)) => Ok(Some(m.iter().map(|(k, x)| (as_text(k), as_text(x))).collect())),
        Ok(_) => Ok(None),
    }
}

/// The entries of a mapping whose keys are strings, in order, each with its value where that
/// is a string.
pub type StringEntries = Seq<(Seq<char>, Option<Seq<char>>)>;

/// The entries of `es` whose keys are strings.
pub open spec fn string_keyed(es: YamlEntries) -> StringEntries
    decreases es.len(),
{
    if es.len() == 0 {
        Seq::empty()
    } else {
        let rest = string_keyed(es.drop_last());
        match es.last().0 {
            Some(k) => rest.push((k, es.last().1)),
            None => rest,
        }
    }
}

/// The view of string-keyed entries.
pub open spec fn keyed_view(v: Seq<(String, Option<String>)>) -> StringEntries {
    v.map_values(|e: (String, Option<String>)| (
        e.0@,
        match e.1 {
            Some(x) => Some(x@),
            None => None,
        },
    ))
}

/// The front matter of a text read as YAML: `None` when the text has none; an error when it is
/// not YAML or not a mapping; else the mapping's entries under string keys.
pub open spec fn frontmatter_entries(text: Seq<char>) -> Result<Option<StringEntries>, Seq<char>> {
    match frontmatter_spec(text) {
        None => Ok(None),
        Some(b) => match yaml_string_map(b) {
            Err(_) => Err("Invalid frontmatter YAML."@),
            Ok(None) => Err("Frontmatter YAML must be a mapping."@),
            Ok(Some(es)) => Ok(Some(string_keyed(es))),
        },
    }
}

/// The entries under string keys, in order.
fn keep_string_keys(v: Vec<(Option<String>, Option<String>)>) -> (r: Vec<(String, Option<String>)>)
    ensures
        keyed_view(r@) == string_keyed(entries_view(v@)),
{
    let ghost ev = entries_view(v@);
    let mut out: Vec<(String, Option<String>)> = Vec::new();
    let mut i: usize = 0;
    while i < v.len()
        invariant
            i <= v@.len(),
            ev == entries_view(v@),
            keyed_view(out@) == string_keyed(ev.take(i as int)),
        decreases v@.len() - i,
    {
        assert(ev.take(i + 1).drop_last() =~= ev.take(i as int));
        match &v[i].0 {
            Some(k) => {
                let x = match &v[i].1 {
                    Some(x) => Some(x.clone()),
                    None => None,
                };
                out.push((k.clone(), x));
                assert(keyed_view(out@) =~= string_keyed(ev.take(i as int)).push((ev[i as int].0->Some_0, ev[i as int].1)));
            },
            None => {},
        }
        i = i + 1;
    }
    assert(ev.take(v@.len() as int) =~= ev);
    out
}

/// Reads the front matter of a text as a YAML mapping, keeping the entries under string keys.
pub fn parse_frontmatter(text: &str) -> (r: Result<Option<Vec<(String, Option<String>)>>, String>)
    ensures
        match frontmatter_entries(text@) {
            Err(m) => r matches Err(x) && x@ == m,
            Ok(None) => r matches Ok(None),
            Ok(Some(es)) => r matches Ok(Some(v)) && keyed_view(v@) == es,
        },
{
    let block = match frontmatter_block(text) {
        None => {
            return Ok(None);
        },
        Some(b) => b,
    };
    match read_yaml_mapping(block.as_str()) {
        Err(_) => Err(crate::text::owned("Invalid frontmatter YAML.")),
        Ok(None) => Err(crate::text::owned("Frontmatter YAML must be a mapping.")),
        Ok(Some(v)) => Ok(Some(keep_string_keys(v))),
    }
}

/// The value a mapping gives a string key: its first entry with that key.
pub open spec fn yaml_value(es: StringEntries, key: Seq<char>) -> Option<Seq<char>>
    decreases es.len(),
{
    if es.len() == 0 {
        None
    } else if es[0].0 == key {
        es[0].1
    } else {
        yaml_value(es.drop_first(), key)
    }
}

/// The string a mapping gives a key, if any.
pub fn yaml_string(entries: &Vec<(String, Option<String>)>, key: &str) -> (r: Option<String>)
    ensures
        match yaml_value(keyed_view(entries@), key@) {
            Some(x) => r matches Some(s) && s@ == x,
            None => r is None,
        },
{
    let ghost ev = keyed_view(entries@);
    let mut i: usize = 0;
    assert(ev.skip(0) =~= ev);
    while i < entries.len()
        invariant
            i <= entries@.len(),
            ev == keyed_view(entries@),
            yaml_value(ev, key@) == yaml_value(ev.skip(i as int), key@),
        decreases entries@.len() - i,
    {
        assert(ev.skip(i as int).drop_first() =~= ev.skip(i + 1));
        if crate::text::str_eq(entries[i].0.as_str(), key) {
            return match &entries[i].1 {
                Some(x) => Some(x.clone()),
                None => None,
            };
        }
        i = i + 1;
    }
    None
}

} // verus!
