//! The main content of a web page as Markdown, headed by front matter that the page's meta
//! tags, title and JSON-LD data give.
use vstd::prelude::*;

use crate::text::{ascii_lower_seq, is_ws, join_seqs, owned, push_str, split_char, split_chars, str_chars, str_eq, string_from_chars, trim, trim_chars, trim_str, vv};
use crate::tools::utils::replace_spec;

verus! {

// ----- what only the HTML and URL libraries compute -----

/// The attributes `name`, `property` and `content` of each `meta` element, in document order.
pub uninterp spec fn meta_elements_of(html: Seq<char>) -> Seq<(Option<Seq<char>>, Option<Seq<char>>, Option<Seq<char>>)>;

/// The text pieces of the first element a selector picks, if any.
pub uninterp spec fn first_text_of(html: Seq<char>, selector: Seq<char>) -> Option<Seq<Seq<char>>>;

/// The inner HTML of each element a selector picks, in document order.
pub uninterp spec fn inner_htmls_of(html: Seq<char>, selector: Seq<char>) -> Seq<Seq<char>>;

/// HTML converted to Markdown, as `html2md::parse_html` does.
pub uninterp spec fn markdown_of(html: Seq<char>) -> Seq<char>;

/// The host of a URL, as `url::Url::parse` and `host_str` give it; `None` when it does not
/// parse or has no host.
pub uninterp spec fn url_host_of(url: Seq<char>) -> Option<Seq<char>>;

fn opt_string(o: Option<&str>) -> (r: Option<String>)
    ensures
        match o {
            Some(s) => r matches Some(t) && t@ == s@,
            None => r is None,
        },
{
    match o {
        Some(s) => Some(owned(s)),
        None => None,
    }
}

/// `scraper`: parses a document and reads the attributes `name`, `property` and `content` of
/// each `meta` element.
#[verifier::external_body]
fn meta_elements(html: &str) -> (r: Vec<(Option<String>, Option<String>, Option<String>)>)
    ensures
        r@.map_values(|t: (Option<String>, Option<String>, Option<String>)| (opt_view(t.0), opt_view(t.1), opt_view(t.2)))
            == meta_elements_of(html@),
{
    let document = scraper::Html::parse_document(html);
    let selector = scraper::Selector::parse("meta").unwrap();
    document.select(&selector).map(|e| (e.value().attr("name").map(String::from), e.value().attr("property").map(String::from), e.value().attr("content").map(String::from))).collect()
}

/// `scraper`: parses a document and reads the text pieces of the first element a selector
/// picks; `None` when there is none or the selector does not parse.
#[verifier::external_body]
fn first_text(html: &str, selector: &str) -> (r: Option<Vec<String>>)
    ensures
        match first_text_of(html@, selector@) {
            Some(ts) => r matches Some(v) && v@.map_values(|s: String| s@) == ts,
            None => r is None,
        },
{
    let document = scraper::Html::parse_document(html);
    let selector = scraper::Selector::parse(selector).ok()?;
    document.select(&selector).next().map(|node| node.text().map(String::from).collect())
}

/// `scraper`: parses a document and reads the inner HTML of each element a selector picks;
/// nothing when the selector does not parse.
#[verifier::external_body]
fn inner_htmls(html: &str, selector: &str) -> (r: Vec<String>)
    ensures
        r@.map_values(|s: String| s@) == inner_htmls_of(html@, selector@),
{
    let document = scraper::Html::parse_document(html);
    match scraper::Selector::parse(selector) {
        Ok(sel) => document.select(&sel).map(|node| node.inner_html()).collect(),
        Err(_) => Vec::new(),
    }
}

/// `html2md::parse_html`: the Markdown of an HTML fragment, named as a function of the fragment.
/// Whether the conversion returns on every input is not stated: the converter slices its own
/// output by byte positions and unwraps results in places, and its source does not settle that
/// this never fails.
#[verifier::external_body]
fn html_to_markdown(html: &str) -> (r: String)
    ensures
        r@ == markdown_of(html@),
{
    html2md::parse_html(html)
}

/// `url::Url::parse(url)` and `host_str`.
#[verifier::external_body]
fn url_host(url: &str) -> (r: Option<String>)
    ensures
        match url_host_of(url@) {
            Some(h) => r matches Some(s) && s@ == h,
            None => r is None,
        },
{
    match url::Url::parse(url) {
        Ok(parsed) => parsed.host_str().map(String::from),
        Err(_) => None,
    }
}

/// The view of an optional string.
pub open spec fn opt_view(o: Option<String>) -> Option<Seq<char>> {
    match o {
        Some(s) => Some(s@),
        None => None,
    }
}

// ----- JSON-LD -----

/// A JSON value: strings, arrays, objects (with their entries in the order the parser keeps
/// them), numbers (as written), booleans and null.
pub enum JsonValue {
    Str(String),
    Array(Vec<JsonValue>),
    Object(Vec<(String, JsonValue)>),
    Number(String),
    Bool(bool),
    Null,
}

/// The string an object holds under a key, if that entry is a string.
pub open spec fn str_entry(entries: Seq<(String, JsonValue)>, key: Seq<char>, i: int) -> Option<Seq<char>>
    decreases entries.len() - i,
{
    if i < 0 || i >= entries.len() {
        None
    } else if entries[i].0@ == key {
        match entries[i].1 {
            JsonValue::Str(s) => Some(s@),
            _ => None,
        }
    } else {
        str_entry(entries, key, i + 1)
    }
}

/// The first string found for a field: in an object, its own entry when that is a string,
/// else in its values in order; in an array, in its items in order.
pub open spec fn jsonld_field(v: JsonValue, field: Seq<char>) -> Option<Seq<char>>
    decreases v, 0int,
{
    match v {
        JsonValue::Object(entries) => match str_entry(entries@, field, 0) {
            Some(s) => Some(s),
            None => first_in_entries(entries@, field, 0),
        },
        JsonValue::Array(items) => first_in_items(items@, field, 0),
        _ => None,
    }
}

/// The first string found for a field in the values of entries from `i` on.
pub open spec fn first_in_entries(entries: Seq<(String, JsonValue)>, field: Seq<char>, i: int) -> Option<Seq<char>>
    decreases entries, entries.len() - i,
{
    if i < 0 || i >= entries.len() {
        None
    } else {
        match jsonld_field(entries[i].1, field) {
            Some(s) => Some(s),
            None => first_in_entries(entries, field, i + 1),
        }
    }
}

/// The first string found for a field in items from `i` on.
pub open spec fn first_in_items(items: Seq<JsonValue>, field: Seq<char>, i: int) -> Option<Seq<char>>
    decreases items, items.len() - i,
{
    if i < 0 || i >= items.len() {
        None
    } else {
        match jsonld_field(items[i], field) {
            Some(s) => Some(s),
            None => first_in_items(items, field, i + 1),
        }
    }
}

pub(crate) fn str_entry_of(entries: &Vec<(String, JsonValue)>, key: &str) -> (r: Option<String>)
    ensures
        opt_view(r) == str_entry(entries@, key@, 0),
{
    let mut i: usize = 0;
    while i < entries.len()
        invariant
            i <= entries@.len(),
            str_entry(entries@, key@, 0) == str_entry(entries@, key@, i as int),
        decreases entries@.len() - i,
    {
        if str_eq(entries[i].0.as_str(), key) {
            return match &entries[i].1 {
                JsonValue::Str(s) => Some(s.clone()),
                _ => None,
            };
        }
        i = i + 1;
    }
    None
}

/// The first string found for a field in JSON-LD data.
pub fn find_jsonld_field(value: &JsonValue, field: &str) -> (r: Option<String>)
    ensures
        opt_view(r) == jsonld_field(*value, field@),
    decreases *value, 0int,
{
    match value {
        JsonValue::Object(entries) => {
            match str_entry_of(entries, field) {
                Some(s) => Some(s),
                None => {
                    let mut i: usize = 0;
                    while i < entries.len()
                        invariant
                            i <= entries@.len(),
                            *value == JsonValue::Object(*entries),
                            str_entry(entries@, field@, 0) is None,
                            first_in_entries(entries@, field@, 0) == first_in_entries(entries@, field@, i as int),
                        decreases entries@.len() - i,
                    {
                        proof {
                            assert(decreases_to!(*value => entries@[i as int].1));
                        }
                        match find_jsonld_field(&entries[i].1, field) {
                            Some(s) => {
                                return Some(s);
                            },
                            None => {},
                        }
                        i = i + 1;
                    }
                    None
                },
            }
        },
        JsonValue::Array(items) => {
            let mut i: usize = 0;
            while i < items.len()
                invariant
                    i <= items@.len(),
                    *value == JsonValue::Array(*items),
                    first_in_items(items@, field@, 0) == first_in_items(items@, field@, i as int),
                decreases items@.len() - i,
            {
                proof {
                    assert(decreases_to!(*value => items@[i as int]));
                }
                match find_jsonld_field(&items[i], field) {
                    Some(s) => {
                        return Some(s);
                    },
                    None => {},
                }
                i = i + 1;
            }
            None
        },
        _ => None,
    }
}

/// The name of the first `author` entry of an object, when that entry is an object whose
/// `name` is a string.
pub open spec fn author_name(entries: Seq<(String, JsonValue)>, i: int) -> Option<Seq<char>>
    decreases entries.len() - i,
{
    if i < 0 || i >= entries.len() {
        None
    } else if entries[i].0@ == "author"@ {
        match entries[i].1 {
            JsonValue::Object(ae) => str_entry(ae@, "name"@, 0),
            _ => None,
        }
    } else {
        author_name(entries, i + 1)
    }
}

/// The first author found in JSON-LD data: an object's own author's name, else one found in
/// its values in order; in an array, one found in its items in order.
pub open spec fn jsonld_author(v: JsonValue) -> Option<Seq<char>>
    decreases v, 0int,
{
    match v {
        JsonValue::Object(entries) => match author_name(entries@, 0) {
            Some(s) => Some(s),
            None => author_in_entries(entries@, 0),
        },
        JsonValue::Array(items) => author_in_items(items@, 0),
        _ => None,
    }
}

/// The first author found in the values of entries from `i` on.
pub open spec fn author_in_entries(entries: Seq<(String, JsonValue)>, i: int) -> Option<Seq<char>>
    decreases entries, entries.len() - i,
{
    if i < 0 || i >= entries.len() {
        None
    } else {
        match jsonld_author(entries[i].1) {
            Some(s) => Some(s),
            None => author_in_entries(entries, i + 1),
        }
    }
}

/// The first author found in items from `i` on.
pub open spec fn author_in_items(items: Seq<JsonValue>, i: int) -> Option<Seq<char>>
    decreases items, items.len() - i,
{
    if i < 0 || i >= items.len() {
        None
    } else {
        match jsonld_author(items[i]) {
            Some(s) => Some(s),
            None => author_in_items(items, i + 1),
        }
    }
}

fn author_name_of(entries: &Vec<(String, JsonValue)>) -> (r: Option<String>)
    ensures
        opt_view(r) == author_name(entries@, 0),
{
    let mut i: usize = 0;
    while i < entries.len()
        invariant
            i <= entries@.len(),
            author_name(entries@, 0) == author_name(entries@, i as int),
        decreases entries@.len() - i,
    {
        if str_eq(entries[i].0.as_str(), "author") {
            return match &entries[i].1 {
                JsonValue::Object(ae) => str_entry_of(ae, "name"),
                _ => None,
            };
        }
        i = i + 1;
    }
    None
}

/// The first author found in JSON-LD data.
pub fn find_jsonld_author(value: &JsonValue) -> (r: Option<String>)
    ensures
        opt_view(r) == jsonld_author(*value),
    decreases *value, 0int,
{
    match value {
        JsonValue::Object(entries) => {
            match author_name_of(entries) {
                Some(s) => Some(s),
                None => {
                    let mut i: usize = 0;
                    while i < entries.len()
                        invariant
                            i <= entries@.len(),
                            *value == JsonValue::Object(*entries),
                            author_name(entries@, 0) is None,
                            author_in_entries(entries@, 0) == author_in_entries(entries@, i as int),
                        decreases entries@.len() - i,
                    {
                        proof {
                            assert(decreases_to!(*value => entries@[i as int].1));
                        }
                        match find_jsonld_author(&entries[i].1) {
                            Some(s) => {
                                return Some(s);
                            },
                            None => {},
                        }
                        i = i + 1;
                    }
                    None
                },
            }
        },
        JsonValue::Array(items) => {
            let mut i: usize = 0;
            while i < items.len()
                invariant
                    i <= items@.len(),
                    *value == JsonValue::Array(*items),
                    author_in_items(items@, 0) == author_in_items(items@, i as int),
                decreases items@.len() - i,
            {
                proof {
                    assert(decreases_to!(*value => items@[i as int]));
                }
                match find_jsonld_author(&items[i]) {
                    Some(s) => {
                        return Some(s);
                    },
                    None => {},
                }
                i = i + 1;
            }
            None
        },
        _ => None,
    }
}

/// The date the first JSON-LD value that has one gives: its `datePublished`, else its
/// `dateCreated`.
pub open spec fn jsonld_date(vs: Seq<JsonValue>, i: int) -> Option<Seq<char>>
    decreases vs.len() - i,
{
    if i < 0 || i >= vs.len() {
        None
    } else {
        match jsonld_field(vs[i], "datePublished"@) {
            Some(d) => Some(d),
            None => match jsonld_field(vs[i], "dateCreated"@) {
                Some(d) => Some(d),
                None => jsonld_date(vs, i + 1),
            },
        }
    }
}

/// The author the first JSON-LD value that names one gives.
pub open spec fn jsonld_first_author(vs: Seq<JsonValue>, i: int) -> Option<Seq<char>>
    decreases vs.len() - i,
{
    if i < 0 || i >= vs.len() {
        None
    } else {
        match jsonld_author(vs[i]) {
            Some(a) => Some(a),
            None => jsonld_first_author(vs, i + 1),
        }
    }
}

fn date_of_values(vs: &Vec<JsonValue>) -> (r: Option<String>)
    ensures
        opt_view(r) == jsonld_date(vs@, 0),
{
    let mut i: usize = 0;
    while i < vs.len()
        invariant
            i <= vs@.len(),
            jsonld_date(vs@, 0) == jsonld_date(vs@, i as int),
        decreases vs@.len() - i,
    {
        match find_jsonld_field(&vs[i], "datePublished") {
            Some(d) => {
                return Some(d);
            },
            None => {},
        }
        match find_jsonld_field(&vs[i], "dateCreated") {
            Some(d) => {
                return Some(d);
            },
            None => {},
        }
        i = i + 1;
    }
    None
}

fn author_of_values(vs: &Vec<JsonValue>) -> (r: Option<String>)
    ensures
        opt_view(r) == jsonld_first_author(vs@, 0),
{
    let mut i: usize = 0;
    while i < vs.len()
        invariant
            i <= vs@.len(),
            jsonld_first_author(vs@, 0) == jsonld_first_author(vs@, i as int),
        decreases vs@.len() - i,
    {
        match find_jsonld_author(&vs[i]) {
            Some(a) => {
                return Some(a);
            },
            None => {},
        }
        i = i + 1;
    }
    None
}

// ----- meta tags -----

/// The view of a `meta` element: its `name`, `property` and `content`.
pub type MetaV = (Option<Seq<char>>, Option<Seq<char>>, Option<Seq<char>>);

/// The key of a `meta` element: its `name`, else its `property`, in ASCII lowercase.
pub open spec fn meta_key(e: MetaV) -> Option<Seq<char>> {
    match e.0 {
        Some(n) => Some(ascii_lower_seq(n)),
        None => match e.1 {
            Some(p) => Some(ascii_lower_seq(p)),
            None => None,
        },
    }
}

/// The content of the first `meta` element with a key and a non-empty trimmed content.
pub open spec fn meta_get(es: Seq<MetaV>, k: Seq<char>, i: int) -> Option<Seq<char>>
    decreases es.len() - i,
{
    if i < 0 || i >= es.len() {
        None
    } else if meta_key(es[i]) == Some(k) && (es[i].2 matches Some(c) && trim(c).len() > 0) {
        Some(trim(es[i].2->0))
    } else {
        meta_get(es, k, i + 1)
    }
}

fn lower_ascii(s: &str) -> (r: String)
    ensures
        r@ == ascii_lower_seq(s@),
{
    let cs = str_chars(s);
    let mut out: Vec<char> = Vec::new();
    let mut i: usize = 0;
    while i < cs.len()
        invariant
            i <= cs@.len(),
            out@ == ascii_lower_seq(cs@.take(i as int)),
        decreases cs@.len() - i,
    {
        out.push(crate::text::to_ascii_lower(cs[i]));
        assert(ascii_lower_seq(cs@.take(i + 1)) =~= ascii_lower_seq(cs@.take(i as int)).push(
            crate::text::ascii_lower(cs@[i as int]),
        ));
        i = i + 1;
    }
    assert(cs@.take(cs@.len() as int) =~= cs@);
    string_from_chars(out.as_slice())
}

/// The views of `meta` elements.
pub open spec fn metas_view(v: Seq<(Option<String>, Option<String>, Option<String>)>) -> Seq<MetaV> {
    v.map_values(|t: (Option<String>, Option<String>, Option<String>)| (opt_view(t.0), opt_view(t.1), opt_view(t.2)))
}

fn meta_lookup(es: &Vec<(Option<String>, Option<String>, Option<String>)>, k: &str) -> (r: Option<String>)
    ensures
        opt_view(r) == meta_get(metas_view(es@), k@, 0),
{
    let ghost mv = metas_view(es@);
    let mut i: usize = 0;
    while i < es.len()
        invariant
            i <= es@.len(),
            mv == metas_view(es@),
            meta_get(mv, k@, 0) == meta_get(mv, k@, i as int),
        decreases es@.len() - i,
    {
        let key = match &es[i].0 {
            Some(n) => Some(lower_ascii(n.as_str())),
            None => match &es[i].1 {
                Some(p) => Some(lower_ascii(p.as_str())),
                None => None,
            },
        };
        assert(opt_view(key) == meta_key(mv[i as int]));
        match key {
            Some(kk) => {
                if str_eq(kk.as_str(), k) {
                    match &es[i].2 {
                        Some(c) => {
                            let t = trim_str(c.as_str());
                            if !t.as_str().is_empty() {
                                return Some(t);
                            }
                        },
                        None => {},
                    }
                }
            },
            None => {},
        }
        i = i + 1;
    }
    None
}

/// The first of two options that is set.
pub open spec fn first_some(a: Option<Seq<char>>, b: Option<Seq<char>>) -> Option<Seq<char>> {
    match a {
        Some(x) => Some(x),
        None => b,
    }
}

fn first_set(a: Option<String>, b: Option<String>) -> (r: Option<String>)
    ensures
        opt_view(r) == first_some(opt_view(a), opt_view(b)),
{
    match a {
        Some(x) => Some(x),
        None => b,
    }
}

/// The items of a comma-separated list, trimmed, without empty ones.
pub open spec fn categories_of(v: Seq<char>) -> Seq<Seq<char>> {
    split_char(v, ',').map_values(|p: Seq<char>| trim(p)).filter(|p: Seq<char>| p.len() > 0)
}

/// Splits a comma-separated list into its trimmed, non-empty items.
pub fn split_categories(value: &str) -> (r: Vec<String>)
    ensures
        r@.map_values(|s: String| s@) == categories_of(value@),
{
    let cs = str_chars(value);
    let parts = split_chars(cs.as_slice(), ',');
    let ghost trimmed = vv(parts@).map_values(|p: Seq<char>| trim(p));
    let mut out: Vec<String> = Vec::new();
    let mut i: usize = 0;
    while i < parts.len()
        invariant
            i <= parts@.len(),
            trimmed == vv(parts@).map_values(|p: Seq<char>| trim(p)),
            out@.map_values(|s: String| s@) == trimmed.take(i as int).filter(|p: Seq<char>| p.len() > 0),
        decreases parts@.len() - i,
    {
        let t = trim_chars(parts[i].as_slice());
        let ghost o0 = out@;
        proof {
            assert(trimmed.take(i + 1) =~= trimmed.take(i as int).push(trimmed[i as int]));
            trimmed.take(i as int).lemma_filter_push(trimmed[i as int], |p: Seq<char>| p.len() > 0);
            assert(trimmed[i as int] == t@);
        }
        if t.len() > 0 {
            out.push(string_from_chars(t.as_slice()));
            assert(out@.map_values(|s: String| s@) =~= o0.map_values(|s: String| s@).push(t@));
        }
        i = i + 1;
    }
    assert(trimmed.take(parts@.len() as int) =~= trimmed);
    out
}

/// A list of categories when it has any items.
pub open spec fn nonempty_categories(v: Option<Seq<char>>) -> Option<Seq<Seq<char>>> {
    match v {
        Some(s) => if categories_of(s).len() > 0 {
            Some(categories_of(s))
        } else {
            None
        },
        None => None,
    }
}

fn categories_from(v: Option<String>) -> (r: Option<Vec<String>>)
    ensures
        match nonempty_categories(opt_view(v)) {
            Some(cs) => r matches Some(x) && x@.map_values(|s: String| s@) == cs,
            None => r is None,
        },
{
    match v {
        Some(s) => {
            let items = split_categories(s.as_str());
            if items.len() > 0 {
                Some(items)
            } else {
                None
            }
        },
        None => None,
    }
}

// ----- front matter -----

/// The pieces of `s` between white-space characters.
pub open spec fn split_ws(s: Seq<char>) -> Seq<Seq<char>>
    decreases s.len(),
{
    if s.len() == 0 {
        seq![Seq::empty()]
    } else {
        let p = split_ws(s.drop_last());
        if is_ws(s.last()) {
            p.push(Seq::empty())
        } else {
            p.update(p.len() - 1, p.last().push(s.last()))
        }
    }
}

/// The words of a text, as `split_whitespace` gives them.
pub open spec fn words(s: Seq<char>) -> Seq<Seq<char>> {
    split_ws(s).filter(|w: Seq<char>| w.len() > 0)
}

/// A value written on one line of front matter: trimmed, line breaks made spaces, and runs of
/// white space made single spaces.
pub open spec fn scalar_text(v: Seq<char>) -> Seq<char> {
    join_seqs(words(replace_spec(replace_spec(trim(v), "\n"@, " "@), "\r"@, " "@)), " "@)
}

fn split_ws_chars(s: &[char]) -> (r: Vec<Vec<char>>)
    ensures
        vv(r@) == split_ws(s@),
{
    let mut r: Vec<Vec<char>> = Vec::new();
    let mut cur: Vec<char> = Vec::new();
    let mut i: usize = 0;
    assert(s@.take(0) =~= Seq::<char>::empty());
    while i < s.len()
        invariant
            i <= s@.len(),
            vv(r@).push(cur@) == split_ws(s@.take(i as int)),
        decreases s@.len() - i,
    {
        let ghost prev = vv(r@).push(cur@);
        assert(s@.take(i as int + 1).drop_last() =~= s@.take(i as int));
        if crate::text::is_whitespace(s[i]) {
            let done = cur;
            r.push(done);
            cur = Vec::new();
            assert(vv(r@).push(cur@) =~= prev.push(Seq::empty()));
        } else {
            cur.push(s[i]);
            assert(vv(r@).push(cur@) =~= prev.update(prev.len() - 1, prev.last().push(s@[i as int])));
        }
        i = i + 1;
    }
    assert(s@.take(s@.len() as int) =~= s@);
    r.push(cur);
    r
}

/// Writes a value on one line of front matter.
pub fn normalize_scalar(value: &str) -> (r: String)
    ensures
        r@ == scalar_text(value@),
{
    let t = trim_str(value);
    let a = crate::tools::utils::replace_all(t.as_str(), "\n", " ");
    let b = crate::tools::utils::replace_all(a.as_str(), "\r", " ");
    let cs = str_chars(b.as_str());
    let pieces = split_ws_chars(cs.as_slice());
    let ghost pv = vv(pieces@);
    let mut kept: Vec<Vec<char>> = Vec::new();
    let mut i: usize = 0;
    while i < pieces.len()
        invariant
            i <= pieces@.len(),
            pv == vv(pieces@),
            vv(kept@) == pv.take(i as int).filter(|w: Seq<char>| w.len() > 0),
        decreases pieces@.len() - i,
    {
        proof {
            assert(pv.take(i + 1) =~= pv.take(i as int).push(pv[i as int]));
            pv.take(i as int).lemma_filter_push(pv[i as int], |w: Seq<char>| w.len() > 0);
        }
        if pieces[i].len() > 0 {
            let ghost k0 = kept@;
            kept.push(pieces[i].clone());
            proof {
                crate::text::lemma_vv_push(k0, pieces@[i as int]);
            }
        }
        i = i + 1;
    }
    assert(pv.take(pieces@.len() as int) =~= pv);
    let sp = str_chars(" ");
    let joined = crate::text::join_chars(&kept, sp.as_slice());
    string_from_chars(joined.as_slice())
}

/// A date cut to its first ten bytes (the day), when it has as many.
pub open spec fn normalized_date(v: Seq<char>) -> Option<Seq<char>> {
    let t = trim(v);
    if t.len() == 0 {
        None
    } else if crate::text::utf8_len(t) >= 10 {
        crate::text::byte_cut(t, 10)
    } else {
        Some(t)
    }
}

/// Whether a date can be cut to its first ten bytes: the cut falls between characters.
pub open spec fn date_cuts(v: Seq<char>) -> bool {
    crate::text::utf8_len(trim(v)) >= 10 ==> crate::text::byte_cut(trim(v), 10) is Some
}

/// A date, trimmed, cut to its first ten bytes; `None` when blank.
pub fn normalize_date(value: &str) -> (r: Option<String>)
    requires
        date_cuts(value@),
    ensures
        opt_view(r) == normalized_date(value@),
{
    let t = trim_chars(str_chars(value).as_slice());
    if t.len() == 0 {
        return None;
    }
    let n = crate::tools::utils::byte_len(t.as_slice());
    if n >= 10 {
        match crate::text::cut_at_byte(t.as_slice(), 10) {
            Some(c) => Some(string_from_chars(c.as_slice())),
            None => None,
        }
    } else {
        Some(string_from_chars(t.as_slice()))
    }
}

/// What a page tells of itself.
pub struct ExtractedMetadata {
    pub title: Option<String>,
    pub author: Option<String>,
    pub url: Option<String>,
    pub hostname: Option<String>,
    pub description: Option<String>,
    pub sitename: Option<String>,
    pub date: Option<String>,
    pub categories: Option<Vec<String>>,
}

/// A category quoted for front matter, with its quotes doubled.
pub open spec fn quoted_category(c: Seq<char>) -> Seq<char> {
    "'"@ + replace_spec(c, "'"@, "''"@) + "'"@
}

/// The line of a field, when the field is set.
pub open spec fn field_line(key: Seq<char>, v: Option<String>) -> Seq<Seq<char>> {
    match v {
        Some(s) => seq![key + ": "@ + scalar_text(s@)],
        None => Seq::empty(),
    }
}

/// The lines of front matter between its fences.
pub open spec fn front_lines(m: ExtractedMetadata) -> Seq<Seq<char>> {
    field_line("title"@, m.title) + field_line("author"@, m.author) + field_line("url"@, m.url) + field_line(
        "hostname"@,
        m.hostname,
    ) + field_line("description"@, m.description) + field_line("sitename"@, m.sitename) + field_line(
        "date"@,
        m.date,
    ) + match m.categories {
        Some(cs) => if cs@.len() > 0 {
            seq![
                "categories: ["@ + join_seqs(
                    cs@.map_values(|c: String| quoted_category(c@)),
                    ", "@,
                ) + "]"@,
            ]
        } else {
            Seq::empty()
        },
        None => Seq::empty(),
    }
}

/// Front matter: the set fields between `---` fences, or nothing when none is set.
pub open spec fn frontmatter_text(m: ExtractedMetadata) -> Seq<char> {
    let ls = front_lines(m);
    if ls.len() == 0 {
        Seq::empty()
    } else {
        join_seqs(seq!["---"@] + ls + seq!["---"@], "\n"@)
    }
}

fn push_field(lines: &mut Vec<Vec<char>>, key: &str, v: &Option<String>)
    ensures
        vv(final(lines)@) == vv(old(lines)@) + field_line(key@, *v),
{
    let ghost l0 = lines@;
    match v {
        Some(s) => {
            let mut t = crate::text::owned(key);
            push_str(&mut t, ": ");
            let n = normalize_scalar(s.as_str());
            push_str(&mut t, n.as_str());
            lines.push(str_chars(t.as_str()));
            proof {
                crate::text::lemma_vv_push(l0, lines@.last());
            }
        },
        None => {
            assert(vv(lines@) =~= vv(l0) + Seq::<Seq<char>>::empty());
        },
    }
}

/// The line that lists categories, when there are any.
pub open spec fn category_line(c: Option<Vec<String>>) -> Seq<Seq<char>> {
    match c {
        Some(cs) => if cs@.len() > 0 {
            seq!["categories: ["@ + join_seqs(cs@.map_values(|c: String| quoted_category(c@)), ", "@) + "]"@]
        } else {
            Seq::empty()
        },
        None => Seq::empty(),
    }
}

fn push_categories(lines: &mut Vec<Vec<char>>, categories: &Option<Vec<String>>)
    ensures
        vv(final(lines)@) == vv(old(lines)@) + category_line(*categories),
{
    let ghost l0 = lines@;
    match categories {
        Some(values) => {
            if values.len() > 0 {
                let mut quoted: Vec<Vec<char>> = Vec::new();
                let mut i: usize = 0;
                while i < values.len()
                    invariant
                        i <= values@.len(),
                        vv(quoted@) == values@.map_values(|c: String| quoted_category(c@)).take(i as int),
                    decreases values@.len() - i,
                {
                    let mut q = owned("'");
                    let e = crate::tools::utils::replace_all(values[i].as_str(), "'", "''");
                    push_str(&mut q, e.as_str());
                    push_str(&mut q, "'");
                    let ghost q0 = quoted@;
                    quoted.push(str_chars(q.as_str()));
                    proof {
                        crate::text::lemma_vv_push(q0, quoted@.last());
                        assert(values@.map_values(|c: String| quoted_category(c@)).take(i + 1) =~= values@.map_values(
                            |c: String| quoted_category(c@),
                        ).take(i as int).push(quoted_category(values@[i as int]@)));
                    }
                    i = i + 1;
                }
                assert(values@.map_values(|c: String| quoted_category(c@)).take(values@.len() as int) =~= values@.map_values(
                    |c: String| quoted_category(c@),
                ));
                let sep = str_chars(", ");
                let joined = crate::text::join_chars(&quoted, sep.as_slice());
                let mut line = owned("categories: [");
                crate::text::push_chars(&mut line, joined.as_slice());
                push_str(&mut line, "]");
                lines.push(str_chars(line.as_str()));
                proof {
                    crate::text::lemma_vv_push(l0, lines@.last());
                }
            } else {
                assert(vv(lines@) =~= vv(l0) + Seq::<Seq<char>>::empty());
            }
        },
        None => {
            assert(vv(lines@) =~= vv(l0) + Seq::<Seq<char>>::empty());
        },
    }
}

fn push_fields(lines: &mut Vec<Vec<char>>, meta: &ExtractedMetadata)
    ensures
        vv(final(lines)@) == vv(old(lines)@) + front_lines(*meta),
{
    let ghost l0 = vv(lines@);
    push_field(lines, "title", &meta.title);
    push_field(lines, "author", &meta.author);
    push_field(lines, "url", &meta.url);
    push_field(lines, "hostname", &meta.hostname);
    push_field(lines, "description", &meta.description);
    push_field(lines, "sitename", &meta.sitename);
    push_field(lines, "date", &meta.date);
    push_categories(lines, &meta.categories);
    assert(category_line(meta.categories) == (match meta.categories {
        Some(cs) => if cs@.len() > 0 {
            seq!["categories: ["@ + join_seqs(cs@.map_values(|c: String| quoted_category(c@)), ", "@) + "]"@]
        } else {
            Seq::<Seq<char>>::empty()
        },
        None => Seq::<Seq<char>>::empty(),
    }));
    assert(vv(lines@) =~= l0 + front_lines(*meta));
}

/// Writes the front matter of a page's metadata.
pub fn build_frontmatter(meta: &ExtractedMetadata) -> (r: String)
    ensures
        r@ == frontmatter_text(*meta),
{
    let mut lines: Vec<Vec<char>> = Vec::new();
    lines.push(str_chars("---"));
    assert(vv(lines@) =~= seq!["---"@]);
    push_fields(&mut lines, meta);
    assert(vv(lines@).len() == lines@.len());
    if lines.len() == 1 {
        assert(front_lines(*meta).len() == 0);
        return String::new();
    }
    let ghost l1 = lines@;
    lines.push(str_chars("---"));
    proof {
        crate::text::lemma_vv_push(l1, lines@.last());
        assert(vv(lines@) =~= seq!["---"@] + front_lines(*meta) + seq!["---"@]);
    }
    let nl = str_chars("\n");
    let joined = crate::text::join_chars(&lines, nl.as_slice());
    string_from_chars(joined.as_slice())
}

/// The title the first `title` element gives: its text, trimmed, when not empty.
pub open spec fn title_of(pieces: Option<Seq<Seq<char>>>) -> Option<Seq<char>> {
    match pieces {
        Some(ps) => if trim(join_seqs(ps, Seq::empty())).len() > 0 {
            Some(trim(join_seqs(ps, Seq::empty())))
        } else {
            None
        },
        None => None,
    }
}

/// The date a page gives before it is cut: JSON-LD's, else the meta tags'.
pub open spec fn date_candidate(es: Seq<MetaV>, jsonld: Seq<JsonValue>) -> Option<Seq<char>> {
    first_some(
        jsonld_date(jsonld, 0),
        first_some(meta_get(es, "article:published_time"@, 0), meta_get(es, "date"@, 0)),
    )
}

/// The view of an optional list of strings.
pub open spec fn opt_strs_view(o: Option<Vec<String>>) -> Option<Seq<Seq<char>>> {
    match o {
        Some(v) => Some(v@.map_values(|s: String| s@)),
        None => None,
    }
}

/// The metadata of a page, as its fields read it.
pub open spec fn metadata_ok(
    m: ExtractedMetadata,
    es: Seq<MetaV>,
    title: Option<Seq<Seq<char>>>,
    jsonld: Seq<JsonValue>,
    url: Seq<char>,
) -> bool {
    &&& opt_view(m.title) == first_some(
        meta_get(es, "og:title"@, 0),
        first_some(meta_get(es, "twitter:title"@, 0), first_some(meta_get(es, "title"@, 0), title_of(title))),
    )
    &&& opt_view(m.description) == first_some(meta_get(es, "og:description"@, 0), meta_get(es, "description"@, 0))
    &&& opt_view(m.sitename) == first_some(meta_get(es, "og:site_name"@, 0), meta_get(es, "application-name"@, 0))
    &&& opt_view(m.author) == first_some(
        meta_get(es, "octolytics-dimension-user_login"@, 0),
        first_some(meta_get(es, "author"@, 0), jsonld_first_author(jsonld, 0)),
    )
    &&& opt_view(m.date) == match date_candidate(es, jsonld) {
        Some(d) => normalized_date(d),
        None => None,
    }
    &&& opt_strs_view(m.categories) == match nonempty_categories(meta_get(es, "hovercard-subject-tag"@, 0)) {
        Some(c) => Some(c),
        None => nonempty_categories(meta_get(es, "article:tag"@, 0)),
    }
    &&& opt_view(m.url) == if trim(url).len() == 0 {
        None
    } else {
        Some(url)
    }
    &&& opt_view(m.hostname) == url_host_of(url)
}

fn title_text(pieces: Option<Vec<String>>) -> (r: Option<String>)
    ensures
        opt_view(r) == title_of(opt_strs_view(pieces)),
{
    match pieces {
        Some(ps) => {
            let mut cs: Vec<Vec<char>> = Vec::new();
            let mut i: usize = 0;
            while i < ps.len()
                invariant
                    i <= ps@.len(),
                    vv(cs@) == ps@.map_values(|s: String| s@).take(i as int),
                decreases ps@.len() - i,
            {
                let ghost c0 = cs@;
                cs.push(str_chars(ps[i].as_str()));
                proof {
                    crate::text::lemma_vv_push(c0, cs@.last());
                    assert(ps@.map_values(|s: String| s@).take(i + 1) =~= ps@.map_values(|s: String| s@).take(i as int).push(
                        ps@[i as int]@,
                    ));
                }
                i = i + 1;
            }
            assert(ps@.map_values(|s: String| s@).take(ps@.len() as int) =~= ps@.map_values(|s: String| s@));
            let empty: Vec<char> = Vec::new();
            let joined = crate::text::join_chars(&cs, empty.as_slice());
            let t = trim_chars(joined.as_slice());
            assert(empty@ =~= Seq::<char>::empty());
            if t.len() > 0 {
                Some(string_from_chars(t.as_slice()))
            } else {
                None
            }
        },
        None => None,
    }
}

/// Reads a page's metadata from its `meta` elements, its title's text, its JSON-LD data and
/// its URL.
pub fn extract_metadata(
    metas: &Vec<(Option<String>, Option<String>, Option<String>)>,
    title: Option<Vec<String>>,
    jsonld: &Vec<JsonValue>,
    url: &str,
) -> (r: ExtractedMetadata)
    requires
        date_candidate(metas_view(metas@), jsonld@) matches Some(d) ==> date_cuts(d),
    ensures
        metadata_ok(r, metas_view(metas@), opt_strs_view(title), jsonld@, url@),
{
    let title = first_set(
        meta_lookup(metas, "og:title"),
        first_set(meta_lookup(metas, "twitter:title"), first_set(meta_lookup(metas, "title"), title_text(title))),
    );
    let description = first_set(meta_lookup(metas, "og:description"), meta_lookup(metas, "description"));
    let sitename = first_set(meta_lookup(metas, "og:site_name"), meta_lookup(metas, "application-name"));
    let author = first_set(
        meta_lookup(metas, "octolytics-dimension-user_login"),
        first_set(meta_lookup(metas, "author"), author_of_values(jsonld)),
    );
    let candidate = first_set(
        date_of_values(jsonld),
        first_set(meta_lookup(metas, "article:published_time"), meta_lookup(metas, "date")),
    );
    let date = match candidate {
        Some(d) => normalize_date(d.as_str()),
        None => None,
    };
    let categories = match categories_from(meta_lookup(metas, "hovercard-subject-tag")) {
        Some(c) => Some(c),
        None => categories_from(meta_lookup(metas, "article:tag")),
    };
    let url_value = if trim_str(url).as_str().is_empty() {
        None
    } else {
        Some(owned(url))
    };
    let hostname = url_host(url);
    ExtractedMetadata { title, author, url: url_value, hostname, description, sitename, date, categories }
}

/// The HTML that holds a page's content: the first of a `.comment-body`, an `article` or a
/// `main` element whose inner HTML is not blank, else the body's, else nothing.
pub open spec fn content_html_of(html: Seq<char>) -> Seq<char> {
    let picks = |sel: Seq<char>| {
        let found = inner_htmls_of(html, sel);
        if found.len() > 0 && trim(found[0]).len() > 0 {
            Some(found[0])
        } else {
            None
        }
    };
    match picks(".comment-body"@) {
        Some(h) => h,
        None => match picks("article"@) {
            Some(h) => h,
            None => match picks("main"@) {
                Some(h) => h,
                None => if inner_htmls_of(html, "body"@).len() > 0 {
                    inner_htmls_of(html, "body"@)[0]
                } else {
                    Seq::empty()
                },
            },
        },
    }
}

fn pick_first(html: &str, selector: &str, require_text: bool) -> (r: Option<String>)
    ensures
        ({
            let found = inner_htmls_of(html@, selector@);
            if found.len() > 0 && (!require_text || trim(found[0]).len() > 0) {
                r matches Some(h) && h@ == found[0]
            } else {
                r is None
            }
        }),
{
    let found = inner_htmls(html, selector);
    if found.len() > 0 {
        assert(found@.map_values(|s: String| s@)[0] == found@[0]@);
        let t = trim_str(found[0].as_str());
        if !require_text || !t.as_str().is_empty() {
            return Some(found[0].clone());
        }
    }
    None
}

fn content_html(html: &str) -> (r: String)
    ensures
        r@ == content_html_of(html@),
{
    match pick_first(html, ".comment-body", true) {
        Some(h) => h,
        None => match pick_first(html, "article", true) {
            Some(h) => h,
            None => match pick_first(html, "main", true) {
                Some(h) => h,
                None => match pick_first(html, "body", false) {
                    Some(h) => h,
                    None => String::new(),
                },
            },
        },
    }
}

/// The texts of a page's JSON-LD scripts, for parsing.
pub fn jsonld_scripts(html: &str) -> (r: Vec<String>)
    ensures
        r@.map_values(|s: String| s@) == inner_htmls_of(html@, "script[type=\"application/ld+json\"]"@),
{
    inner_htmls(html, "script[type=\"application/ld+json\"]")
}

/// The values that the texts hold as JSON, in order, leaving out the texts that are not JSON.
pub open spec fn json_values(texts: Seq<Seq<char>>) -> Seq<JsonValue>
    decreases texts.len(),
{
    if texts.len() == 0 {
        Seq::empty()
    } else {
        let rest = json_values(texts.drop_last());
        match crate::json::json_of(texts.last()) {
            Ok(v) => rest.push(v),
            Err(_) => rest,
        }
    }
}

/// The JSON-LD blocks of a page that parse as JSON, in the order the page holds them.
pub fn parse_jsonld(html: &str) -> (r: Vec<JsonValue>)
    ensures
        r@ == json_values(inner_htmls_of(html@, "script[type=\"application/ld+json\"]"@)),
{
    let scripts = jsonld_scripts(html);
    let ghost texts = scripts@.map_values(|s: String| s@);
    let mut out: Vec<JsonValue> = Vec::new();
    let mut i: usize = 0;
    while i < scripts.len()
        invariant
            i <= scripts@.len(),
            texts == scripts@.map_values(|s: String| s@),
            out@ == json_values(texts.take(i as int)),
        decreases scripts@.len() - i,
    {
        assert(texts.take(i + 1).drop_last() =~= texts.take(i as int));
        assert(texts.take(i + 1).last() == scripts@[i as int]@);
        match crate::json::parse_json(scripts[i].as_str()) {
            Ok(v) => {
                out.push(v);
            },
            Err(_) => {},
        }
        i = i + 1;
    }
    assert(texts.take(scripts@.len() as int) =~= texts);
    out
}

/// The note for a page without text to extract.
pub open spec fn no_content_message() -> Seq<char> {
    "Failed to extract meaningful content from the page. This may indicate the page content is not suitable for text extraction, or the page requires JavaScript to render its content."@
}

/// A page's main content as Markdown, headed by its front matter when it has any metadata;
/// an error when no text can be extracted. The JSON-LD values are those of the page's scripts
/// that parse.
pub fn extract_html_content(html: &str, url: &str, jsonld: &Vec<JsonValue>) -> (r: Result<(String, Ghost<ExtractedMetadata>), String>)
    requires
        date_candidate(meta_elements_of(html@), jsonld@) matches Some(d) ==> date_cuts(d),
    ensures
        ({
            let content = trim(markdown_of(content_html_of(html@)));
            if content.len() == 0 {
                r matches Err(m) && m@ == no_content_message()
            } else {
                r matches Ok((text, meta)) && metadata_ok(
                    meta@,
                    meta_elements_of(html@),
                    first_text_of(html@, "title"@),
                    jsonld@,
                    url@,
                ) && text@ == if frontmatter_text(meta@).len() == 0 {
                    content
                } else {
                    frontmatter_text(meta@) + "\n"@ + content
                }
            }
        }),
{
    let metas = meta_elements(html);
    let title = first_text(html, "title");
    let ghost tv = opt_strs_view(title);
    assert(tv == first_text_of(html@, "title"@)) by {
        match first_text_of(html@, "title"@) {
            Some(ts) => {},
            None => {},
        }
    }
    let meta = extract_metadata(&metas, title, jsonld, url);
    let ch = content_html(html);
    let md = html_to_markdown(ch.as_str());
    let content = trim_str(md.as_str());
    if content.as_str().is_empty() {
        return Err(owned(
            "Failed to extract meaningful content from the page. This may indicate the page content is not suitable for text extraction, or the page requires JavaScript to render its content.",
        ));
    }
    let fm = build_frontmatter(&meta);
    let ghost mg = meta;
    if fm.as_str().is_empty() {
        Ok((content, Ghost(mg)))
    } else {
        let mut text = fm;
        push_str(&mut text, "\n");
        push_str(&mut text, content.as_str());
        Ok((text, Ghost(mg)))
    }
}

fn date_cuts_exec(d: &str) -> (r: bool)
    ensures
        r == date_cuts(d@),
{
    let t = trim_chars(str_chars(d).as_slice());
    let n = crate::tools::utils::byte_len(t.as_slice());
    if n >= 10 {
        crate::text::cut_at_byte(t.as_slice(), 10).is_some()
    } else {
        true
    }
}

/// `extract_html_content`, or `None` for a page whose date would be cut inside a character.
pub fn try_extract_html_content(html: &str, url: &str, jsonld: &Vec<JsonValue>) -> (r: Option<Result<(String, Ghost<ExtractedMetadata>), String>>)
    ensures
        (date_candidate(meta_elements_of(html@), jsonld@) matches Some(d) ==> date_cuts(d)) <==> r is Some,
        r matches Some(x) ==> ({
            let content = trim(markdown_of(content_html_of(html@)));
            if content.len() == 0 {
                x matches Err(m) && m@ == no_content_message()
            } else {
                x matches Ok((text, meta)) && metadata_ok(
                    meta@,
                    meta_elements_of(html@),
                    first_text_of(html@, "title"@),
                    jsonld@,
                    url@,
                ) && text@ == if frontmatter_text(meta@).len() == 0 {
                    content
                } else {
                    frontmatter_text(meta@) + "\n"@ + content
                }
            }
        }),
{
    let metas = meta_elements(html);
    let candidate = first_set(
        date_of_values(jsonld),
        first_set(meta_lookup(&metas, "article:published_time"), meta_lookup(&metas, "date")),
    );
    match candidate {
        Some(d) => {
            if !date_cuts_exec(d.as_str()) {
                return None;
            }
        },
        None => {},
    }
    Some(extract_html_content(html, url, jsonld))
}

} // verus!
