//! Skills: where they are found, their names, and the flow a flow skill's `SKILL.md` holds in
//! a fenced code block.
use vstd::prelude::*;

use crate::flow::mermaid::lines_spec;
use crate::flow::{Flow, FlowError};
use crate::text::{all_ascii, ascii_lower_seq, is_ws, owned, str_chars, string_from_chars, to_lowercase, trim, trim_start, unicode_lowercase};
use crate::utils::frontmatter::{frontmatter_entries, keyed_view, parse_frontmatter, yaml_string, yaml_value, StringEntries};

verus! {

/// The kind of a skill.
#[derive(Clone, Copy, Debug, PartialEq, Eq, Structural)]
pub enum SkillType {
    Standard,
    Flow,
}

/// A skill: its name, description, kind, directory, and the flow of a flow skill.
pub struct Skill {
    pub name: String,
    pub description: String,
    pub skill_type: SkillType,
    pub dir: String,
    pub flow: Option<Flow>,
}

/// The key a skill is indexed by: its name in lower case.
pub fn normalize_skill_name(name: &str) -> (r: String)
    ensures
        r@ == unicode_lowercase(name@),
        all_ascii(name@) ==> r@ == ascii_lower_seq(name@),
{
    to_lowercase(name)
}

/// Normalizing an ASCII skill name twice gives what normalizing it once gives: the normalized
/// name is ASCII again, and lower-casing it changes nothing.
pub proof fn lemma_normalize_ascii_idempotent(name: Seq<char>)
    requires
        all_ascii(name),
    ensures
        all_ascii(ascii_lower_seq(name)),
        ascii_lower_seq(ascii_lower_seq(name)) == ascii_lower_seq(name),
{
    let once = ascii_lower_seq(name);
    assert forall|i: int| 0 <= i < once.len() implies (once[i] as u32) < 128 by {
        assert(once[i] == crate::text::ascii_lower(name[i]));
    }
    assert(ascii_lower_seq(once) =~= once);
}

/// The skills shipped with the program, under the given package directory.
pub fn get_builtin_skills_dir(package_dir: &str) -> (r: String)
    ensures
        r@ == crate::paths::join_spec(crate::paths::join_spec(package_dir@, "src"@), "skills"@),
{
    let src = crate::paths::join(package_dir, "src");
    crate::paths::join(src.as_str(), "skills")
}

/// Whether built-in skills apply to an environment, by its name.
pub fn supports_builtin_skills(kaos_name: &str) -> (r: bool)
    ensures
        r == (kaos_name@ == "local"@ || kaos_name@ == "acp"@),
{
    crate::text::str_eq(kaos_name, "local") || crate::text::str_eq(kaos_name, "acp")
}

/// The directories searched for skills, in order: the built-in ones when the environment
/// supports them, then either the given override or the user's and the project's directories
/// that exist.
pub fn resolve_skills_roots(builtin_dir: Option<String>, override_dir: Option<String>, user_dir: Option<String>, project_dir: Option<
    String,
>) -> (r: Vec<String>)
    ensures
        crate::utils::slashcmd::strings_view(r@) == opt_seq(builtin_dir) + match override_dir {
            Some(o) => seq![o@],
            None => opt_seq(user_dir) + opt_seq(project_dir),
        },
{
    let mut roots: Vec<String> = Vec::new();
    let ghost b = opt_seq(builtin_dir);
    if let Some(d) = builtin_dir {
        roots.push(d);
    }
    assert(crate::utils::slashcmd::strings_view(roots@) =~= b);
    match override_dir {
        Some(o) => {
            let ghost ov = o@;
            roots.push(o);
            assert(crate::utils::slashcmd::strings_view(roots@) =~= b + seq![ov]);
        },
        None => {
            let ghost u = opt_seq(user_dir);
            let ghost p = opt_seq(project_dir);
            if let Some(d) = user_dir {
                roots.push(d);
            }
            assert(crate::utils::slashcmd::strings_view(roots@) =~= b + u);
            if let Some(d) = project_dir {
                roots.push(d);
            }
            assert(crate::utils::slashcmd::strings_view(roots@) =~= b + u + p);
        },
    }
    roots
}

/// The view of an optional string as a list of at most one.
pub open spec fn opt_seq(o: Option<String>) -> Seq<Seq<char>> {
    match o {
        Some(s) => seq![s@],
        None => Seq::empty(),
    }
}

// ----- fenced code blocks -----

/// The length of the run of `c` at the start of `s`.
pub open spec fn run_len(s: Seq<char>, c: char, i: int) -> int
    decreases s.len() - i,
{
    if i < 0 || i >= s.len() || s[i] != c {
        i
    } else {
        run_len(s, c, i + 1)
    }
}

/// An opening fence: three or more backticks or tildes, and what follows them, trimmed.
pub open spec fn fence_open_spec(line: Seq<char>) -> Option<(char, nat, Seq<char>)> {
    if line.len() == 0 || (line[0] != '`' && line[0] != '~') {
        None
    } else {
        let n = run_len(line, line[0], 0);
        if n < 3 {
            None
        } else {
            Some((line[0], n as nat, trim(line.skip(n))))
        }
    }
}

/// A closing fence: at least as many of the fence's characters and nothing else but white space.
pub open spec fn fence_close_spec(line: Seq<char>, c: char, len: nat) -> bool {
    c != '\0' && line.len() > 0 && line[0] == c && run_len(line, c, 0) >= len && trim(line.skip(run_len(line, c, 0))).len() == 0
}

/// The first word of a text: what follows leading white space, up to the next white space.
pub open spec fn first_word(s: Seq<char>) -> Seq<char> {
    let t = trim_start(s);
    t.take(word_end(t, 0))
}

/// The first index from `i` on that holds white space.
pub open spec fn word_end(s: Seq<char>, i: int) -> int
    decreases s.len() - i,
{
    if i < 0 || i >= s.len() || is_ws(s[i]) {
        i
    } else {
        word_end(s, i + 1)
    }
}

/// The language of a fence's info string: its first word in lower case, without braces.
pub open spec fn code_lang_spec(info: Seq<char>) -> Seq<char> {
    if info.len() == 0 {
        Seq::empty()
    } else {
        let lang = unicode_lowercase(first_word(info));
        if lang.len() > 0 && lang[0] == '{' && lang.last() == '}' && crate::text::utf8_len(lang) > 2 {
            trim(lang.subrange(1, lang.len() - 1))
        } else {
            lang
        }
    }
}

/// Text without the newlines at its start and end.
pub open spec fn trim_newlines(s: Seq<char>) -> Seq<char>
    decreases s.len(),
{
    if s.len() > 0 && s[0] == '\n' {
        trim_newlines(s.drop_first())
    } else if s.len() > 0 && s.last() == '\n' {
        trim_newlines(s.drop_last())
    } else {
        s
    }
}

/// The scan of lines for fenced blocks: the state is whether a block is open, its fence
/// character and length, its language and its lines so far.
pub open spec fn blocks_from(
    lines: Seq<Seq<char>>,
    i: int,
    open: bool,
    fc: char,
    flen: nat,
    lang: Seq<char>,
    buf: Seq<Seq<char>>,
) -> Seq<(Seq<char>, Seq<char>)>
    decreases lines.len() - i,
{
    if i < 0 || i >= lines.len() {
        Seq::empty()
    } else {
        let stripped = trim_start(lines[i]);
        if !open {
            match fence_open_spec(stripped) {
                Some((c, n, info)) => blocks_from(lines, i + 1, true, c, n, code_lang_spec(info), Seq::empty()),
                None => blocks_from(lines, i + 1, false, fc, flen, lang, buf),
            }
        } else if fence_close_spec(stripped, fc, flen) {
            seq![(lang, trim_newlines(crate::utils::slashcmd::join_spec(buf, "\n"@)))] + blocks_from(
                lines,
                i + 1,
                false,
                '\0',
                0,
                Seq::empty(),
                Seq::empty(),
            )
        } else {
            blocks_from(lines, i + 1, true, fc, flen, lang, buf.push(lines[i]))
        }
    }
}

/// The fenced code blocks of a text: each block's language and its content.
pub open spec fn fenced_blocks(content: Seq<char>) -> Seq<(Seq<char>, Seq<char>)> {
    blocks_from(lines_spec(content), 0, false, '\0', 0, Seq::empty(), Seq::empty())
}

fn run_length(s: &[char], c: char) -> (r: usize)
    ensures
        r == run_len(s@, c, 0),
        r <= s@.len(),
{
    let mut k: usize = 0;
    while k < s.len() && s[k] == c
        invariant
            k <= s@.len(),
            run_len(s@, c, 0) == run_len(s@, c, k as int),
        decreases s@.len() - k,
    {
        k = k + 1;
    }
    k
}

fn parse_fence_open(line: &[char]) -> (r: Option<(char, usize, Vec<char>)>)
    ensures
        match r {
            Some((c, n, info)) => fence_open_spec(line@) == Some((c, n as nat, info@)),
            None => fence_open_spec(line@) is None,
        },
{
    if line.len() == 0 || (line[0] != '`' && line[0] != '~') {
        return None;
    }
    let first = line[0];
    let n = run_length(line, first);
    if n < 3 {
        return None;
    }
    let rest = crate::text::slice_chars(line, n, line.len());
    assert(rest@ =~= line@.skip(n as int));
    Some((first, n, crate::text::trim_chars(rest.as_slice())))
}

fn is_fence_close(line: &[char], c: char, len: usize) -> (r: bool)
    ensures
        r == fence_close_spec(line@, c, len as nat),
{
    if c == '\0' || line.len() == 0 || line[0] != c {
        return false;
    }
    let n = run_length(line, c);
    if n < len {
        return false;
    }
    let rest = crate::text::slice_chars(line, n, line.len());
    assert(rest@ =~= line@.skip(n as int));
    crate::text::trim_chars(rest.as_slice()).len() == 0
}

fn normalize_code_lang(info: &[char]) -> (r: Vec<char>)
    ensures
        r@ == code_lang_spec(info@),
{
    if info.len() == 0 {
        return Vec::new();
    }
    let t = crate::text::trim_start_chars(info);
    let mut e: usize = 0;
    while e < t.len() && !crate::text::is_whitespace(t[e])
        invariant
            e <= t@.len(),
            word_end(t@, 0) == word_end(t@, e as int),
        decreases t@.len() - e,
    {
        e = e + 1;
    }
    let word = crate::text::slice_chars(t.as_slice(), 0, e);
    assert(word@ =~= t@.take(e as int));
    let ws = string_from_chars(word.as_slice());
    let lower = to_lowercase(ws.as_str());
    let lc = str_chars(lower.as_str());
    proof {
        crate::text::lemma_encode_len(lc@);
    }
    let blen = lower.as_str().as_bytes().len();
    if lc.len() > 0 && lc[0] == '{' && lc[lc.len() - 1] == '}' && blen > 2 {
        let inner = crate::text::slice_chars(lc.as_slice(), 1, lc.len() - 1);
        crate::text::trim_chars(inner.as_slice())
    } else {
        lc
    }
}

fn join_lines(buf: &Vec<Vec<char>>) -> (r: Vec<char>)
    ensures
        r@ == crate::utils::slashcmd::join_spec(crate::text::vv(buf@), "\n"@),
{
    let mut out: Vec<char> = Vec::new();
    let ghost parts = crate::text::vv(buf@);
    let mut i: usize = 0;
    while i < buf.len()
        invariant
            i <= buf@.len(),
            parts == crate::text::vv(buf@),
            out@ == crate::utils::slashcmd::join_spec(parts.take(i as int), "\n"@),
        decreases buf@.len() - i,
    {
        if i > 0 {
            out.push('\n');
        }
        crate::text::append_chars(&mut out, buf[i].as_slice());
        proof {
            reveal_strlit("\n");
            let t = parts.take(i + 1);
            assert(t.drop_last() =~= parts.take(i as int));
            if i == 0 {
                assert(parts.take(0) =~= Seq::<Seq<char>>::empty());
                assert(out@ =~= parts[0]);
            } else {
                assert(out@ =~= crate::utils::slashcmd::join_spec(parts.take(i as int), "\n"@) + "\n"@ + parts[i as int]);
            }
        }
        i = i + 1;
    }
    assert(parts.take(buf@.len() as int) =~= parts);
    out
}

fn strip_newlines(s: &[char]) -> (r: Vec<char>)
    ensures
        r@ == trim_newlines(s@),
{
    let mut lo: usize = 0;
    let mut hi: usize = s.len();
    assert(s@.subrange(0, s@.len() as int) =~= s@);
    while lo < hi && s[lo] == '\n'
        invariant
            lo <= hi == s@.len(),
            trim_newlines(s@) == trim_newlines(s@.subrange(lo as int, hi as int)),
        decreases hi - lo,
    {
        assert(s@.subrange(lo as int, hi as int).drop_first() =~= s@.subrange(lo + 1, hi as int));
        lo = lo + 1;
    }
    while lo < hi && s[hi - 1] == '\n'
        invariant
            lo <= hi <= s@.len(),
            lo < hi ==> s@[lo as int] != '\n',
            trim_newlines(s@) == trim_newlines(s@.subrange(lo as int, hi as int)),
        decreases hi - lo,
    {
        assert(s@.subrange(lo as int, hi as int).drop_last() =~= s@.subrange(lo as int, hi - 1));
        hi = hi - 1;
    }
    crate::text::slice_chars(s, lo, hi)
}

/// The fenced code blocks of a text: each block's language and content, in order; a block
/// left open at the end is dropped.
pub fn iter_fenced_codeblocks(content: &str) -> (r: Vec<(Vec<char>, Vec<char>)>)
    ensures
        r@.map_values(|b: (Vec<char>, Vec<char>)| (b.0@, b.1@)) == fenced_blocks(content@),
{
    let c = str_chars(content);
    let lines = crate::flow::mermaid::lines_vec(c.as_slice());
    let ghost lv = crate::text::vv(lines@);
    let mut blocks: Vec<(Vec<char>, Vec<char>)> = Vec::new();
    let mut open = false;
    let mut fc: char = '\0';
    let mut flen: usize = 0;
    let mut lang: Vec<char> = Vec::new();
    let mut buf: Vec<Vec<char>> = Vec::new();
    let mut i: usize = 0;
    assert(crate::text::vv(buf@) =~= Seq::<Seq<char>>::empty());
    while i < lines.len()
        invariant
            i <= lines@.len(),
            lv == crate::text::vv(lines@),
            lv == lines_spec(content@),
            fenced_blocks(content@) == blocks@.map_values(|b: (Vec<char>, Vec<char>)| (b.0@, b.1@)) + blocks_from(
                lv,
                i as int,
                open,
                fc,
                flen as nat,
                lang@,
                crate::text::vv(buf@),
            ),
        decreases lines@.len() - i,
    {
        let stripped = crate::text::trim_start_chars(lines[i].as_slice());
        assert(lv[i as int] == lines@[i as int]@);
        if !open {
            match parse_fence_open(stripped.as_slice()) {
                Some((ch, n, info)) => {
                    fc = ch;
                    flen = n;
                    lang = normalize_code_lang(info.as_slice());
                    buf = Vec::new();
                    open = true;
                    assert(crate::text::vv(buf@) =~= Seq::<Seq<char>>::empty());
                },
                None => {},
            }
        } else if is_fence_close(stripped.as_slice(), fc, flen) {
            let joined = join_lines(&buf);
            let body = strip_newlines(joined.as_slice());
            let ghost b0 = blocks@;
            blocks.push((lang, body));
            proof {
                assert(blocks@.map_values(|b: (Vec<char>, Vec<char>)| (b.0@, b.1@)) =~= b0.map_values(
                    |b: (Vec<char>, Vec<char>)| (b.0@, b.1@),
                ).push((blocks@.last().0@, blocks@.last().1@)));
            }
            open = false;
            fc = '\0';
            flen = 0;
            lang = Vec::new();
            buf = Vec::new();
            assert(crate::text::vv(buf@) =~= Seq::<Seq<char>>::empty());
        } else {
            let ghost b0 = buf@;
            buf.push(crate::text::copy_chars(lines[i].as_slice()));
            proof {
                crate::text::lemma_vv_push(b0, buf@.last());
            }
        }
        i = i + 1;
    }
    assert(blocks@.map_values(|b: (Vec<char>, Vec<char>)| (b.0@, b.1@)) + Seq::<(Seq<char>, Seq<char>)>::empty() =~= blocks@.map_values(
        |b: (Vec<char>, Vec<char>)| (b.0@, b.1@),
    ));
    blocks
}

/// The first block written in Mermaid or D2, from index `i` on: whether it is Mermaid, and its
/// code.
pub open spec fn first_flow_block(blocks: Seq<(Seq<char>, Seq<char>)>, i: int) -> Option<(bool, Seq<char>)>
    decreases blocks.len() - i,
{
    if i < 0 || i >= blocks.len() {
        None
    } else if blocks[i].0 == "mermaid"@ {
        Some((true, blocks[i].1))
    } else if blocks[i].0 == "d2"@ {
        Some((false, blocks[i].1))
    } else {
        first_flow_block(blocks, i + 1)
    }
}

/// The flow of a flow skill: the first Mermaid or D2 block, parsed; `None` where the parser
/// would cut a line inside a character.
pub open spec fn skill_flow_spec(content: Seq<char>) -> Option<Result<crate::flow::FlowV, Seq<char>>> {
    match first_flow_block(fenced_blocks(content), 0) {
        None => Some(Err("Flow skills require a mermaid or d2 code block in SKILL.md."@)),
        Some((true, code)) => crate::flow::mermaid::mermaid_spec(code),
        Some((false, code)) => crate::flow::d2::d2_spec(code),
    }
}

/// The flow of a flow skill's `SKILL.md`: the first Mermaid or D2 code block, parsed. `None`
/// where the parser would cut a line inside a character.
pub fn parse_flow_from_skill(content: &str) -> (r: Option<Result<Flow, FlowError>>)
    ensures
        match skill_flow_spec(content@) {
            None => r is None,
            Some(Ok(f)) => (r matches Some(Ok(x)) && crate::flow::flow_view(x) == f),
            Some(Err(m)) => (r matches Some(Err(e)) && e.message() == m),
        },
{
    let blocks = iter_fenced_codeblocks(content);
    let ghost bv = blocks@.map_values(|b: (Vec<char>, Vec<char>)| (b.0@, b.1@));
    let mut i: usize = 0;
    while i < blocks.len()
        invariant
            i <= blocks@.len(),
            bv == blocks@.map_values(|b: (Vec<char>, Vec<char>)| (b.0@, b.1@)),
            bv == fenced_blocks(content@),
            first_flow_block(bv, 0) == first_flow_block(bv, i as int),
        decreases blocks@.len() - i,
    {
        let lang = &blocks[i].0;
        assert(bv[i as int] == (blocks@[i as int].0@, blocks@[i as int].1@));
        if crate::text::chars_eq_str(lang.as_slice(), "mermaid") {
            let code = string_from_chars(blocks[i].1.as_slice());
            if !crate::flow::mermaid::mermaid_text_is_parseable(code.as_str()) {
                return None;
            }
            return match crate::flow::mermaid::parse_mermaid_flowchart(code.as_str()) {
                Ok(f) => Some(Ok(f)),
                Err(e) => Some(Err(FlowError::new(e.to_message()))),
            };
        }
        if crate::text::chars_eq_str(lang.as_slice(), "d2") {
            let code = string_from_chars(blocks[i].1.as_slice());
            if !crate::flow::d2::d2_text_is_parseable(code.as_str()) {
                return None;
            }
            return match crate::flow::d2::parse_d2_flowchart(code.as_str()) {
                Ok(f) => Some(Ok(f)),
                Err(e) => Some(Err(FlowError::new(e.to_message()))),
            };
        }
        i = i + 1;
    }
    Some(Err(FlowError::new(owned("Flow skills require a mermaid or d2 code block in SKILL.md."))))
}

/// The string a skill's front matter gives a key, if it has front matter.
pub open spec fn fm_field(fm: Option<StringEntries>, key: Seq<char>) -> Option<Seq<char>> {
    match fm {
        Some(es) => yaml_value(es, key),
        None => None,
    }
}

/// A front matter field as a string: its value, else `fallback`.
fn field_or(fm: &Option<Vec<(String, Option<String>)>>, key: &str, fallback: &str) -> (r: String)
    ensures
        r@ == match fm_field(
            match fm {
                Some(v) => Some(keyed_view(v@)),
                None => None,
            },
            key@,
        ) {
            Some(x) => x,
            None => fallback@,
        },
{
    match fm {
        Some(v) => match yaml_string(v, key) {
            Some(x) => x,
            None => owned(fallback),
        },
        None => owned(fallback),
    }
}

/// A skill from its `SKILL.md`: the name from the front matter (else the directory's name),
/// the description (else a note that there is none), and for a skill of type `flow` the flow
/// of its code block; a flow that does not parse leaves a standard skill. An error in the
/// front matter is returned as it is. `None` where the flow parser would cut a line inside a
/// character.
pub fn parse_skill_text(content: &str, dir_name: &str, dir: &str) -> (r: Option<Result<Skill, String>>)
    ensures
        match frontmatter_entries(content@) {
            Err(m) => (r matches Some(Err(x)) && x@ == m),
            Ok(fm) => {
                let name = match fm_field(fm, "name"@) {
                    Some(n) => n,
                    None => dir_name@,
                };
                let desc = match fm_field(fm, "description"@) {
                    Some(d) => d,
                    None => "No description provided."@,
                };
                let is_flow = fm_field(fm, "type"@) == Some("flow"@);
                if is_flow && skill_flow_spec(content@) is None {
                    r is None
                } else {
                    (r matches Some(Ok(sk)) && sk.name@ == name && sk.description@ == desc && sk.dir@ == dir@ && (
                    if is_flow && skill_flow_spec(content@) is Some && skill_flow_spec(content@)->Some_0 is Ok {
                        sk.skill_type == SkillType::Flow && (sk.flow matches Some(x) && crate::flow::flow_view(x)
                            == skill_flow_spec(content@)->Some_0->Ok_0)
                    } else {
                        sk.skill_type == SkillType::Standard && sk.flow is None
                    }))
                }
            },
        },
{
    let fm = match parse_frontmatter(content) {
        Err(m) => {
            return Some(Err(m));
        },
        Ok(fm) => fm,
    };
    let ghost fmv = match &fm {
        Some(v) => Some(keyed_view(v@)),
        None => None::<StringEntries>,
    };
    assert(frontmatter_entries(content@) == Ok::<Option<StringEntries>, Seq<char>>(fmv));
    let name = field_or(&fm, "name", dir_name);
    let description = field_or(&fm, "description", "No description provided.");
    let skill_type = field_or(&fm, "type", "standard");
    let is_flow = crate::text::str_eq(skill_type.as_str(), "flow");
    proof {
        reveal_strlit("standard");
        reveal_strlit("flow");
        assert("standard"@.len() != "flow"@.len());
    }
    assert(is_flow == (fm_field(fmv, "type"@) == Some("flow"@)));
    if is_flow {
        match parse_flow_from_skill(content) {
            None => None,
            Some(Ok(f)) => Some(Ok(Skill { name, description, skill_type: SkillType::Flow, dir: owned(dir), flow: Some(f) })),
            Some(Err(_)) => Some(Ok(Skill { name, description, skill_type: SkillType::Standard, dir: owned(dir), flow: None })),
        }
    } else {
        Some(Ok(Skill { name, description, skill_type: SkillType::Standard, dir: owned(dir), flow: None }))
    }
}

/// Whether the skill at index `j` is the last one found under its normalized name, which is
/// the one kept when later roots override earlier ones.
pub open spec fn is_last_of_name(names: Seq<Seq<char>>, j: int) -> bool {
    &&& 0 <= j < names.len()
    &&& forall|m: int| j < m < names.len() ==> unicode_lowercase(#[trigger] names[m]) != unicode_lowercase(names[j])
}

/// The skills kept from those found in all roots, in order of root: for each normalized name
/// the last one found, listed by name in ascending order. Given the names of the skills found,
/// returns the indices of those kept.
pub fn skill_order(names: &Vec<String>) -> (r: Vec<usize>)
    ensures
        forall|i: int| 0 <= i < r@.len() ==> is_last_of_name(crate::utils::slashcmd::strings_view(names@), #[trigger] r@[i] as int),
        forall|j: int| is_last_of_name(crate::utils::slashcmd::strings_view(names@), j) ==> #[trigger] r@.contains(j as usize),
        forall|i: int, k: int| 0 <= i < k < r@.len() ==> !crate::tools::file::chars_lt(
            #[trigger] names@[r@[k] as int]@,
            #[trigger] names@[r@[i] as int]@,
        ),
{
    let ghost sv = crate::utils::slashcmd::strings_view(names@);
    let n = names.len();
    let mut keys: Vec<String> = Vec::new();
    let mut a: usize = 0;
    while a < n
        invariant
            a <= n,
            n == names@.len(),
            keys@.len() == a,
            forall|m: int| 0 <= m < a ==> (#[trigger] keys@[m])@ == unicode_lowercase(names@[m]@),
        decreases n - a,
    {
        keys.push(to_lowercase(names[a].as_str()));
        a = a + 1;
    }
    let mut kept: Vec<usize> = Vec::new();
    let mut kept_names: Vec<String> = Vec::new();
    let mut j: usize = 0;
    while j < n
        invariant
            j <= n,
            n == names@.len(),
            sv == crate::utils::slashcmd::strings_view(names@),
            keys@.len() == n,
            forall|m: int| 0 <= m < n ==> (#[trigger] keys@[m])@ == unicode_lowercase(names@[m]@),
            kept@.len() == kept_names@.len(),
            forall|i: int| 0 <= i < kept@.len() ==> is_last_of_name(sv, #[trigger] kept@[i] as int),
            forall|i: int| 0 <= i < kept@.len() ==> (#[trigger] kept_names@[i])@ == names@[kept@[i] as int]@,
            forall|q: int| 0 <= q < j && is_last_of_name(sv, q) ==> #[trigger] kept@.contains(q as usize),
        decreases n - j,
    {
        let mut later = false;
        let mut m = j + 1;
        while m < n
            invariant
                j < n,
                j + 1 <= m <= n,
                n == names@.len(),
                keys@.len() == n,
                forall|x: int| 0 <= x < n ==> (#[trigger] keys@[x])@ == unicode_lowercase(names@[x]@),
                later <==> exists|x: int| j < x < m && unicode_lowercase(#[trigger] names@[x]@) == unicode_lowercase(names@[j as int]@),
            decreases n - m,
        {
            if crate::text::str_eq(keys[m].as_str(), keys[j].as_str()) {
                later = true;
                assert(unicode_lowercase(names@[m as int]@) == unicode_lowercase(names@[j as int]@));
            }
            m = m + 1;
        }
        proof {
            assert forall|x: int| j < x < sv.len() implies sv[x] == names@[x]@ by {}
            assert(sv[j as int] == names@[j as int]@);
        }
        if !later {
            let ghost k0 = kept@;
            kept.push(j);
            kept_names.push(names[j].clone());
            assert(is_last_of_name(sv, j as int));
            assert(kept@[kept@.len() - 1] == j);
            assert forall|q: int| 0 <= q < j + 1 && is_last_of_name(sv, q) implies #[trigger] kept@.contains(q as usize) by {
                if q < j {
                    assert(k0.contains(q as usize));
                    let t = choose|t: int| 0 <= t < k0.len() && k0[t] == q as usize;
                    assert(kept@[t] == q as usize);
                }
            }
        } else {
            proof {
                let x = choose|x: int| j < x < n && unicode_lowercase(#[trigger] names@[x]@) == unicode_lowercase(names@[j as int]@);
                assert(sv[x] == names@[x]@);
                assert(!is_last_of_name(sv, j as int));
            }
        }
        j = j + 1;
    }
    let ghost kv = crate::utils::slashcmd::strings_view(kept_names@);
    let mut sorted = kept_names.clone();
    assert(crate::utils::slashcmd::strings_view(sorted@) == kv);
    crate::tools::file::sort_strings(&mut sorted);
    let ghost ssv = crate::utils::slashcmd::strings_view(sorted@);
    proof {
        kv.to_multiset_ensures();
        ssv.to_multiset_ensures();
    }
    let mut out: Vec<usize> = Vec::new();
    let mut i: usize = 0;
    while i < sorted.len()
        invariant
            i <= sorted@.len(),
            ssv == crate::utils::slashcmd::strings_view(sorted@),
            kv == crate::utils::slashcmd::strings_view(kept_names@),
            ssv.to_multiset() == kv.to_multiset(),
            forall|x: Seq<char>| ssv.contains(x) <==> #[trigger] ssv.to_multiset().count(x) > 0,
            forall|x: Seq<char>| kv.contains(x) <==> #[trigger] kv.to_multiset().count(x) > 0,
            kept@.len() == kept_names@.len(),
            forall|t: int| 0 <= t < kept@.len() ==> is_last_of_name(sv, #[trigger] kept@[t] as int),
            forall|t: int| 0 <= t < kept@.len() ==> (#[trigger] kept_names@[t])@ == names@[kept@[t] as int]@,
            out@.len() == i,
            forall|t: int| 0 <= t < i ==> is_last_of_name(sv, #[trigger] out@[t] as int),
            forall|t: int| 0 <= t < i ==> names@[(#[trigger] out@[t]) as int]@ == sorted@[t]@,
        decreases sorted@.len() - i,
    {
        proof {
            assert(ssv[i as int] == sorted@[i as int]@);
            assert(ssv.contains(ssv[i as int]));
            assert(ssv.to_multiset().count(ssv[i as int]) > 0);
            assert(kv.to_multiset().count(ssv[i as int]) > 0);
            assert(kv.contains(ssv[i as int]));
        }
        let mut t: usize = 0;
        let mut found: usize = 0;
        let mut ok = false;
        while t < kept.len()
            invariant
                i < sorted@.len(),
                t <= kept@.len(),
                kept@.len() == kept_names@.len(),
                kv == crate::utils::slashcmd::strings_view(kept_names@),
                kv.contains(sorted@[i as int]@),
                ok ==> is_last_of_name(sv, found as int) && names@[found as int]@ == sorted@[i as int]@,
                !ok ==> forall|u: int| 0 <= u < t ==> kept_names@[u]@ != sorted@[i as int]@,
                forall|u: int| 0 <= u < kept@.len() ==> is_last_of_name(sv, #[trigger] kept@[u] as int),
                forall|u: int| 0 <= u < kept@.len() ==> (#[trigger] kept_names@[u])@ == names@[kept@[u] as int]@,
            decreases kept@.len() - t,
        {
            if !ok && crate::text::str_eq(kept_names[t].as_str(), sorted[i].as_str()) {
                ok = true;
                found = kept[t];
            }
            t = t + 1;
        }
        proof {
            if !ok {
                let u = choose|u: int| 0 <= u < kv.len() && kv[u] == sorted@[i as int]@;
                assert(kept_names@[u]@ == kv[u]);
            }
        }
        out.push(found);
        i = i + 1;
    }
    proof {
        assert forall|q: int| is_last_of_name(sv, q) implies #[trigger] out@.contains(q as usize) by {
            assert(kept@.contains(q as usize));
            let t = choose|t: int| 0 <= t < kept@.len() && kept@[t] == q as usize;
            assert(kv[t] == names@[q]@);
            assert(kv.contains(names@[q]@));
            assert(kv.to_multiset().count(names@[q]@) > 0);
            assert(ssv.to_multiset().count(names@[q]@) > 0);
            assert(ssv.contains(names@[q]@));
            let s = choose|s: int| 0 <= s < ssv.len() && ssv[s] == names@[q]@;
            let o = out@[s] as int;
            assert(names@[o]@ == names@[q]@);
            if o != q {
                if o < q {
                    assert(unicode_lowercase(sv[q]) == unicode_lowercase(sv[o]));
                } else {
                    assert(unicode_lowercase(sv[o]) == unicode_lowercase(sv[q]));
                }
            }
        }
    }
    out
}

/// The skills found, indexed by normalized name: for each name, the last skill found under
/// it, with the names in ascending order of the skills' names. Given the names of the skills
/// found, returns each key with the index of its skill.
pub fn index_skills(names: &Vec<String>) -> (r: Vec<(String, usize)>)
    ensures
        forall|i: int| 0 <= i < r@.len() ==> {
            &&& is_last_of_name(crate::utils::slashcmd::strings_view(names@), (#[trigger] r@[i]).1 as int)
            &&& r@[i].0@ == unicode_lowercase(names@[r@[i].1 as int]@)
        },
        forall|j: int| is_last_of_name(crate::utils::slashcmd::strings_view(names@), j) ==> exists|i: int|
            0 <= i < r@.len() && (#[trigger] r@[i]).1 == j as usize,
{
    let order = skill_order(names);
    let mut out: Vec<(String, usize)> = Vec::new();
    let mut i: usize = 0;
    while i < order.len()
        invariant
            i <= order@.len(),
            out@.len() == i,
            forall|t: int| 0 <= t < order@.len() ==> is_last_of_name(crate::utils::slashcmd::strings_view(names@), #[trigger] order@[t] as int),
            forall|t: int| 0 <= t < i ==> (#[trigger] out@[t]).1 == order@[t],
            forall|t: int| 0 <= t < i ==> (#[trigger] out@[t]).0@ == unicode_lowercase(names@[out@[t].1 as int]@),
        decreases order@.len() - i,
    {
        let j = order[i];
        assert(is_last_of_name(crate::utils::slashcmd::strings_view(names@), j as int));
        let k = to_lowercase(names[j].as_str());
        out.push((k, j));
        i = i + 1;
    }
    proof {
        assert forall|j: int| is_last_of_name(crate::utils::slashcmd::strings_view(names@), j) implies exists|t: int|
            0 <= t < out@.len() && (#[trigger] out@[t]).1 == j as usize by {
            assert(order@.contains(j as usize));
            let t = choose|t: int| 0 <= t < order@.len() && order@[t] == j as usize;
            assert(out@[t].1 == j as usize);
        }
    }
    out
}

} // verus!
