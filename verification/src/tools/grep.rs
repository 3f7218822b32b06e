//! The search tool: the ripgrep command line its arguments give, how a failed run is reported,
//! how the output is cut to a number of lines, and which ripgrep build to fetch.
use vstd::prelude::*;

use crate::text::{
    decimal, decimal_int, format_i64, format_usize, has_prefix, join_chars, join_seqs, owned, push_str,
    split_char, split_chars, str_chars, str_eq, string_from_chars, trim, trim_str, vv,
};
use crate::tools::utils::{
    lines_keep_from, truncation_marker, with_period, with_truncation_note, write_from, BuilderState,
    ToolResultBuilder, DEFAULT_MAX_CHARS, DEFAULT_MAX_LINE_LENGTH,
};
use crate::tools::{blocks_view, brief_blocks, error_view, output_text, ret_view, tool_error, ToolReturnValue};
use crate::utils::slashcmd::strings_view;

verus! {

/// The arguments of the search tool.
pub struct GrepParams {
    pub pattern: String,
    pub path: String,
    pub glob: Option<String>,
    pub output_mode: String,
    pub before_context: Option<i64>,
    pub after_context: Option<i64>,
    pub context: Option<i64>,
    pub line_number: bool,
    pub ignore_case: bool,
    pub file_type: Option<String>,
    pub head_limit: Option<i64>,
    pub multiline: bool,
}

/// Where the search looks unless told: the working directory.
pub fn default_grep_path() -> (r: String)
    ensures
        r@ == "."@,
{
    owned(".")
}

/// What the search shows unless told: the files that match.
pub fn default_output_mode() -> (r: String)
    ensures
        r@ == "files_with_matches"@,
{
    owned("files_with_matches")
}

/// The search tool, with its description.
pub struct Grep {
    pub description: String,
}

impl Grep {
    /// The tool with its description.
    pub fn new(description: &str) -> (r: Grep)
        ensures
            r.description@ == description@,
    {
        Grep { description: owned(description) }
    }
}

/// An option with a number, when the number is given.
pub open spec fn num_opt(flag: Seq<char>, n: Option<i64>) -> Seq<Seq<char>> {
    match n {
        Some(v) => seq![flag, decimal_int(v as int)],
        None => Seq::empty(),
    }
}

/// An option with a value, when the value is given.
pub open spec fn str_opt(flag: Seq<char>, v: Option<String>) -> Seq<Seq<char>> {
    match v {
        Some(s) => seq![flag, s@],
        None => Seq::empty(),
    }
}

/// A flag, when it is set.
pub open spec fn flag_if(b: bool, flags: Seq<Seq<char>>) -> Seq<Seq<char>> {
    if b {
        flags
    } else {
        Seq::empty()
    }
}

/// The arguments ripgrep runs with: case and multiline flags; the context and line-number
/// options, in content mode only; the glob and type filters; `-l` to list files or `-c` to
/// count; `--` before a pattern that starts with `-`; then the pattern and the path.
pub open spec fn grep_args_spec(p: GrepParams) -> Seq<Seq<char>> {
    let content = p.output_mode@ == "content"@;
    flag_if(p.ignore_case, seq!["-i"@]) + flag_if(p.multiline, seq!["-U"@, "--multiline-dotall"@]) + flag_if(
        content,
        num_opt("-B"@, p.before_context) + num_opt("-A"@, p.after_context) + num_opt("-C"@, p.context) + flag_if(
            p.line_number,
            seq!["-n"@],
        ),
    ) + str_opt("-g"@, p.glob) + str_opt("--type"@, p.file_type) + (if p.output_mode@ == "files_with_matches"@ {
        seq!["-l"@]
    } else if p.output_mode@ == "count_matches"@ {
        seq!["-c"@]
    } else {
        Seq::empty()
    }) + flag_if(has_prefix(p.pattern@, "-"@), seq!["--"@]) + seq![p.pattern@, p.path@]
}

/// The search arguments with no file type filter.
pub open spec fn without_type(p: GrepParams) -> GrepParams {
    GrepParams { file_type: None, ..p }
}

/// The search arguments with no glob filter.
pub open spec fn without_glob(p: GrepParams) -> GrepParams {
    GrepParams { glob: None, ..p }
}

proof fn lemma_insert_middle(x: Seq<Seq<char>>, w: Seq<Seq<char>>, y: Seq<Seq<char>>)
    ensures
        x + w + y == (x + y).take(x.len() as int) + w + (x + y).skip(x.len() as int),
        (x + w + y).len() == (x + y).len() + w.len(),
        forall|j: int| 0 <= j < w.len() ==> (x + w + y)[x.len() + j] == w[j],
{
    assert((x + y).take(x.len() as int) =~= x);
    assert((x + y).skip(x.len() as int) =~= y);
}

proof fn lemma_grep_parts(
    i: Seq<Seq<char>>,
    m: Seq<Seq<char>>,
    c: Seq<Seq<char>>,
    g: Seq<Seq<char>>,
    t: Seq<Seq<char>>,
    mode: Seq<Seq<char>>,
    d: Seq<Seq<char>>,
    tail: Seq<Seq<char>>,
)
    ensures
        ((((((i + m) + c) + g) + t) + mode) + d) + tail == (i + m + c) + g + (t + mode + d + tail),
        ((((((i + m) + c) + g) + t) + mode) + d) + tail == (i + m + c + g) + t + (mode + d + tail),
        ((((((i + m) + c) + Seq::empty()) + t) + mode) + d) + tail == (i + m + c) + (t + mode + d + tail),
        ((((((i + m) + c) + g) + Seq::empty()) + mode) + d) + tail == (i + m + c + g) + (mode + d + tail),
        ({
            let a = ((((((i + m) + c) + g) + t) + mode) + d) + tail;
            let pre = (i + m + c + g + t).len() as int;
            &&& tail.len() == 2 ==> a.len() >= 2 && a[a.len() - 2] == tail[0] && a[a.len() - 1] == tail[1]
            &&& (tail.len() == 2 && d.len() == 1) ==> a.len() >= 3 && a[a.len() - 3] == d[0]
            &&& mode.len() == 1 ==> a[pre] == mode[0] && 0 <= pre < a.len()
            &&& i.len() == 1 ==> a[0] == i[0]
            &&& m.len() == 2 ==> a[i.len() as int] == m[0] && a[i.len() as int + 1] == m[1] && i.len() + 1 < a.len()
        }),
{
    assert(((((((i + m) + c) + g) + t) + mode) + d) + tail =~= (i + m + c) + g + (t + mode + d + tail));
    assert(((((((i + m) + c) + g) + t) + mode) + d) + tail =~= (i + m + c + g) + t + (mode + d + tail));
    assert(((((((i + m) + c) + Seq::empty()) + t) + mode) + d) + tail =~= (i + m + c) + (t + mode + d + tail));
    assert(((((((i + m) + c) + g) + Seq::empty()) + mode) + d) + tail =~= (i + m + c + g) + (mode + d + tail));
}

/// A file type restricts the search: the arguments hold `--type` followed by the type, and they
/// are the arguments without a type with exactly those two inserted; without a type, the
/// arguments are those without a type.
pub proof fn lemma_grep_type_filter(p: GrepParams)
    ensures
        p.file_type matches Some(t) ==> exists|k: int| #![trigger grep_args_spec(p)[k]]
            0 <= k && k + 1 < grep_args_spec(p).len() && grep_args_spec(p)[k] == "--type"@ && grep_args_spec(p)[k + 1]
                == t@ && grep_args_spec(p) == grep_args_spec(without_type(p)).take(k) + seq!["--type"@, t@]
                + grep_args_spec(without_type(p)).skip(k),
        p.file_type is None ==> grep_args_spec(p) == grep_args_spec(without_type(p)),
        grep_args_spec(without_type(p)).len() + (if p.file_type is Some { 2int } else { 0int }) == grep_args_spec(p).len(),
{
    let content = p.output_mode@ == "content"@;
    let i = flag_if(p.ignore_case, seq!["-i"@]);
    let m = flag_if(p.multiline, seq!["-U"@, "--multiline-dotall"@]);
    let c = flag_if(
        content,
        num_opt("-B"@, p.before_context) + num_opt("-A"@, p.after_context) + num_opt("-C"@, p.context) + flag_if(
            p.line_number,
            seq!["-n"@],
        ),
    );
    let g = str_opt("-g"@, p.glob);
    let t = str_opt("--type"@, p.file_type);
    let mode = if p.output_mode@ == "files_with_matches"@ {
        seq!["-l"@]
    } else if p.output_mode@ == "count_matches"@ {
        seq!["-c"@]
    } else {
        Seq::empty()
    };
    let d = flag_if(has_prefix(p.pattern@, "-"@), seq!["--"@]);
    let tail = seq![p.pattern@, p.path@];
    lemma_grep_parts(i, m, c, g, t, mode, d, tail);
    lemma_grep_parts(i, m, c, g, Seq::empty(), mode, d, tail);
    assert(grep_args_spec(p) == (i + m + c + g) + t + (mode + d + tail));
    assert(grep_args_spec(without_type(p)) == (i + m + c + g) + (mode + d + tail));
    lemma_insert_middle(i + m + c + g, t, mode + d + tail);
    if let Some(ty) = p.file_type {
        let k = (i + m + c + g).len() as int;
        assert(t[0] == "--type"@ && t[1] == ty@);
        assert(grep_args_spec(p)[k] == "--type"@);
        assert(grep_args_spec(p)[k + 1] == ty@);
    } else {
        assert(t =~= Seq::<Seq<char>>::empty());
        assert(grep_args_spec(p) =~= grep_args_spec(without_type(p)));
    }
}

/// A glob restricts the search: the arguments hold `-g` followed by the glob, and they are the
/// arguments without a glob with exactly those two inserted; without a glob, the arguments
/// are those without a glob.
pub proof fn lemma_grep_glob_filter(p: GrepParams)
    ensures
        p.glob matches Some(gl) ==> exists|k: int| #![trigger grep_args_spec(p)[k]]
            0 <= k && k + 1 < grep_args_spec(p).len() && grep_args_spec(p)[k] == "-g"@ && grep_args_spec(p)[k + 1]
                == gl@ && grep_args_spec(p) == grep_args_spec(without_glob(p)).take(k) + seq!["-g"@, gl@]
                + grep_args_spec(without_glob(p)).skip(k),
        p.glob is None ==> grep_args_spec(p) == grep_args_spec(without_glob(p)),
        grep_args_spec(without_glob(p)).len() + (if p.glob is Some { 2int } else { 0int }) == grep_args_spec(p).len(),
{
    let content = p.output_mode@ == "content"@;
    let i = flag_if(p.ignore_case, seq!["-i"@]);
    let m = flag_if(p.multiline, seq!["-U"@, "--multiline-dotall"@]);
    let c = flag_if(
        content,
        num_opt("-B"@, p.before_context) + num_opt("-A"@, p.after_context) + num_opt("-C"@, p.context) + flag_if(
            p.line_number,
            seq!["-n"@],
        ),
    );
    let g = str_opt("-g"@, p.glob);
    let t = str_opt("--type"@, p.file_type);
    let mode = if p.output_mode@ == "files_with_matches"@ {
        seq!["-l"@]
    } else if p.output_mode@ == "count_matches"@ {
        seq!["-c"@]
    } else {
        Seq::empty()
    };
    let d = flag_if(has_prefix(p.pattern@, "-"@), seq!["--"@]);
    let tail = seq![p.pattern@, p.path@];
    lemma_grep_parts(i, m, c, g, t, mode, d, tail);
    lemma_grep_parts(i, m, c, Seq::empty(), t, mode, d, tail);
    assert(grep_args_spec(p) == (i + m + c) + g + (t + mode + d + tail));
    assert(grep_args_spec(without_glob(p)) == (i + m + c) + (t + mode + d + tail));
    lemma_insert_middle(i + m + c, g, t + mode + d + tail);
    if let Some(gl) = p.glob {
        let k = (i + m + c).len() as int;
        assert(g[0] == "-g"@ && g[1] == gl@);
        assert(grep_args_spec(p)[k] == "-g"@);
        assert(grep_args_spec(p)[k + 1] == gl@);
    } else {
        assert(g =~= Seq::<Seq<char>>::empty());
        assert(grep_args_spec(p) =~= grep_args_spec(without_glob(p)));
    }
}

/// The pattern and the path always come last, in that order, with `--` just before a pattern
/// that starts with `-`; listing files puts `-l` just before those, counting puts `-c`;
/// ignoring case puts `-i` first; a multiline search adds `-U` and `--multiline-dotall`.
pub proof fn lemma_grep_args_shape(p: GrepParams)
    ensures
        grep_args_spec(p).len() >= 2,
        grep_args_spec(p)[grep_args_spec(p).len() - 2] == p.pattern@,
        grep_args_spec(p)[grep_args_spec(p).len() - 1] == p.path@,
        has_prefix(p.pattern@, "-"@) ==> grep_args_spec(p).len() >= 3 && grep_args_spec(p)[grep_args_spec(p).len() - 3]
            == "--"@,
        p.output_mode@ == "files_with_matches"@ ==> grep_args_spec(p).contains("-l"@),
        p.output_mode@ == "count_matches"@ ==> grep_args_spec(p).contains("-c"@),
        p.ignore_case ==> grep_args_spec(p)[0] == "-i"@,
        p.multiline ==> grep_args_spec(p).contains("-U"@) && grep_args_spec(p).contains("--multiline-dotall"@),
{
    let content = p.output_mode@ == "content"@;
    let i = flag_if(p.ignore_case, seq!["-i"@]);
    let m = flag_if(p.multiline, seq!["-U"@, "--multiline-dotall"@]);
    let c = flag_if(
        content,
        num_opt("-B"@, p.before_context) + num_opt("-A"@, p.after_context) + num_opt("-C"@, p.context) + flag_if(
            p.line_number,
            seq!["-n"@],
        ),
    );
    let g = str_opt("-g"@, p.glob);
    let t = str_opt("--type"@, p.file_type);
    let mode = if p.output_mode@ == "files_with_matches"@ {
        seq!["-l"@]
    } else if p.output_mode@ == "count_matches"@ {
        seq!["-c"@]
    } else {
        Seq::empty()
    };
    let d = flag_if(has_prefix(p.pattern@, "-"@), seq!["--"@]);
    let tail = seq![p.pattern@, p.path@];
    lemma_grep_parts(i, m, c, g, t, mode, d, tail);
    let a = grep_args_spec(p);
    assert(a == ((((((i + m) + c) + g) + t) + mode) + d) + tail);
    let pre = (i + m + c + g + t).len() as int;
    assert(tail.len() == 2 && tail[0] == p.pattern@ && tail[1] == p.path@);
    reveal_strlit("files_with_matches");
    reveal_strlit("count_matches");
    assert("files_with_matches"@.len() != "count_matches"@.len());
    if has_prefix(p.pattern@, "-"@) {
        assert(d.len() == 1 && d[0] == "--"@);
    }
    if p.ignore_case {
        assert(i.len() == 1 && i[0] == "-i"@);
    }
    if p.output_mode@ == "files_with_matches"@ {
        assert(mode.len() == 1 && mode[0] == "-l"@);
        assert(a[pre] == "-l"@);
    } else if p.output_mode@ == "count_matches"@ {
        assert(mode.len() == 1 && mode[0] == "-c"@);
        assert(a[pre] == "-c"@);
    }
    if p.multiline {
        assert(m.len() == 2 && m[0] == "-U"@ && m[1] == "--multiline-dotall"@);
        assert(a[i.len() as int] == "-U"@);
        assert(a[i.len() as int + 1] == "--multiline-dotall"@);
    }
}

/// In content mode the context options reach ripgrep: `-B`, `-A` and `-C` each followed by its
/// number when given, and `-n` when line numbers are asked for.
pub proof fn lemma_grep_context_options(p: GrepParams)
    requires
        p.output_mode@ == "content"@,
    ensures
        p.before_context matches Some(b) ==> exists|k: int| #![trigger grep_args_spec(p)[k]]
            0 <= k && k + 1 < grep_args_spec(p).len() && grep_args_spec(p)[k] == "-B"@ && grep_args_spec(p)[k + 1]
                == decimal_int(b as int),
        p.after_context matches Some(x) ==> exists|k: int| #![trigger grep_args_spec(p)[k]]
            0 <= k && k + 1 < grep_args_spec(p).len() && grep_args_spec(p)[k] == "-A"@ && grep_args_spec(p)[k + 1]
                == decimal_int(x as int),
        p.context matches Some(x) ==> exists|k: int| #![trigger grep_args_spec(p)[k]]
            0 <= k && k + 1 < grep_args_spec(p).len() && grep_args_spec(p)[k] == "-C"@ && grep_args_spec(p)[k + 1]
                == decimal_int(x as int),
        p.line_number ==> grep_args_spec(p).contains("-n"@),
{
    let i = flag_if(p.ignore_case, seq!["-i"@]);
    let m = flag_if(p.multiline, seq!["-U"@, "--multiline-dotall"@]);
    let bb = num_opt("-B"@, p.before_context);
    let aa = num_opt("-A"@, p.after_context);
    let cc = num_opt("-C"@, p.context);
    let nn = flag_if(p.line_number, seq!["-n"@]);
    let g = str_opt("-g"@, p.glob);
    let t = str_opt("--type"@, p.file_type);
    let mode = if p.output_mode@ == "files_with_matches"@ {
        seq!["-l"@]
    } else if p.output_mode@ == "count_matches"@ {
        seq!["-c"@]
    } else {
        Seq::empty()
    };
    let d = flag_if(has_prefix(p.pattern@, "-"@), seq!["--"@]);
    let tail = seq![p.pattern@, p.path@];
    lemma_context_parts(i + m, bb, aa, cc, nn, g, t, mode, d, tail);
    assert(grep_args_spec(p) == (((((((i + m) + (((bb + aa) + cc) + nn)) + g) + t) + mode) + d) + tail));
    let a = grep_args_spec(p);
    let pre = (i + m).len() as int;
    if let Some(b) = p.before_context {
        assert(a[pre] == "-B"@ && a[pre + 1] == decimal_int(b as int));
    }
    if let Some(x) = p.after_context {
        assert(a[pre + bb.len()] == "-A"@ && a[pre + bb.len() + 1] == decimal_int(x as int));
    }
    if let Some(x) = p.context {
        assert(a[pre + bb.len() + aa.len()] == "-C"@ && a[pre + bb.len() + aa.len() + 1] == decimal_int(x as int));
    }
    if p.line_number {
        assert(a[pre + bb.len() + aa.len() + cc.len()] == "-n"@);
    }
}

proof fn lemma_context_parts(
    im: Seq<Seq<char>>,
    bb: Seq<Seq<char>>,
    aa: Seq<Seq<char>>,
    cc: Seq<Seq<char>>,
    nn: Seq<Seq<char>>,
    g: Seq<Seq<char>>,
    t: Seq<Seq<char>>,
    mode: Seq<Seq<char>>,
    d: Seq<Seq<char>>,
    tail: Seq<Seq<char>>,
)
    ensures
        ({
            let a = (((((im + (((bb + aa) + cc) + nn)) + g) + t) + mode) + d) + tail;
            let pre = im.len() as int;
            &&& bb.len() == 2 ==> a[pre] == bb[0] && a[pre + 1] == bb[1] && pre + 1 < a.len()
            &&& aa.len() == 2 ==> a[pre + bb.len()] == aa[0] && a[pre + bb.len() + 1] == aa[1] && pre + bb.len() + 1 < a.len()
            &&& cc.len() == 2 ==> a[pre + bb.len() + aa.len()] == cc[0] && a[pre + bb.len() + aa.len() + 1] == cc[1]
                && pre + bb.len() + aa.len() + 1 < a.len()
            &&& nn.len() == 1 ==> a[pre + bb.len() + aa.len() + cc.len()] == nn[0] && pre + bb.len() + aa.len() + cc.len() < a.len()
        }),
{
    let x = ((bb + aa) + cc) + nn;
    let rest = g + t + mode + d + tail;
    assert((((((im + x) + g) + t) + mode) + d) + tail =~= im + x + rest);
}

fn push_arg(args: &mut Vec<String>, a: &str)
    ensures
        strings_view(final(args)@) == strings_view(old(args)@).push(a@),
{
    let ghost a0 = args@;
    args.push(owned(a));
    assert(strings_view(args@) =~= strings_view(a0).push(a@));
}

fn push_num_opt(args: &mut Vec<String>, flag: &str, n: Option<i64>)
    ensures
        strings_view(final(args)@) == strings_view(old(args)@) + num_opt(flag@, n),
{
    let ghost a0 = strings_view(args@);
    match n {
        Some(v) => {
            push_arg(args, flag);
            let t = format_i64(v);
            push_arg(args, t.as_str());
        },
        None => {},
    }
    assert(strings_view(args@) =~= a0 + num_opt(flag@, n));
}

fn push_str_opt(args: &mut Vec<String>, flag: &str, v: &Option<String>)
    ensures
        strings_view(final(args)@) == strings_view(old(args)@) + str_opt(flag@, *v),
{
    let ghost a0 = strings_view(args@);
    match v {
        Some(t) => {
            push_arg(args, flag);
            push_arg(args, t.as_str());
        },
        None => {},
    }
    assert(strings_view(args@) =~= a0 + str_opt(flag@, *v));
}

fn push_flags(args: &mut Vec<String>, params: &GrepParams)
    ensures
        strings_view(final(args)@) == strings_view(old(args)@) + flag_if(params.ignore_case, seq!["-i"@]) + flag_if(
            params.multiline,
            seq!["-U"@, "--multiline-dotall"@],
        ) + flag_if(
            params.output_mode@ == "content"@,
            num_opt("-B"@, params.before_context) + num_opt("-A"@, params.after_context) + num_opt("-C"@, params.context)
                + flag_if(params.line_number, seq!["-n"@]),
        ),
{
    let ghost a0 = strings_view(args@);
    if params.ignore_case {
        push_arg(args, "-i");
    }
    let ghost a1 = strings_view(args@);
    assert(a1 =~= a0 + flag_if(params.ignore_case, seq!["-i"@]));
    if params.multiline {
        push_arg(args, "-U");
        push_arg(args, "--multiline-dotall");
    }
    let ghost a2 = strings_view(args@);
    assert(a2 =~= a1 + flag_if(params.multiline, seq!["-U"@, "--multiline-dotall"@]));
    if str_eq(params.output_mode.as_str(), "content") {
        push_num_opt(args, "-B", params.before_context);
        push_num_opt(args, "-A", params.after_context);
        push_num_opt(args, "-C", params.context);
        let ghost a3 = strings_view(args@);
        if params.line_number {
            push_arg(args, "-n");
        }
        assert(strings_view(args@) =~= a3 + flag_if(params.line_number, seq!["-n"@]));
    }
    assert(strings_view(args@) =~= a2 + flag_if(
        params.output_mode@ == "content"@,
        num_opt("-B"@, params.before_context) + num_opt("-A"@, params.after_context) + num_opt("-C"@, params.context)
            + flag_if(params.line_number, seq!["-n"@]),
    ));
}

fn push_mode(args: &mut Vec<String>, mode: &str)
    ensures
        strings_view(final(args)@) == strings_view(old(args)@) + (if mode@ == "files_with_matches"@ {
            seq!["-l"@]
        } else if mode@ == "count_matches"@ {
            seq!["-c"@]
        } else {
            Seq::<Seq<char>>::empty()
        }),
{
    let ghost a0 = strings_view(args@);
    if str_eq(mode, "files_with_matches") {
        push_arg(args, "-l");
    } else if str_eq(mode, "count_matches") {
        push_arg(args, "-c");
    } else {
        assert(strings_view(args@) =~= a0 + Seq::<Seq<char>>::empty());
    }
}

/// The arguments ripgrep runs with for a search.
pub fn grep_args(params: &GrepParams) -> (r: Vec<String>)
    ensures
        strings_view(r@) == grep_args_spec(*params),
{
    let mut args: Vec<String> = Vec::new();
    assert(strings_view(args@) =~= Seq::<Seq<char>>::empty());
    push_flags(&mut args, params);
    push_str_opt(&mut args, "-g", &params.glob);
    push_str_opt(&mut args, "--type", &params.file_type);
    push_mode(&mut args, params.output_mode.as_str());
    let ghost a4 = strings_view(args@);
    let pc = str_chars(params.pattern.as_str());
    let dash = crate::text::starts_with_str(pc.as_slice(), "-");
    if dash {
        push_arg(&mut args, "--");
    }
    assert(strings_view(args@) =~= a4 + flag_if(has_prefix(params.pattern@, "-"@), seq!["--"@]));
    push_arg(&mut args, params.pattern.as_str());
    push_arg(&mut args, params.path.as_str());
    assert(strings_view(args@) =~= grep_args_spec(*params));
    args
}

/// The message for a run of ripgrep that failed: its error output, or its exit status when it
/// wrote none (`-1` when it has none).
pub open spec fn grep_failure_message(code: Option<i32>, stderr: Seq<char>) -> Seq<char> {
    if trim(stderr).len() == 0 {
        "Failed to grep. Exit status: "@ + decimal_int(
            match code {
                Some(c) => c as int,
                None => -1,
            },
        )
    } else {
        "Failed to grep. Error: "@ + stderr
    }
}

/// The error for a run of ripgrep that failed: any run that did not succeed, except exit
/// status 1, which only means that nothing matched.
pub fn grep_failure(success: bool, code: Option<i32>, stderr: &str) -> (r: Option<ToolReturnValue>)
    ensures
        !success && code != Some(1i32) ==> (r matches Some(v) && ret_view(v) == error_view(
            ""@,
            grep_failure_message(code, stderr@),
            "Failed to grep"@,
        )),
        success || code == Some(1i32) ==> r is None,
{
    if success || code == Some(1i32) {
        return None;
    }
    let t = trim_str(stderr);
    let mut m = if t.as_str().is_empty() {
        let mut m = owned("Failed to grep. Exit status: ");
        let c: i64 = match code {
            Some(c) => c as i64,
            None => -1,
        };
        let n = format_i64(c);
        push_str(&mut m, n.as_str());
        m
    } else {
        let mut m = owned("Failed to grep. Error: ");
        push_str(&mut m, stderr);
        m
    };
    Some(tool_error("", m.as_str(), "Failed to grep"))
}

/// The output to show and the message for a result cut to a number of lines: the first lines,
/// then a note; unchanged when it has no more lines than that.
pub open spec fn head_cut(out: Seq<char>, head_limit: Option<i64>) -> (Seq<char>, Seq<char>) {
    match head_limit {
        Some(l) => {
            let limit: nat = if l < 0 {
                0
            } else {
                (l as usize) as nat
            };
            let lines = split_char(out, '\n');
            if lines.len() > limit {
                (
                    join_seqs(lines.take(limit as int), "\n"@) + "\n... (results truncated to "@ + decimal(limit) + " lines)"@,
                    "Results truncated to first "@ + decimal(limit) + " lines"@,
                )
            } else {
                (out, Seq::empty())
            }
        },
        None => (out, Seq::empty()),
    }
}

/// The state of a default builder after writing text.
pub open spec fn written_default(text: Seq<char>) -> Option<BuilderState> {
    write_from(
        BuilderState { pieces: Seq::empty(), n_chars: 0, n_lines: 0, truncation: false, written: 0 },
        lines_keep_from(text, 0, 0),
        0,
        DEFAULT_MAX_CHARS as nat,
        Some(DEFAULT_MAX_LINE_LENGTH),
        truncation_marker(),
    )
}

/// Cuts ripgrep's output to a number of lines.
pub fn cut_head(out: &str, head_limit: Option<i64>) -> (r: (String, String))
    ensures
        (r.0@, r.1@) == head_cut(out@, head_limit),
{
    match head_limit {
        Some(l) => {
            let limit: usize = if l < 0 {
                0
            } else {
                l as usize
            };
            let cs = str_chars(out);
            let lines = split_chars(cs.as_slice(), '\n');
            if lines.len() > limit {
                let mut head: Vec<Vec<char>> = Vec::new();
                let mut i: usize = 0;
                while i < limit
                    invariant
                        i <= limit < lines@.len(),
                        vv(head@) == vv(lines@).take(i as int),
                    decreases limit - i,
                {
                    let ghost h0 = head@;
                    head.push(lines[i].clone());
                    proof {
                        crate::text::lemma_vv_push(h0, lines@[i as int]);
                        assert(vv(lines@).take(i + 1) =~= vv(lines@).take(i as int).push(lines@[i as int]@));
                    }
                    i = i + 1;
                }
                let nl = str_chars("\n");
                let joined = join_chars(&head, nl.as_slice());
                let mut text = string_from_chars(joined.as_slice());
                push_str(&mut text, "\n... (results truncated to ");
                let n = format_usize(limit);
                push_str(&mut text, n.as_str());
                push_str(&mut text, " lines)");
                let mut m = owned("Results truncated to first ");
                push_str(&mut m, n.as_str());
                push_str(&mut m, " lines");
                (text, m)
            } else {
                (owned(out), String::new())
            }
        },
        None => (owned(out), String::new()),
    }
}

/// The result of a search from ripgrep's output: `No matches found.` when it wrote nothing;
/// otherwise the output cut to the head limit, as far as a default builder takes it, with the
/// message that says so.
pub fn grep_result(stdout: &str, head_limit: Option<i64>) -> (r: ToolReturnValue)
    requires
        stdout@.len() > 0 ==> written_default(head_cut(stdout@, head_limit).0) is Some,
    ensures
        r.extras is None,
        !r.is_error,
        blocks_view(r.display@) == brief_blocks(""@),
        stdout@.len() == 0 ==> output_text(r.output) == Some(Seq::<char>::empty()) && r.message@ == "No matches found."@,
        stdout@.len() > 0 ==> {
            let (text, msg) = head_cut(stdout@, head_limit);
            let st = written_default(text)->0;
            &&& output_text(r.output) == Some(join_seqs(st.pieces, Seq::empty()))
            &&& r.message@ == with_truncation_note(with_period(msg), st.truncation)
        },
{
    let mut builder = ToolResultBuilder::default();
    proof {
        reveal_strlit("");
    }
    if stdout.is_empty() {
        proof {
            reveal_strlit("No matches found");
            reveal_strlit("No matches found.");
            assert(join_seqs(Seq::<Seq<char>>::empty(), Seq::empty()) =~= Seq::<char>::empty());
            assert(with_period("No matches found"@) =~= "No matches found."@);
        }
        return builder.ok("No matches found", "");
    }
    let (text, message) = cut_head(stdout, head_limit);
    proof {
        assert(builder.pieces() =~= Seq::<Seq<char>>::empty());
        assert(builder.state() == BuilderState { pieces: Seq::empty(), n_chars: 0, n_lines: 0, truncation: false, written: 0 });
    }
    builder.write(text.as_str());
    builder.ok(message.as_str(), "")
}

/// The ripgrep release the tool fetches.
pub const RG_VERSION: &'static str = "15.0.0";

/// Where ripgrep builds are fetched from.
pub const RG_BASE_URL: &'static str = "http://cdn.kimi.com/binaries/kimi-cli/rg";

/// The name of the ripgrep program.
pub fn rg_binary_name(is_windows: bool) -> (r: &'static str)
    ensures
        r@ == if is_windows { "rg.exe"@ } else { "rg"@ },
{
    if is_windows {
        "rg.exe"
    } else {
        "rg"
    }
}

/// The build target for an architecture and an operating system, as the releases name them.
pub open spec fn rg_target(arch: Seq<char>, os: Seq<char>) -> Option<Seq<char>> {
    let a = if arch == "x86_64"@ || arch == "amd64"@ {
        Some("x86_64"@)
    } else if arch == "aarch64"@ || arch == "arm64"@ {
        Some("aarch64"@)
    } else {
        None
    };
    match a {
        None => None,
        Some(a) => if os == "macos"@ {
            Some(a + "-apple-darwin"@)
        } else if os == "linux"@ {
            Some(a + if a == "x86_64"@ { "-unknown-linux-musl"@ } else { "-unknown-linux-gnu"@ })
        } else if os == "windows"@ {
            Some(a + "-pc-windows-msvc"@)
        } else {
            None
        },
    }
}

/// The build target for an architecture and an operating system, when ripgrep has one.
pub fn detect_target(arch: &str, os: &str) -> (r: Option<String>)
    ensures
        match rg_target(arch@, os@) {
            Some(t) => r matches Some(s) && s@ == t,
            None => r is None,
        },
{
    let a = if str_eq(arch, "x86_64") || str_eq(arch, "amd64") {
        "x86_64"
    } else if str_eq(arch, "aarch64") || str_eq(arch, "arm64") {
        "aarch64"
    } else {
        return None;
    };
    proof {
        reveal_strlit("x86_64");
        reveal_strlit("aarch64");
    }
    let suffix = if str_eq(os, "macos") {
        "-apple-darwin"
    } else if str_eq(os, "linux") {
        if str_eq(a, "x86_64") {
            "-unknown-linux-musl"
        } else {
            "-unknown-linux-gnu"
        }
    } else if str_eq(os, "windows") {
        "-pc-windows-msvc"
    } else {
        return None;
    };
    let mut t = owned(a);
    push_str(&mut t, suffix);
    Some(t)
}

/// The archive of a ripgrep build, and the URL it is fetched from.
pub fn rg_archive(target: &str) -> (r: (String, String))
    ensures
        ({
            let ext = if crate::flow::mermaid::find_seq(target@, "windows"@, 0) is Some { "zip"@ } else { "tar.gz"@ };
            let file = "ripgrep-"@ + RG_VERSION@ + "-"@ + target@ + "."@ + ext;
            &&& r.0@ == file
            &&& r.1@ == RG_BASE_URL@ + "/"@ + file
        }),
{
    let tc = str_chars(target);
    let w = str_chars("windows");
    proof {
        reveal_strlit("windows");
    }
    let is_windows = crate::flow::mermaid::find_seq_at(tc.as_slice(), w.as_slice(), 0).is_some();
    let mut file = owned("ripgrep-");
    push_str(&mut file, RG_VERSION);
    push_str(&mut file, "-");
    push_str(&mut file, target);
    push_str(&mut file, ".");
    push_str(&mut file, if is_windows { "zip" } else { "tar.gz" });
    let mut url = owned(RG_BASE_URL);
    push_str(&mut url, "/");
    push_str(&mut url, file.as_str());
    (file, url)
}

} // verus!
