//! Agent specifications: the fields a spec file sets or leaves to the spec it extends, how a
//! chain of specs is merged, and how the merged spec is checked and resolved.
use vstd::prelude::*;

use crate::exception::AgentSpecError;
use crate::paths::{join, join_spec};
use crate::text::{decimal_int, format_i64, owned, push_str, str_eq};
use crate::paths::{before_last_segment, is_plain_name, last_segment, slash_only};

verus! {

/// The version an agent spec file has when it names none.
pub const DEFAULT_AGENT_SPEC_VERSION: &'static str = "1";

/// The agent specs shipped with the program, under the given package directory.
pub fn get_agents_dir(package_dir: &str) -> (r: String)
    ensures
        r@ == join_spec(join_spec(package_dir@, "src"@), "agents"@),
{
    let src = join(package_dir, "src");
    join(src.as_str(), "agents")
}

/// The default agent's spec file.
pub fn default_agent_file(package_dir: &str) -> (r: String)
    ensures
        r@ == join_spec(join_spec(join_spec(join_spec(package_dir@, "src"@), "agents"@), "default"@), "agent.yaml"@),
{
    let dir = get_agents_dir(package_dir);
    let d = join(dir.as_str(), "default");
    join(d.as_str(), "agent.yaml")
}

/// The spec file of the agent Okabe.
pub fn okabe_agent_file(package_dir: &str) -> (r: String)
    ensures
        r@ == join_spec(join_spec(join_spec(join_spec(package_dir@, "src"@), "agents"@), "okabe"@), "agent.yaml"@),
{
    let dir = get_agents_dir(package_dir);
    let d = join(dir.as_str(), "okabe");
    join(d.as_str(), "agent.yaml")
}

/// A field that a spec either sets or leaves to the spec it extends.
#[derive(Clone, Debug)]
pub enum Inheritable<T> {
    Inherit,
    Value(T),
}

impl<T> Inheritable<T> {
    /// Whether the field is left to the spec it extends.
    pub fn is_inherit(&self) -> (r: bool)
        ensures
            r == self is Inherit,
    {
        match self {
            Inheritable::Inherit => true,
            Inheritable::Value(_) => false,
        }
    }

    /// The value the field sets, if it sets one.
    pub fn into_value(self) -> (r: Option<T>)
        ensures
            match self {
                Inheritable::Value(v) => r == Some(v),
                Inheritable::Inherit => r is None,
            },
    {
        match self {
            Inheritable::Value(value) => Some(value),
            Inheritable::Inherit => None,
        }
    }
}

impl<T> Default for Inheritable<T> {
    fn default() -> (r: Inheritable<T>)
        ensures
            r is Inherit,
    {
        Inheritable::Inherit
    }
}

impl<T> From<T> for Inheritable<T> {
    fn from(value: T) -> (r: Inheritable<T>) {
        Inheritable::Value(value)
    }
}

impl<T> vstd::std_specs::convert::FromSpecImpl<T> for Inheritable<T> {
    open spec fn obeys_from_spec() -> bool {
        true
    }

    open spec fn from_spec(v: T) -> Inheritable<T> {
        Inheritable::Value(v)
    }
}

/// A subagent: the spec file it runs and what it is for.
#[derive(Clone, Debug)]
pub struct SubagentSpec {
    pub path: String,
    pub description: String,
}

/// One spec file's content: the spec it extends, and the fields it sets.
pub struct AgentSpec {
    pub extend: Option<String>,
    pub name: Inheritable<String>,
    pub system_prompt_path: Inheritable<String>,
    pub system_prompt_args: Vec<(String, String)>,
    pub tools: Inheritable<Option<Vec<String>>>,
    pub exclude_tools: Inheritable<Option<Vec<String>>>,
    pub subagents: Inheritable<Option<Vec<(String, SubagentSpec)>>>,
}

/// A spec with every field settled.
pub struct ResolvedAgentSpec {
    pub name: String,
    pub system_prompt_path: String,
    pub system_prompt_args: Vec<(String, String)>,
    pub tools: Vec<String>,
    pub exclude_tools: Vec<String>,
    pub subagents: Vec<(String, SubagentSpec)>,
}

/// The views of key and value pairs.
pub open spec fn pairs_view(ps: Seq<(String, String)>) -> Seq<(Seq<char>, Seq<char>)> {
    ps.map_values(|p: (String, String)| (p.0@, p.1@))
}

/// The map that pairs give when later pairs replace earlier ones with the same key.
pub open spec fn pairs_map(ps: Seq<(Seq<char>, Seq<char>)>) -> Map<Seq<char>, Seq<char>>
    decreases ps.len(),
{
    if ps.len() == 0 {
        Map::empty()
    } else {
        pairs_map(ps.drop_last()).insert(ps.last().0, ps.last().1)
    }
}

/// Whether no key occurs twice.
pub open spec fn distinct_keys(ps: Seq<(Seq<char>, Seq<char>)>) -> bool {
    forall|i: int, j: int| 0 <= i < j < ps.len() ==> ps[i].0 != ps[j].0
}

/// The view of a field that may be inherited.
pub open spec fn inh_view<T, V>(f: Inheritable<T>, view: spec_fn(T) -> V) -> Option<V> {
    match f {
        Inheritable::Inherit => None,
        Inheritable::Value(v) => Some(view(v)),
    }
}

/// The view of a spec's fields: name, prompt path, tools, excluded tools, and whether its
/// subagents are set (with their names).
pub type SpecV = (
    Option<Seq<char>>,
    Option<Seq<char>>,
    Option<Option<Seq<Seq<char>>>>,
    Option<Option<Seq<Seq<char>>>>,
    Option<Option<Seq<Seq<char>>>>,
);

/// The views of strings.
pub open spec fn strs_view(v: Seq<String>) -> Seq<Seq<char>> {
    v.map_values(|s: String| s@)
}

/// The view of an optional list of strings.
pub open spec fn opt_strs(o: Option<Vec<String>>) -> Option<Seq<Seq<char>>> {
    match o {
        Some(v) => Some(strs_view(v@)),
        None => None,
    }
}

/// The names of subagents.
pub open spec fn sub_names(o: Option<Vec<(String, SubagentSpec)>>) -> Option<Seq<Seq<char>>> {
    match o {
        Some(v) => Some(v@.map_values(|p: (String, SubagentSpec)| p.0@)),
        None => None,
    }
}

/// The view of a spec's fields.
pub open spec fn spec_view(s: AgentSpec) -> SpecV {
    (
        inh_view(s.name, |x: String| x@),
        inh_view(s.system_prompt_path, |x: String| x@),
        inh_view(s.tools, |x: Option<Vec<String>>| opt_strs(x)),
        inh_view(s.exclude_tools, |x: Option<Vec<String>>| opt_strs(x)),
        inh_view(s.subagents, |x: Option<Vec<(String, SubagentSpec)>>| sub_names(x)),
    )
}

/// A field of a child spec over the same field of its parent: the child's when it sets one.
pub open spec fn over<V>(child: Option<V>, parent: Option<V>) -> Option<V> {
    match child {
        Some(v) => Some(v),
        None => parent,
    }
}

/// A child spec's fields over its parent's.
pub open spec fn over_spec(child: SpecV, parent: SpecV) -> SpecV {
    (
        over(child.0, parent.0),
        over(child.1, parent.1),
        over(child.2, parent.2),
        over(child.3, parent.3),
        over(child.4, parent.4),
    )
}

/// The fields a chain of specs gives, the spec file first and the specs it extends after it:
/// each spec's fields over those of the specs it extends.
pub open spec fn merged_fields(chain: Seq<SpecV>) -> SpecV
    decreases chain.len(),
{
    if chain.len() <= 1 {
        chain[0]
    } else {
        over_spec(chain[0], merged_fields(chain.drop_first()))
    }
}

/// The prompt arguments a chain gives: those of the root spec, then each child's over them.
pub open spec fn merged_args(chain: Seq<Seq<(Seq<char>, Seq<char>)>>) -> Map<Seq<char>, Seq<char>>
    decreases chain.len(),
{
    if chain.len() == 0 {
        Map::empty()
    } else {
        merged_args(chain.drop_first()).union_prefer_right(pairs_map(chain[0]))
    }
}

proof fn lemma_pairs_map_push(ps: Seq<(Seq<char>, Seq<char>)>, k: Seq<char>, v: Seq<char>)
    ensures
        pairs_map(ps.push((k, v))) == pairs_map(ps).insert(k, v),
{
    assert(ps.push((k, v)).drop_last() =~= ps);
}

proof fn lemma_pairs_map_dom(ps: Seq<(Seq<char>, Seq<char>)>, k: Seq<char>)
    ensures
        pairs_map(ps).dom().contains(k) <==> exists|i: int| 0 <= i < ps.len() && ps[i].0 == k,
    decreases ps.len(),
{
    if ps.len() > 0 {
        lemma_pairs_map_dom(ps.drop_last(), k);
        if pairs_map(ps).dom().contains(k) && ps.last().0 != k {
            let i = choose|i: int| 0 <= i < ps.drop_last().len() && ps.drop_last()[i].0 == k;
            assert(ps[i].0 == k);
        }
        if exists|i: int| 0 <= i < ps.len() && ps[i].0 == k {
            let i = choose|i: int| 0 <= i < ps.len() && ps[i].0 == k;
            if i < ps.len() - 1 {
                assert(ps.drop_last()[i].0 == k);
            }
        }
    }
}

proof fn lemma_pairs_map_at(ps: Seq<(Seq<char>, Seq<char>)>, j: int)
    requires
        distinct_keys(ps),
        0 <= j < ps.len(),
    ensures
        pairs_map(ps).dom().contains(ps[j].0),
        pairs_map(ps)[ps[j].0] == ps[j].1,
    decreases ps.len(),
{
    if j < ps.len() - 1 {
        lemma_pairs_map_at(ps.drop_last(), j);
    }
}

proof fn lemma_pairs_map_update(ps: Seq<(Seq<char>, Seq<char>)>, j: int, v: Seq<char>)
    requires
        distinct_keys(ps),
        0 <= j < ps.len(),
    ensures
        pairs_map(ps.update(j, (ps[j].0, v))) == pairs_map(ps).insert(ps[j].0, v),
    decreases ps.len(),
{
    let qs = ps.update(j, (ps[j].0, v));
    if j == ps.len() - 1 {
        assert(qs.drop_last() =~= ps.drop_last());
        assert(pairs_map(ps).insert(ps[j].0, v) =~= pairs_map(ps.drop_last()).insert(ps[j].0, v));
    } else {
        lemma_pairs_map_update(ps.drop_last(), j, v);
        assert(qs.drop_last() =~= ps.drop_last().update(j, (ps[j].0, v)));
        assert(ps.last().0 != ps[j].0);
        assert(pairs_map(qs) =~= pairs_map(ps).insert(ps[j].0, v));
    }
}

fn insert_pair(ps: &mut Vec<(String, String)>, key: String, value: String)
    requires
        distinct_keys(pairs_view(old(ps)@)),
    ensures
        distinct_keys(pairs_view(final(ps)@)),
        pairs_map(pairs_view(final(ps)@)) == pairs_map(pairs_view(old(ps)@)).insert(key@, value@),
{
    let ghost pv = pairs_view(ps@);
    let mut i: usize = 0;
    while i < ps.len()
        invariant
            i <= ps@.len(),
            ps@ == old(ps)@,
            pv == pairs_view(ps@),
            distinct_keys(pv),
            forall|k: int| 0 <= k < i ==> pv[k].0 != key@,
        decreases ps@.len() - i,
    {
        if str_eq(ps[i].0.as_str(), key.as_str()) {
            let k = ps[i].0.clone();
            assert(pv[i as int].0 == key@);
            ps.set(i, (k, value));
            proof {
                assert(pairs_view(ps@) =~= pv.update(i as int, (pv[i as int].0, value@)));
                lemma_pairs_map_update(pv, i as int, value@);
                assert(distinct_keys(pairs_view(ps@)));
            }
            return;
        }
        i = i + 1;
    }
    ps.push((key, value));
    proof {
        assert(pairs_view(ps@) =~= pv.push((key@, value@)));
        lemma_pairs_map_push(pv, key@, value@);
    }
}

/// Merges a chain of specs, the spec file first and the specs it extends after it: each spec
/// sets the fields it names over those of the specs it extends, and its prompt arguments are
/// added over theirs.
pub fn merge_agent_specs(chain: Vec<AgentSpec>) -> (r: AgentSpec)
    requires
        chain@.len() > 0,
        forall|i: int| 0 <= i < chain@.len() ==> distinct_keys(pairs_view(#[trigger] chain@[i].system_prompt_args@)),
    ensures
        spec_view(r) == merged_fields(chain@.map_values(|s: AgentSpec| spec_view(s))),
        pairs_map(pairs_view(r.system_prompt_args@)) == merged_args(
            chain@.map_values(|s: AgentSpec| pairs_view(s.system_prompt_args@)),
        ),
        distinct_keys(pairs_view(r.system_prompt_args@)),
{
    let ghost views = chain@.map_values(|s: AgentSpec| spec_view(s));
    let ghost argv = chain@.map_values(|s: AgentSpec| pairs_view(s.system_prompt_args@));
    let mut chain = chain;
    let n = chain.len();
    let mut acc = chain.pop().unwrap();
    proof {
        assert(views.skip(n - 1) =~= seq![views[n - 1]]);
        assert(argv.skip(n - 1) =~= seq![argv[n - 1]]);
        assert(merged_args(seq![argv[n - 1]].drop_first()) =~= Map::empty());
        assert(Map::<Seq<char>, Seq<char>>::empty().union_prefer_right(pairs_map(argv[n - 1])) =~= pairs_map(argv[n - 1]));
    }
    while chain.len() > 0
        invariant
            0 <= chain@.len() < n,
            n == views.len(),
            n == argv.len(),
            forall|i: int| 0 <= i < chain@.len() ==> spec_view(#[trigger] chain@[i]) == views[i],
            forall|i: int| 0 <= i < chain@.len() ==> pairs_view(#[trigger] chain@[i].system_prompt_args@) == argv[i],
            forall|i: int| 0 <= i < chain@.len() ==> distinct_keys(pairs_view(#[trigger] chain@[i].system_prompt_args@)),
            spec_view(acc) == merged_fields(views.skip(chain@.len() as int)),
            pairs_map(pairs_view(acc.system_prompt_args@)) == merged_args(argv.skip(chain@.len() as int)),
            distinct_keys(pairs_view(acc.system_prompt_args@)),
        decreases chain@.len(),
    {
        let ghost m = chain@.len() as int;
        let ghost old_chain = chain@;
        let spec = chain.pop().unwrap();
        proof {
            assert(spec_view(old_chain[m - 1]) == views[m - 1]);
            assert(pairs_view(old_chain[m - 1].system_prompt_args@) == argv[m - 1]);
            assert(distinct_keys(pairs_view(old_chain[m - 1].system_prompt_args@)));
            assert(views.skip(m - 1).drop_first() =~= views.skip(m));
            assert(argv.skip(m - 1).drop_first() =~= argv.skip(m));
            assert(views.skip(m - 1)[0] == views[m - 1]);
            assert(argv.skip(m - 1)[0] == argv[m - 1]);
        }
        let ghost acc_args0 = pairs_view(acc.system_prompt_args@);
        let ghost sv = spec_view(spec);
        let ghost accv = spec_view(acc);
        let ghost sargs = pairs_view(spec.system_prompt_args@);
        let mut k: usize = 0;
        while k < spec.system_prompt_args.len()
            invariant
                k <= spec.system_prompt_args@.len(),
                sargs == pairs_view(spec.system_prompt_args@),
                sv == spec_view(spec),
                accv == spec_view(acc),
                distinct_keys(pairs_view(acc.system_prompt_args@)),
                pairs_map(pairs_view(acc.system_prompt_args@)) == pairs_map(acc_args0).union_prefer_right(
                    pairs_map(sargs.take(k as int)),
                ),
            decreases spec.system_prompt_args@.len() - k,
        {
            let key = spec.system_prompt_args[k].0.clone();
            let value = spec.system_prompt_args[k].1.clone();
            insert_pair(&mut acc.system_prompt_args, key, value);
            proof {
                assert(sargs.take(k + 1) =~= sargs.take(k as int).push(sargs[k as int]));
                lemma_pairs_map_push(sargs.take(k as int), sargs[k as int].0, sargs[k as int].1);
                assert(pairs_map(acc_args0).union_prefer_right(pairs_map(sargs.take(k + 1))) =~= pairs_map(acc_args0).union_prefer_right(
                    pairs_map(sargs.take(k as int)),
                ).insert(sargs[k as int].0, sargs[k as int].1));
            }
            k = k + 1;
        }
        assert(sargs.take(sargs.len() as int) =~= sargs);
        if !spec.name.is_inherit() {
            acc.name = spec.name;
        }
        if !spec.system_prompt_path.is_inherit() {
            acc.system_prompt_path = spec.system_prompt_path;
        }
        if !spec.tools.is_inherit() {
            acc.tools = spec.tools;
        }
        if !spec.exclude_tools.is_inherit() {
            acc.exclude_tools = spec.exclude_tools;
        }
        if !spec.subagents.is_inherit() {
            acc.subagents = spec.subagents;
        }
        proof {
            assert(spec_view(acc) == over_spec(sv, accv));
            assert(spec_view(acc) == merged_fields(views.skip(m - 1)));
        }
    }
    assert(views.skip(0) =~= views);
    assert(argv.skip(0) =~= argv);
    acc
}

/// The fields of a resolved spec: name, prompt path, tools, excluded tools, subagent names.
pub open spec fn resolved_view(r: ResolvedAgentSpec) -> (Seq<char>, Seq<char>, Seq<Seq<char>>, Seq<Seq<char>>, Seq<Seq<char>>) {
    (
        r.name@,
        r.system_prompt_path@,
        strs_view(r.tools@),
        strs_view(r.exclude_tools@),
        r.subagents@.map_values(|p: (String, SubagentSpec)| p.0@),
    )
}

/// What a list that may be unset or empty gives: the list, or nothing.
pub open spec fn or_empty(o: Option<Option<Seq<Seq<char>>>>) -> Seq<Seq<char>> {
    match o {
        Some(Some(v)) => v,
        _ => Seq::empty(),
    }
}

/// Settles a merged spec: it must name the agent, its system prompt and its tools; lists left
/// unset become empty.
pub fn resolve_agent_spec(spec: AgentSpec) -> (r: Result<ResolvedAgentSpec, AgentSpecError>)
    ensures
        spec.name is Inherit ==> (r matches Err(e) && e.message() == "Agent name is required"@),
        spec.name is Value && spec.system_prompt_path is Inherit ==> (r matches Err(e) && e.message()
            == "System prompt path is required"@),
        spec.name is Value && spec.system_prompt_path is Value && spec.tools is Inherit ==> (r matches Err(e)
            && e.message() == "Tools are required"@),
        spec.name is Value && spec.system_prompt_path is Value && spec.tools is Value ==> (r matches Ok(v) && {
            let sv = spec_view(spec);
            &&& resolved_view(v) == (sv.0->0, sv.1->0, or_empty(sv.2), or_empty(sv.3), or_empty(sv.4))
            &&& v.system_prompt_args == spec.system_prompt_args
        }),
{
    if spec.name.is_inherit() {
        return Err(AgentSpecError::new(owned("Agent name is required")));
    }
    if spec.system_prompt_path.is_inherit() {
        return Err(AgentSpecError::new(owned("System prompt path is required")));
    }
    if spec.tools.is_inherit() {
        return Err(AgentSpecError::new(owned("Tools are required")));
    }
    let name = match spec.name {
        Inheritable::Value(v) => v,
        Inheritable::Inherit => String::new(),
    };
    let system_prompt_path = match spec.system_prompt_path {
        Inheritable::Value(v) => v,
        Inheritable::Inherit => String::new(),
    };
    let tools = match spec.tools {
        Inheritable::Value(Some(v)) => v,
        _ => Vec::new(),
    };
    let exclude_tools = match spec.exclude_tools {
        Inheritable::Value(Some(v)) => v,
        _ => Vec::new(),
    };
    let subagents = match spec.subagents {
        Inheritable::Value(Some(v)) => v,
        _ => Vec::new(),
    };
    let r = ResolvedAgentSpec {
        name,
        system_prompt_path,
        system_prompt_args: spec.system_prompt_args,
        tools,
        exclude_tools,
        subagents,
    };
    proof {
        assert(strs_view(r.tools@) =~= or_empty(spec_view(spec).2));
        assert(strs_view(r.exclude_tools@) =~= or_empty(spec_view(spec).3));
        assert(r.subagents@.map_values(|p: (String, SubagentSpec)| p.0@) =~= or_empty(spec_view(spec).4));
    }
    Ok(r)
}

/// The `version` field of a spec file, as the file gives it.
pub enum VersionField {
    Missing,
    Text(String),
    Int(i64),
    Other,
}

/// The version a spec file declares: its text, its number written out, or the default.
pub open spec fn declared_version(v: VersionField) -> Seq<char> {
    match v {
        VersionField::Text(t) => t@,
        VersionField::Int(n) => decimal_int(n as int),
        _ => "1"@,
    }
}

/// Accepts a spec file of a supported version, which is `1` alone.
pub fn check_agent_spec_version(version: &VersionField) -> (r: Result<(), AgentSpecError>)
    ensures
        declared_version(*version) == "1"@ ==> r is Ok,
        declared_version(*version) != "1"@ ==> (r matches Err(e) && e.message() == "Unsupported agent spec version: "@
            + declared_version(*version)),
{
    let v = match version {
        VersionField::Text(t) => t.clone(),
        VersionField::Int(n) => format_i64(*n),
        _ => owned(DEFAULT_AGENT_SPEC_VERSION),
    };
    proof {
        reveal_strlit("1");
    }
    if str_eq(v.as_str(), DEFAULT_AGENT_SPEC_VERSION) {
        Ok(())
    } else {
        let mut m = owned("Unsupported agent spec version: ");
        push_str(&mut m, v.as_str());
        Err(AgentSpecError::new(m))
    }
}

/// The directory a path lies in, as `Path::parent` gives it.
pub uninterp spec fn path_parent(path: Seq<char>) -> Option<Seq<char>>;

/// The parent that the documentation of `Path::parent` gives a path written with `/` alone
/// that ends in a name: an empty path for a single name, and the text before the last `/` when
/// that text also ends in a name; `None` where it leaves the answer to the rest of its rules.
pub open spec fn documented_parent(p: Seq<char>) -> Option<Seq<char>> {
    if !slash_only(p) || !is_plain_name(last_segment(p)) {
        None
    } else if !p.contains('/') {
        Some(Seq::empty())
    } else if is_plain_name(last_segment(before_last_segment(p))) {
        Some(before_last_segment(p))
    } else {
        None
    }
}

/// `Path::parent`: the path without its last component; `None` for a root or an empty path.
/// Where the path uses `/` alone and ends in a name, the documentation states it: an empty path
/// for a single name, and the text before the last `/` when that text also ends in a name.
#[verifier::external_body]
fn parent_dir(path: &str) -> (r: Option<String>)
    ensures
        match r {
            Some(p) => path_parent(path@) == Some(p@),
            None => path_parent(path@) is None,
        },
        documented_parent(path@) is Some ==> r is Some && r->Some_0@ == documented_parent(path@)->Some_0,
{
    match std::path::Path::new(path).parent() {
        Some(p) => Some(p.to_string_lossy().into_owned()),
        None => None,
    }
}

/// The directory of a spec file, or `.` when it has none.
pub open spec fn spec_dir(file: Seq<char>) -> Seq<char> {
    match path_parent(file) {
        Some(p) => p,
        None => "."@,
    }
}

fn spec_dir_of(file: &str) -> (r: String)
    ensures
        r@ == spec_dir(file@),
{
    match parent_dir(file) {
        Some(p) => p,
        None => owned("."),
    }
}

/// The spec file that `extend` names from a spec file: the default agent's for `default`,
/// else the path taken from the spec file's directory.
pub fn extended_spec_file(current_file: &str, extend: &str, default_file: &str) -> (r: String)
    ensures
        r@ == if extend@ == "default"@ {
            default_file@
        } else {
            join_spec(spec_dir(current_file@), extend@)
        },
{
    if str_eq(extend, "default") {
        owned(default_file)
    } else {
        let dir = spec_dir_of(current_file);
        join(dir.as_str(), extend)
    }
}

/// Whether a path is absolute: on Unix, whether it starts at the root.
pub open spec fn is_absolute(path: Seq<char>) -> bool {
    path.len() > 0 && path[0] == '/'
}

/// A path that a spec file names, taken from the spec file's directory unless it is absolute.
/// (The caller then resolves it on disk where it can.)
pub fn spec_relative_path(agent_file: &str, path: &str) -> (r: String)
    ensures
        r@ == if is_absolute(path@) {
            path@
        } else {
            join_spec(spec_dir(agent_file@), path@)
        },
{
    let cs = crate::text::str_chars(path);
    if cs.len() > 0 && cs[0] == '/' {
        owned(path)
    } else {
        let dir = spec_dir_of(agent_file);
        join(dir.as_str(), path)
    }
}

} // verus!
