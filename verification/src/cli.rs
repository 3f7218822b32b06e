//! The command line: its options, the rules they must keep, which agent, thinking mode and
//! session they select, and how the work directory's metadata records the session afterwards.
use vstd::prelude::*;

use crate::metadata::{entry_index, meta_view, Metadata, WorkDirMeta};
use crate::paths::join_spec;
use crate::text::{owned, push_str, str_eq, trim, trim_str};
use crate::utils::slashcmd::strings_view;

verus! {

/// A built-in agent.
#[derive(Clone, Copy, Debug, PartialEq, Eq, Structural)]
pub enum AgentKind {
    Default,
    Okabe,
}

/// The options of the program.
pub struct Cli {
    pub version: bool,
    pub verbose: bool,
    pub debug: bool,
    pub work_dir: Option<String>,
    pub session_id: Option<String>,
    pub continue_session: bool,
    pub config_string: Option<String>,
    pub config_file: Option<String>,
    pub model_name: Option<String>,
    pub thinking: bool,
    pub no_thinking: bool,
    pub yolo: bool,
    pub wire: bool,
    pub agent: Option<AgentKind>,
    pub agent_file: Option<String>,
    pub mcp_config_file: Vec<String>,
    pub mcp_config: Vec<String>,
    pub skills_dir: Option<String>,
    pub max_steps_per_turn: Option<i64>,
    pub max_retries_per_step: Option<i64>,
    pub max_ralph_iterations: Option<i64>,
}

/// The options of the `info` command.
pub struct InfoArgs {
    pub json_output: bool,
}

/// Where the configuration comes from: a file, or a configuration already read.
pub enum ConfigInput {
    Path(String),
    Inline(crate::config::Config),
}

/// The error for options given together that exclude each other, or none.
pub open spec fn conflict(a: (Seq<char>, bool), b: (Seq<char>, bool)) -> Option<Seq<char>> {
    if a.1 && b.1 {
        Some("Cannot combine "@ + a.0 + ", "@ + b.0 + "."@)
    } else {
        None
    }
}

/// The first error the option flags give: options that exclude each other, both thinking
/// flags, a blank session ID, a blank configuration.
pub open spec fn flags_error(cli: Cli) -> Option<Seq<char>> {
    match conflict(("--agent"@, cli.agent is Some), ("--agent-file"@, cli.agent_file is Some)) {
        Some(e) => Some(e),
        None => match conflict(("--continue"@, cli.continue_session), ("--session"@, cli.session_id is Some)) {
            Some(e) => Some(e),
            None => match conflict(("--config"@, cli.config_string is Some), ("--config-file"@, cli.config_file is Some)) {
                Some(e) => Some(e),
                None => if cli.thinking && cli.no_thinking {
                    Some("Cannot combine --thinking and --no-thinking."@)
                } else if cli.session_id matches Some(s) && trim(s@).len() == 0 {
                    Some("Session ID cannot be empty."@)
                } else if cli.config_string matches Some(c) && trim(c@).len() == 0 {
                    Some("Config cannot be empty."@)
                } else {
                    None
                },
            },
        },
    }
}

fn conflict_error(a: &str, a_on: bool, b: &str, b_on: bool) -> (r: Option<String>)
    ensures
        match conflict((a@, a_on), (b@, b_on)) {
            Some(e) => r matches Some(m) && m@ == e,
            None => r is None,
        },
{
    if a_on && b_on {
        let mut m = owned("Cannot combine ");
        push_str(&mut m, a);
        push_str(&mut m, ", ");
        push_str(&mut m, b);
        push_str(&mut m, ".");
        Some(m)
    } else {
        None
    }
}

/// Checks the option flags: the first error they give, if any.
pub fn check_cli_flags(cli: &Cli) -> (r: Result<(), String>)
    ensures
        match flags_error(*cli) {
            Some(e) => r matches Err(m) && m@ == e,
            None => r is Ok,
        },
{
    match conflict_error("--agent", cli.agent.is_some(), "--agent-file", cli.agent_file.is_some()) {
        Some(e) => {
            return Err(e);
        },
        None => {},
    }
    match conflict_error("--continue", cli.continue_session, "--session", cli.session_id.is_some()) {
        Some(e) => {
            return Err(e);
        },
        None => {},
    }
    match conflict_error("--config", cli.config_string.is_some(), "--config-file", cli.config_file.is_some()) {
        Some(e) => {
            return Err(e);
        },
        None => {},
    }
    if cli.thinking && cli.no_thinking {
        return Err(owned("Cannot combine --thinking and --no-thinking."));
    }
    match &cli.session_id {
        Some(s) => {
            if trim_str(s.as_str()).as_str().is_empty() {
                return Err(owned("Session ID cannot be empty."));
            }
        },
        None => {},
    }
    match &cli.config_string {
        Some(c) => {
            if trim_str(c.as_str()).as_str().is_empty() {
                return Err(owned("Config cannot be empty."));
            }
        },
        None => {},
    }
    Ok(())
}

/// A path an option names that must exist: the path, what it is called, and whether it must be
/// a directory (else a file).
pub struct PathCheck {
    pub path: String,
    pub label: String,
    pub directory: bool,
}

/// The view of a path check.
pub open spec fn check_view(c: PathCheck) -> (Seq<char>, Seq<char>, bool) {
    (c.path@, c.label@, c.directory)
}

/// The paths the options name that must exist, in the order they are checked: the work
/// directory, the skills directory, the configuration file, the agent file, then each MCP
/// configuration file.
pub open spec fn paths_to_check(cli: Cli) -> Seq<(Seq<char>, Seq<char>, bool)> {
    (match cli.work_dir {
        Some(p) => seq![(p@, "work dir"@, true)],
        None => Seq::empty(),
    }) + (match cli.skills_dir {
        Some(p) => seq![(p@, "skills dir"@, true)],
        None => Seq::empty(),
    }) + (match cli.config_file {
        Some(p) => seq![(p@, "config file"@, false)],
        None => Seq::empty(),
    }) + (match cli.agent_file {
        Some(p) => seq![(p@, "agent file"@, false)],
        None => Seq::empty(),
    }) + strings_view(cli.mcp_config_file@).map_values(|p: Seq<char>| (p, "MCP config file"@, false))
}

fn push_check(v: &mut Vec<PathCheck>, p: &Option<String>, label: &str, directory: bool)
    ensures
        final(v)@.map_values(|c: PathCheck| check_view(c)) == old(v)@.map_values(|c: PathCheck| check_view(c)) + match p {
            Some(x) => seq![(x@, label@, directory)],
            None => Seq::<(Seq<char>, Seq<char>, bool)>::empty(),
        },
{
    let ghost v0 = v@;
    match p {
        Some(x) => {
            v.push(PathCheck { path: x.clone(), label: owned(label), directory });
            assert(v@.map_values(|c: PathCheck| check_view(c)) =~= v0.map_values(|c: PathCheck| check_view(c)).push(
                (x@, label@, directory),
            ));
        },
        None => {
            assert(v@.map_values(|c: PathCheck| check_view(c)) =~= v0.map_values(|c: PathCheck| check_view(c)) + Seq::<
                (Seq<char>, Seq<char>, bool),
            >::empty());
        },
    }
}

/// The paths the options name that must exist, in the order they are checked.
pub fn required_paths(cli: &Cli) -> (r: Vec<PathCheck>)
    ensures
        r@.map_values(|c: PathCheck| check_view(c)) == paths_to_check(*cli),
{
    let mut v: Vec<PathCheck> = Vec::new();
    assert(v@.map_values(|c: PathCheck| check_view(c)) =~= Seq::<(Seq<char>, Seq<char>, bool)>::empty());
    push_check(&mut v, &cli.work_dir, "work dir", true);
    push_check(&mut v, &cli.skills_dir, "skills dir", true);
    push_check(&mut v, &cli.config_file, "config file", false);
    push_check(&mut v, &cli.agent_file, "agent file", false);
    let ghost head = v@.map_values(|c: PathCheck| check_view(c));
    let ghost files = strings_view(cli.mcp_config_file@).map_values(|p: Seq<char>| (p, "MCP config file"@, false));
    let mut i: usize = 0;
    while i < cli.mcp_config_file.len()
        invariant
            i <= cli.mcp_config_file@.len(),
            files == strings_view(cli.mcp_config_file@).map_values(|p: Seq<char>| (p, "MCP config file"@, false)),
            v@.map_values(|c: PathCheck| check_view(c)) == head + files.take(i as int),
        decreases cli.mcp_config_file@.len() - i,
    {
        let ghost v0 = v@;
        v.push(PathCheck { path: cli.mcp_config_file[i].clone(), label: owned("MCP config file"), directory: false });
        assert(v@.map_values(|c: PathCheck| check_view(c)) =~= v0.map_values(|c: PathCheck| check_view(c)).push(
            files[i as int],
        ));
        assert(files.take(i + 1) =~= files.take(i as int).push(files[i as int]));
        i = i + 1;
    }
    assert(files.take(cli.mcp_config_file@.len() as int) =~= files);
    v
}

/// The message for a path that does not exist, or is not what it must be.
pub fn path_check_error(check: &PathCheck, exists: bool) -> (r: String)
    ensures
        r@ == check.label@ + (if !exists {
            " does not exist: "@
        } else if check.directory {
            " is not a directory: "@
        } else {
            " is not a file: "@
        }) + check.path@,
{
    let mut m = check.label.clone();
    if !exists {
        push_str(&mut m, " does not exist: ");
    } else if check.directory {
        push_str(&mut m, " is not a directory: ");
    } else {
        push_str(&mut m, " is not a file: ");
    }
    push_str(&mut m, check.path.as_str());
    m
}

/// The first error the numeric limits give: at least one step and one retry, and no fewer
/// extra iterations than -1 (which means no limit).
pub open spec fn limits_error(cli: Cli) -> Option<Seq<char>> {
    if cli.max_steps_per_turn matches Some(n) && n < 1 {
        Some("max-steps-per-turn must be >= 1."@)
    } else if cli.max_retries_per_step matches Some(n) && n < 1 {
        Some("max-retries-per-step must be >= 1."@)
    } else if cli.max_ralph_iterations matches Some(n) && n < -1 {
        Some("max-ralph-iterations must be >= -1."@)
    } else {
        None
    }
}

/// Checks the numeric limits: the first error they give, if any.
pub fn check_cli_limits(cli: &Cli) -> (r: Result<(), String>)
    ensures
        match limits_error(*cli) {
            Some(e) => r matches Err(m) && m@ == e,
            None => r is Ok,
        },
{
    match cli.max_steps_per_turn {
        Some(n) => {
            if n < 1 {
                return Err(owned("max-steps-per-turn must be >= 1."));
            }
        },
        None => {},
    }
    match cli.max_retries_per_step {
        Some(n) => {
            if n < 1 {
                return Err(owned("max-retries-per-step must be >= 1."));
            }
        },
        None => {},
    }
    match cli.max_ralph_iterations {
        Some(n) => {
            if n < -1 {
                return Err(owned("max-ralph-iterations must be >= -1."));
            }
        },
        None => {},
    }
    Ok(())
}

/// The agent file the options select: the one named, else a built-in agent's, else none.
pub fn resolve_agent_file(agent: Option<AgentKind>, agent_file: &Option<String>, package_dir: &str) -> (r: Option<String>)
    ensures
        match agent_file {
            Some(f) => r matches Some(p) && p@ == f@,
            None => match agent {
                Some(AgentKind::Default) => r matches Some(p) && p@ == join_spec(
                    join_spec(join_spec(join_spec(package_dir@, "src"@), "agents"@), "default"@),
                    "agent.yaml"@,
                ),
                Some(AgentKind::Okabe) => r matches Some(p) && p@ == join_spec(
                    join_spec(join_spec(join_spec(package_dir@, "src"@), "agents"@), "okabe"@),
                    "agent.yaml"@,
                ),
                None => r is None,
            },
        },
{
    match agent_file {
        Some(f) => Some(f.clone()),
        None => match agent {
            Some(AgentKind::Default) => Some(crate::agentspec::default_agent_file(package_dir)),
            Some(AgentKind::Okabe) => Some(crate::agentspec::okabe_agent_file(package_dir)),
            None => None,
        },
    }
}

/// The thinking mode the options select: on, off, or the configuration's.
pub fn resolve_thinking(thinking: bool, no_thinking: bool) -> (r: Result<Option<bool>, String>)
    ensures
        thinking && no_thinking ==> (r matches Err(m) && m@ == "Cannot combine --thinking and --no-thinking."@),
        thinking && !no_thinking ==> r == Ok::<Option<bool>, String>(Some(true)),
        !thinking && no_thinking ==> r == Ok::<Option<bool>, String>(Some(false)),
        !thinking && !no_thinking ==> r == Ok::<Option<bool>, String>(None),
{
    if thinking && no_thinking {
        return Err(owned("Cannot combine --thinking and --no-thinking."));
    }
    if thinking {
        Ok(Some(true))
    } else if no_thinking {
        Ok(Some(false))
    } else {
        Ok(None)
    }
}

/// The session the options ask for.
pub enum SessionPlan {
    /// The session with this id (trimmed), created when it does not exist.
    Resume(String),
    /// The last session of the work directory; an error when there is none.
    Continue,
    /// A new session.
    New,
}

/// The session the options ask for: the one named, else the last one when asked to continue,
/// else a new one.
pub fn session_plan(session_id: &Option<String>, continue_session: bool) -> (r: SessionPlan)
    ensures
        match session_id {
            Some(s) => r matches SessionPlan::Resume(t) && t@ == trim(s@),
            None => if continue_session {
                r is Continue
            } else {
                r is New
            },
        },
{
    match session_id {
        Some(s) => SessionPlan::Resume(trim_str(s.as_str())),
        None => {
            if continue_session {
                SessionPlan::Continue
            } else {
                SessionPlan::New
            }
        },
    }
}

/// The error when there is no session to continue.
pub fn no_previous_session() -> (r: String)
    ensures
        r@ == "No previous session found for the working directory."@,
{
    owned("No previous session found for the working directory.")
}

/// Whether an entry's last session is the given one.
pub open spec fn last_is(m: WorkDirMeta, id: Seq<char>) -> bool {
    m.last_session_id matches Some(s) && s@ == id
}

/// Records a finished session in the work directory's entry, adding the entry when it is
/// missing: an empty session is forgotten (and is no longer the last one); any other becomes
/// the last session. Returns the index of the entry.
pub fn mark_last_session(metadata: &mut Metadata, meta: WorkDirMeta, session_id: &str, is_empty: bool) -> (r: usize)
    ensures
        ({
            let before = old(metadata).work_dirs@;
            let after = final(metadata).work_dirs@;
            let found = entry_index(before, meta.path@, meta.kaos@, 0);
            let base = match found {
                Some(_) => before,
                None => before.push(meta),
            };
            &&& r < after.len()
            &&& r == match found {
                Some(i) => i,
                None => before.len() as int,
            }
            &&& after.len() == base.len()
            &&& forall|j: int| 0 <= j < after.len() && j != r ==> meta_view(#[trigger] after[j]) == meta_view(base[j])
            &&& meta_view(after[r as int]).0 == meta_view(base[r as int]).0
            &&& meta_view(after[r as int]).1 == meta_view(base[r as int]).1
            &&& meta_view(after[r as int]).2 == if is_empty {
                if last_is(base[r as int], session_id@) {
                    None
                } else {
                    meta_view(base[r as int]).2
                }
            } else {
                Some(session_id@)
            }
        }),
{
    let ghost before = metadata.work_dirs@;
    let mut index: Option<usize> = None;
    let mut i: usize = 0;
    while i < metadata.work_dirs.len()
        invariant_except_break
            index is None,
            entry_index(before, meta.path@, meta.kaos@, 0) == entry_index(before, meta.path@, meta.kaos@, i as int),
        invariant
            i <= metadata.work_dirs@.len(),
            metadata.work_dirs@ == before,
        ensures
            index matches Some(k) ==> entry_index(before, meta.path@, meta.kaos@, 0) == Some(k as int) && k < before.len(),
            index is None ==> entry_index(before, meta.path@, meta.kaos@, 0) is None,
        decreases metadata.work_dirs@.len() - i,
    {
        if str_eq(metadata.work_dirs[i].path.as_str(), meta.path.as_str()) && str_eq(
            metadata.work_dirs[i].kaos.as_str(),
            meta.kaos.as_str(),
        ) {
            index = Some(i);
            break;
        }
        i = i + 1;
    }
    let idx = match index {
        Some(k) => k,
        None => {
            metadata.work_dirs.push(meta);
            metadata.work_dirs.len() - 1
        },
    };
    let ghost base = metadata.work_dirs@;
    let entry = &metadata.work_dirs[idx];
    let new_last: Option<String> = if is_empty {
        match &entry.last_session_id {
            Some(s) => {
                if str_eq(s.as_str(), session_id) {
                    None
                } else {
                    Some(s.clone())
                }
            },
            None => None,
        }
    } else {
        Some(owned(session_id))
    };
    let updated = WorkDirMeta { path: entry.path.clone(), kaos: entry.kaos.clone(), last_session_id: new_last };
    metadata.work_dirs.set(idx, updated);
    idx
}

/// What the `info` command prints, one item per line.
pub fn info_text(version: &str, wire_protocol_version: &str) -> (r: String)
    ensures
        r@ == "kimi-cli version: "@ + version@ + "\nagent spec versions: 1\nwire protocol: "@ + wire_protocol_version@
            + "\npython version: n/a\nserver name: Kimi Code CLI\nserver version: "@ + version@ + "\n"@,
{
    let mut s = owned("kimi-cli version: ");
    push_str(&mut s, version);
    push_str(&mut s, "\nagent spec versions: 1\nwire protocol: ");
    push_str(&mut s, wire_protocol_version);
    push_str(&mut s, "\npython version: n/a\nserver name: Kimi Code CLI\nserver version: ");
    push_str(&mut s, version);
    push_str(&mut s, "\n");
    s
}

} // verus!
