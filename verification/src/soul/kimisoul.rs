//! The agent's own decisions: its slash commands, how a flow advances from node to node, the
//! loop that repeats a prompt, and which provider errors are worth a retry.
use vstd::prelude::*;

use crate::flow::{edges_view, label_text, EdgeV, Flow, FlowEdge, FlowLabel, FlowNode, FlowNodeKind};
use crate::config::ModelCapability;
use crate::flow::{
    adj_view, nodes_view, choice_scan, clone_edge, content_parts_to_text, edge_view, edges_out, find_key, join, parse_choice,
    text_segments,
};
use crate::message::{
    check_message, needs, part_view, parts_view, runtime_error_shown, system, system_text, tool_result_parts,
    tool_result_to_message, ContentPart, Message, Role, ToolResult,
};
use crate::soul::context::{
    checkpoint_message, cut_index, msg_view, msgs_view, part_full_view, record_view, records_view, replay, Context,
    ContextRecord, MsgV,
};
use crate::soul::{LLMNotSet, LLMNotSupported};
use crate::soul::denwarenji::DenwaRenji;
use crate::soul::MaxStepsReached;
use crate::text::{trim, trim_str};
use crate::tools::utils::is_tool_rejected;
use crate::tools::{blocks_view, brief_of, output_parts};
use crate::skill::{Skill, SkillType};
use crate::text::{owned, push_str, str_eq};
use crate::soul::approval::Approval;
use crate::utils::slashcmd::{parse_slash_command_call, slash_call_spec, strings_view, SlashCommandCall, SlashCommandInfo};
use crate::wire::UserInput;

verus! {

/// A built-in slash command.
#[derive(Clone, Copy, Debug, PartialEq, Eq, Structural)]
pub enum BuiltinSlash {
    Init,
    Compact,
    Clear,
    Yolo,
}

/// What a slash command runs: a built-in, the skill at an index, or the flow of the skill at
/// an index.
#[derive(Clone, Copy, Debug, PartialEq, Eq, Structural)]
pub enum SlashHandler {
    Builtin(BuiltinSlash),
    Skill(usize),
    Flow(usize),
}

/// The view of a skill for its commands: name, description, kind, and whether it has a flow.
pub open spec fn skill_key(s: Skill) -> (Seq<char>, Seq<char>, SkillType, bool) {
    (s.name@, s.description@, s.skill_type, s.flow is Some)
}

/// The commands the skills from index `i` on add in one pass: `skill:<name>` for standard and
/// flow skills, or (in the flow pass) `flow:<name>` for flow skills that have a flow; a name
/// already taken is skipped.
pub open spec fn skill_pass(
    skills: Seq<(Seq<char>, Seq<char>, SkillType, bool)>,
    i: int,
    flow_pass: bool,
    seen: Seq<Seq<char>>,
) -> Seq<(Seq<char>, nat)>
    decreases skills.len() - i,
{
    if i < 0 || i >= skills.len() {
        Seq::empty()
    } else {
        let s = skills[i];
        let eligible = if flow_pass {
            s.2 == SkillType::Flow && s.3
        } else {
            s.2 == SkillType::Standard || s.2 == SkillType::Flow
        };
        let key = (if flow_pass {
            "flow:"@
        } else {
            "skill:"@
        }) + s.0;
        if eligible && !seen.contains(key) {
            seq![(key, i as nat)] + skill_pass(skills, i + 1, flow_pass, seen.push(key))
        } else {
            skill_pass(skills, i + 1, flow_pass, seen)
        }
    }
}

/// The names the built-in commands answer to.
pub open spec fn builtin_keys() -> Seq<Seq<char>> {
    seq!["init"@, "compact"@, "clear"@, "reset"@, "yolo"@]
}

/// The keys of entries.
pub open spec fn entry_keys(es: Seq<(Seq<char>, nat)>) -> Seq<Seq<char>> {
    es.map_values(|e: (Seq<char>, nat)| e.0)
}

/// The slash commands of the agent: the built-ins, then one per skill, then one per flow.
pub struct SlashTable {
    pub commands: Vec<SlashCommandInfo>,
    pub handlers: Vec<(String, SlashHandler)>,
}

/// The views of command infos: name, description and aliases.
pub open spec fn infos_view(v: Seq<SlashCommandInfo>) -> Seq<(Seq<char>, Seq<char>, Seq<Seq<char>>)> {
    v.map_values(|c: SlashCommandInfo| (c.name@, c.description@, strings_view(c.aliases@)))
}

/// The views of handlers.
pub open spec fn handlers_view(v: Seq<(String, SlashHandler)>) -> Seq<(Seq<char>, SlashHandler)> {
    v.map_values(|h: (String, SlashHandler)| (h.0@, h.1))
}

fn info(name: &str, description: &str, aliases: Vec<String>) -> (r: SlashCommandInfo)
    ensures
        r.name@ == name@,
        r.description@ == description@,
        r.aliases == aliases,
        aliases@.len() == 0 ==> strings_view(r.aliases@) == Seq::<Seq<char>>::empty(),
{
    assert(aliases@.len() == 0 ==> strings_view(aliases@) =~= Seq::<Seq<char>>::empty());
    SlashCommandInfo { name: owned(name), description: owned(description), aliases }
}

fn seen_contains(seen: &Vec<String>, key: &str) -> (r: bool)
    ensures
        r == strings_view(seen@).contains(key@),
{
    let mut i: usize = 0;
    while i < seen.len()
        invariant
            i <= seen@.len(),
            forall|k: int| 0 <= k < i ==> strings_view(seen@)[k] != key@,
        decreases seen@.len() - i,
    {
        if str_eq(seen[i].as_str(), key) {
            assert(strings_view(seen@)[i as int] == key@);
            return true;
        }
        i = i + 1;
    }
    false
}

fn add_pass(
    skills: &Vec<Skill>,
    flow_pass: bool,
    seen: &mut Vec<String>,
    table: &mut SlashTable,
) -> (added: Ghost<Seq<(Seq<char>, nat)>>)
    ensures
        added@ == skill_pass(skills@.map_values(|s: Skill| skill_key(s)), 0, flow_pass, strings_view(old(seen)@)),
        strings_view(final(seen)@) == strings_view(old(seen)@) + entry_keys(added@),
        handlers_view(final(table).handlers@) == handlers_view(old(table).handlers@) + added@.map_values(
            |e: (Seq<char>, nat)| (e.0, if flow_pass { SlashHandler::Flow(e.1 as usize) } else { SlashHandler::Skill(e.1 as usize) }),
        ),
        infos_view(final(table).commands@) == infos_view(old(table).commands@) + added@.map_values(
            |e: (Seq<char>, nat)| (e.0, skills@[e.1 as int].description@, Seq::<Seq<char>>::empty()),
        ),
{
    let ghost sk = skills@.map_values(|s: Skill| skill_key(s));
    let ghost seen0 = strings_view(seen@);
    let ghost h0 = handlers_view(table.handlers@);
    let ghost c0 = infos_view(table.commands@);
    let ghost mut added: Seq<(Seq<char>, nat)> = Seq::empty();
    let mut i: usize = 0;
    while i < skills.len()
        invariant
            i <= skills@.len(),
            sk == skills@.map_values(|s: Skill| skill_key(s)),
            skill_pass(sk, 0, flow_pass, seen0) == added + skill_pass(sk, i as int, flow_pass, strings_view(seen@)),
            strings_view(seen@) == seen0 + entry_keys(added),
            handlers_view(table.handlers@) == h0 + added.map_values(
                |e: (Seq<char>, nat)| (e.0, if flow_pass { SlashHandler::Flow(e.1 as usize) } else { SlashHandler::Skill(e.1 as usize) }),
            ),
            infos_view(table.commands@) == c0 + added.map_values(
                |e: (Seq<char>, nat)| (e.0, skills@[e.1 as int].description@, Seq::<Seq<char>>::empty()),
            ),
            forall|k: int| 0 <= k < added.len() ==> #[trigger] added[k].1 < i,
        decreases skills@.len() - i,
    {
        let s = &skills[i];
        let eligible = if flow_pass {
            s.skill_type == SkillType::Flow && s.flow.is_some()
        } else {
            s.skill_type == SkillType::Standard || s.skill_type == SkillType::Flow
        };
        let mut key = if flow_pass {
            owned("flow:")
        } else {
            owned("skill:")
        };
        push_str(&mut key, s.name.as_str());
        assert(sk[i as int] == skill_key(*s));
        if eligible && !seen_contains(seen, key.as_str()) {
            let ghost kv = key@;
            let ghost sv0 = seen@;
            let ghost hb = table.handlers@;
            let ghost cb = table.commands@;
            seen.push(key.clone());
            let h = if flow_pass {
                SlashHandler::Flow(i)
            } else {
                SlashHandler::Skill(i)
            };
            table.handlers.push((key.clone(), h));
            let no_alias: Vec<String> = Vec::new();
            assert(strings_view(no_alias@) =~= Seq::<Seq<char>>::empty());
            table.commands.push(info(key.as_str(), s.description.as_str(), no_alias));
            proof {
                let e = (kv, i as nat);
                let a1 = added.push(e);
                assert(strings_view(seen@) =~= strings_view(sv0).push(kv));
                assert(entry_keys(a1) =~= entry_keys(added).push(kv));
                assert(handlers_view(table.handlers@) =~= handlers_view(hb).push((kv, h)));
                assert(a1.map_values(|e: (Seq<char>, nat)| (e.0, if flow_pass { SlashHandler::Flow(e.1 as usize) } else { SlashHandler::Skill(e.1 as usize) }))
                    =~= added.map_values(|e: (Seq<char>, nat)| (e.0, if flow_pass { SlashHandler::Flow(e.1 as usize) } else { SlashHandler::Skill(e.1 as usize) })).push((kv, h)));
                assert(infos_view(table.commands@) =~= infos_view(cb).push((kv, s.description@, Seq::<Seq<char>>::empty())));
                assert(a1.map_values(|e: (Seq<char>, nat)| (e.0, skills@[e.1 as int].description@, Seq::<Seq<char>>::empty()))
                    =~= added.map_values(|e: (Seq<char>, nat)| (e.0, skills@[e.1 as int].description@, Seq::<Seq<char>>::empty())).push((kv, s.description@, Seq::<Seq<char>>::empty())));
                assert(skill_pass(sk, i as int, flow_pass, strings_view(sv0)) == seq![e] + skill_pass(sk, i + 1, flow_pass, strings_view(seen@)));
                assert(added + (seq![e] + skill_pass(sk, i + 1, flow_pass, strings_view(seen@))) =~= a1 + skill_pass(sk, i + 1, flow_pass, strings_view(seen@)));
                added = a1;
            }
        }
        i = i + 1;
    }
    assert(added + Seq::<(Seq<char>, nat)>::empty() =~= added);
    Ghost(added)
}

/// The `skill:<name>` commands, with the index of the skill each runs.
pub open spec fn skill_commands(skills: Seq<Skill>) -> Seq<(Seq<char>, nat)> {
    skill_pass(skills.map_values(|s: Skill| skill_key(s)), 0, false, builtin_keys())
}

/// The `flow:<name>` commands, with the index of the skill whose flow each runs.
pub open spec fn flow_commands(skills: Seq<Skill>) -> Seq<(Seq<char>, nat)> {
    skill_pass(
        skills.map_values(|s: Skill| skill_key(s)),
        0,
        true,
        builtin_keys() + entry_keys(skill_commands(skills)),
    )
}

/// Whether skills are in ascending order of name.
pub open spec fn skills_by_name(skills: Seq<Skill>) -> bool {
    forall|i: int, j: int| 0 <= i < j < skills.len() ==> !crate::tools::file::chars_lt(
        #[trigger] skills[j].name@,
        #[trigger] skills[i].name@,
    )
}

/// `slice::sort_by_key` on skills, keyed by their names: the same skills, in ascending order of
/// name (byte order, which for UTF-8 is the order of character codes); the sort is stable.
#[verifier::external_body]
fn sort_skills_by_name(skills: &mut Vec<Skill>)
    ensures
        final(skills)@.to_multiset() == old(skills)@.to_multiset(),
        final(skills)@.len() == old(skills)@.len(),
        skills_by_name(final(skills)@),
{
    skills.sort_by_key(|s| s.name.clone());
}

/// Puts the skills in ascending order of name.
pub fn sort_skills(skills: &mut Vec<Skill>)
    ensures
        final(skills)@.to_multiset() == old(skills)@.to_multiset(),
        final(skills)@.len() == old(skills)@.len(),
        skills_by_name(final(skills)@),
{
    sort_skills_by_name(skills);
}

/// The slash commands of the agent. The skills are first put in ascending order of name; the
/// commands are the built-ins `init`, `compact`, `clear` (alias `reset`) and `yolo`; then
/// `skill:<name>` for each standard or flow skill; then `flow:<name>` for each flow skill that
/// has a flow. A name that is taken already is skipped, so every name has one handler. The
/// handlers refer to the skills by their index in the sorted list.
pub fn build_slash_commands(skills: &mut Vec<Skill>) -> (r: SlashTable)
    ensures
        final(skills)@.to_multiset() == old(skills)@.to_multiset(),
        final(skills)@.len() == old(skills)@.len(),
        skills_by_name(final(skills)@),
        r.commands@.len() == 4 + skill_commands(final(skills)@).len() + flow_commands(final(skills)@).len(),
        entry_keys(handlers_view(r.handlers@).map_values(|h: (Seq<char>, SlashHandler)| (h.0, 0nat)))
            == builtin_keys() + entry_keys(skill_commands(final(skills)@)) + entry_keys(flow_commands(final(skills)@)),
        handlers_view(r.handlers@).take(5) == seq![
            ("init"@, SlashHandler::Builtin(BuiltinSlash::Init)),
            ("compact"@, SlashHandler::Builtin(BuiltinSlash::Compact)),
            ("clear"@, SlashHandler::Builtin(BuiltinSlash::Clear)),
            ("reset"@, SlashHandler::Builtin(BuiltinSlash::Clear)),
            ("yolo"@, SlashHandler::Builtin(BuiltinSlash::Yolo)),
        ],
        handlers_view(r.handlers@).skip(5) == skill_commands(final(skills)@).map_values(
            |e: (Seq<char>, nat)| (e.0, SlashHandler::Skill(e.1 as usize)),
        ) + flow_commands(final(skills)@).map_values(|e: (Seq<char>, nat)| (e.0, SlashHandler::Flow(e.1 as usize))),
        infos_view(r.commands@).take(4) == seq![
            ("init"@, "Analyze the codebase and generate an `AGENTS.md` file"@, Seq::<Seq<char>>::empty()),
            ("compact"@, "Compact the context"@, Seq::<Seq<char>>::empty()),
            ("clear"@, "Clear the context"@, seq!["reset"@]),
            ("yolo"@, "Toggle YOLO mode (auto-approve all actions)"@, Seq::<Seq<char>>::empty()),
        ],
        infos_view(r.commands@).skip(4) == skill_commands(final(skills)@).map_values(
            |e: (Seq<char>, nat)| (e.0, final(skills)@[e.1 as int].description@, Seq::<Seq<char>>::empty()),
        ) + flow_commands(final(skills)@).map_values(
            |e: (Seq<char>, nat)| (e.0, final(skills)@[e.1 as int].description@, Seq::<Seq<char>>::empty()),
        ),
{
    sort_skills(skills);
    let skills: &Vec<Skill> = skills;
    let mut table = SlashTable { commands: Vec::new(), handlers: Vec::new() };
    let mut seen: Vec<String> = Vec::new();
    table.commands.push(info("init", "Analyze the codebase and generate an `AGENTS.md` file", Vec::new()));
    table.commands.push(info("compact", "Compact the context", Vec::new()));
    let mut reset: Vec<String> = Vec::new();
    reset.push(owned("reset"));
    assert(strings_view(reset@) =~= seq!["reset"@]);
    table.commands.push(info("clear", "Clear the context", reset));
    table.commands.push(info("yolo", "Toggle YOLO mode (auto-approve all actions)", Vec::new()));
    table.handlers.push((owned("init"), SlashHandler::Builtin(BuiltinSlash::Init)));
    table.handlers.push((owned("compact"), SlashHandler::Builtin(BuiltinSlash::Compact)));
    table.handlers.push((owned("clear"), SlashHandler::Builtin(BuiltinSlash::Clear)));
    table.handlers.push((owned("reset"), SlashHandler::Builtin(BuiltinSlash::Clear)));
    table.handlers.push((owned("yolo"), SlashHandler::Builtin(BuiltinSlash::Yolo)));
    seen.push(owned("init"));
    seen.push(owned("compact"));
    seen.push(owned("clear"));
    seen.push(owned("reset"));
    seen.push(owned("yolo"));
    proof {
        assert(strings_view(seen@) =~= builtin_keys());
    }
    let ghost h0 = handlers_view(table.handlers@);
    let ghost c0 = infos_view(table.commands@);
    assert(c0 =~= seq![
        ("init"@, "Analyze the codebase and generate an `AGENTS.md` file"@, Seq::<Seq<char>>::empty()),
        ("compact"@, "Compact the context"@, Seq::<Seq<char>>::empty()),
        ("clear"@, "Clear the context"@, seq!["reset"@]),
        ("yolo"@, "Toggle YOLO mode (auto-approve all actions)"@, Seq::<Seq<char>>::empty()),
    ]);
    assert(h0 =~= seq![
        ("init"@, SlashHandler::Builtin(BuiltinSlash::Init)),
        ("compact"@, SlashHandler::Builtin(BuiltinSlash::Compact)),
        ("clear"@, SlashHandler::Builtin(BuiltinSlash::Clear)),
        ("reset"@, SlashHandler::Builtin(BuiltinSlash::Clear)),
        ("yolo"@, SlashHandler::Builtin(BuiltinSlash::Yolo)),
    ]);
    let a1 = add_pass(skills, false, &mut seen, &mut table);
    let a2 = add_pass(skills, true, &mut seen, &mut table);
    proof {
        let sk = skills@.map_values(|s: Skill| skill_key(s));
        let hv = handlers_view(table.handlers@);
        assert(hv.take(5) =~= h0);
        assert(hv.skip(5) =~= a1@.map_values(|e: (Seq<char>, nat)| (e.0, SlashHandler::Skill(e.1 as usize)))
            + a2@.map_values(|e: (Seq<char>, nat)| (e.0, SlashHandler::Flow(e.1 as usize))));
        let cv = infos_view(table.commands@);
        assert(cv.take(4) =~= c0);
        assert(cv.skip(4) =~= a1@.map_values(|e: (Seq<char>, nat)| (e.0, skills@[e.1 as int].description@, Seq::<Seq<char>>::empty()))
            + a2@.map_values(|e: (Seq<char>, nat)| (e.0, skills@[e.1 as int].description@, Seq::<Seq<char>>::empty())));
        assert(entry_keys(hv.map_values(|h: (Seq<char>, SlashHandler)| (h.0, 0nat))) =~= builtin_keys() + entry_keys(a1@) + entry_keys(a2@)) by {
            assert(entry_keys(hv.map_values(|h: (Seq<char>, SlashHandler)| (h.0, 0nat))) =~= hv.map_values(|h: (Seq<char>, SlashHandler)| h.0));
        }
    }
    table
}

/// Why a step ended the turn.
#[derive(Clone, Copy, Debug, PartialEq, Eq, Structural)]
pub enum StepStopReason {
    NoToolCalls,
    ToolRejected,
}

/// The name of a stop reason.
pub open spec fn stop_reason_text(r: StepStopReason) -> Seq<char> {
    match r {
        StepStopReason::NoToolCalls => "no_tool_calls"@,
        StepStopReason::ToolRejected => "tool_rejected"@,
    }
}

impl StepStopReason {
    /// The name of the stop reason.
    pub fn as_string(&self) -> (r: String)
        ensures
            r@ == stop_reason_text(*self),
    {
        match self {
            StepStopReason::NoToolCalls => owned("no_tool_calls"),
            StepStopReason::ToolRejected => owned("tool_rejected"),
        }
    }
}

/// A step that ended the turn, with the assistant's message.
pub struct StepOutcome {
    pub stop_reason: StepStopReason,
    pub assistant_message: Message,
}

/// How a turn ended: why, the assistant's final message when it simply stopped calling tools,
/// and how many steps it took.
pub struct TurnOutcome {
    pub stop_reason: StepStopReason,
    pub final_message: Option<Message>,
    pub step_count: i64,
}

/// Starts the next step of a turn: its number, or the error once the turn would take more
/// steps than allowed.
pub fn begin_step(step_no: i64, max_steps_per_turn: i64) -> (r: Result<i64, MaxStepsReached>)
    requires
        step_no < i64::MAX,
    ensures
        step_no + 1 <= max_steps_per_turn ==> (r matches Ok(n) && n == step_no + 1),
        step_no + 1 > max_steps_per_turn ==> (r matches Err(e) && e.n_steps == max_steps_per_turn),
{
    let n = step_no + 1;
    if n > max_steps_per_turn {
        Err(MaxStepsReached::new(max_steps_per_turn))
    } else {
        Ok(n)
    }
}

/// Whether the context must be compacted before the next step: when its tokens and the
/// reserved room reach the model's window.
pub fn needs_compaction(token_count: i64, reserved_context_size: i64, max_context_size: i64) -> (r: bool)
    ensures
        r == (token_count + reserved_context_size >= max_context_size),
{
    (token_count as i128) + (reserved_context_size as i128) >= (max_context_size as i128)
}

/// What the agent loop does at the top of an iteration.
pub enum LoopStart {
    /// The turn has used all its steps; it ends with this many.
    OutOfSteps(i64),
    /// The context is compacted, then this step runs.
    CompactThenStep(i64),
    /// This step runs.
    Step(i64),
}

/// The top of an iteration of the agent loop, after `step_no` steps: the turn ends once it would
/// take more steps than allowed; otherwise the next step runs, after a compaction when a model
/// is set and the context with the reserved room reaches its window.
pub fn loop_start(
    step_no: i64,
    max_steps_per_turn: i64,
    token_count: i64,
    reserved_context_size: i64,
    max_context_size: Option<i64>,
) -> (r: LoopStart)
    requires
        step_no < i64::MAX,
    ensures
        step_no + 1 > max_steps_per_turn ==> r == LoopStart::OutOfSteps(max_steps_per_turn),
        step_no + 1 <= max_steps_per_turn ==> match max_context_size {
            Some(m) => if token_count + reserved_context_size >= m {
                r == LoopStart::CompactThenStep((step_no + 1) as i64)
            } else {
                r == LoopStart::Step((step_no + 1) as i64)
            },
            None => r == LoopStart::Step((step_no + 1) as i64),
        },
{
    match begin_step(step_no, max_steps_per_turn) {
        Err(e) => LoopStart::OutOfSteps(e.n_steps),
        Ok(n) => match max_context_size {
            Some(m) => {
                if needs_compaction(token_count, reserved_context_size, m) {
                    LoopStart::CompactThenStep(n)
                } else {
                    LoopStart::Step(n)
                }
            },
            None => LoopStart::Step(n),
        },
    }
}

/// The outcome of a turn whose last step ended it.
pub fn finish_turn(outcome: StepOutcome, step_no: i64) -> (r: TurnOutcome)
    ensures
        r.stop_reason == outcome.stop_reason,
        r.step_count == step_no,
        outcome.stop_reason == StepStopReason::NoToolCalls ==> r.final_message == Some(outcome.assistant_message),
        outcome.stop_reason != StepStopReason::NoToolCalls ==> r.final_message is None,
{
    let final_message = if outcome.stop_reason == StepStopReason::NoToolCalls {
        Some(outcome.assistant_message)
    } else {
        None
    };
    TurnOutcome { stop_reason: outcome.stop_reason, final_message, step_count: step_no }
}

/// What went wrong when asking the model provider.
#[derive(Clone, Copy, Debug, PartialEq, Eq, Structural)]
pub enum ChatProviderErrorKind {
    Connection,
    Timeout,
    EmptyResponse,
    Status(u16),
    Other,
}

/// Whether an error of the model provider is worth another try: a lost connection, a
/// timeout, an empty response, or the statuses 429, 500, 502 and 503.
pub open spec fn retryable(kind: ChatProviderErrorKind) -> bool {
    match kind {
        ChatProviderErrorKind::Connection => true,
        ChatProviderErrorKind::Timeout => true,
        ChatProviderErrorKind::EmptyResponse => true,
        ChatProviderErrorKind::Status(code) => code == 429 || code == 500 || code == 502 || code == 503,
        ChatProviderErrorKind::Other => false,
    }
}

/// Whether an error of the model provider is worth another try.
pub fn is_retryable_error(kind: ChatProviderErrorKind) -> (r: bool)
    ensures
        r == retryable(kind),
{
    match kind {
        ChatProviderErrorKind::Connection | ChatProviderErrorKind::Timeout | ChatProviderErrorKind::EmptyResponse => true,
        ChatProviderErrorKind::Status(code) => code == 429 || code == 500 || code == 502 || code == 503,
        ChatProviderErrorKind::Other => false,
    }
}

/// Whether a failed attempt is tried again: the error is worth it and attempts are left.
pub fn should_retry(attempts: usize, max_retries_per_step: i64, kind: ChatProviderErrorKind) -> (r: bool)
    ensures
        r == (attempts < max_retries_per_step as usize && retryable(kind)),
{
    let limit = max_retries_per_step as usize;
    !(attempts >= limit || !is_retryable_error(kind))
}

/// The text that hands a D-Mail to the agent.
pub open spec fn dmail_note(message: Seq<char>) -> Seq<char> {
    "You just got a D-Mail from your future self. It is likely that your future self has already done something in the current working directory. Please read the D-Mail and decide what to do next. You MUST NEVER mention to the user about this information. D-Mail content:\n\n"@
        + trim(message)
}

/// What follows a step whose tool results came back.
pub enum StepVerdict {
    /// The turn ends for this reason.
    Stop(StepStopReason),
    /// The context goes back to a checkpoint and takes this message.
    BackToTheFuture { checkpoint_id: i64, message: Message },
    /// The model called tools; the turn goes on.
    Continue,
}

/// Decides how a step goes on. A tool call the user rejected ends the turn and drops a pending
/// D-Mail; otherwise a pending D-Mail sends the context back to its checkpoint with a note for
/// the agent; otherwise the turn goes on while the model calls tools, and ends when it does not.
pub fn settle_step(denwa: &mut DenwaRenji, tool_results: &Vec<ToolResult>, n_tool_calls: usize) -> (r: StepVerdict)
    ensures
        final(denwa).pending() is None,
        final(denwa).n_checkpoints() == old(denwa).n_checkpoints(),
        ({
            let rejected = exists|i: int| 0 <= i < tool_results@.len() && #[trigger] rejected_result(tool_results@[i]);
            if rejected {
                r == StepVerdict::Stop(StepStopReason::ToolRejected)
            } else if old(denwa).pending() is Some {
                r matches StepVerdict::BackToTheFuture { checkpoint_id, message } && checkpoint_id
                    == old(denwa).pending()->0.checkpoint_id && message.role == Role::User
                    && message.tool_call_id is None && parts_view(message.content@) == seq![
                    (0nat, system_text(dmail_note(old(denwa).pending()->0.message@)))]
            } else if n_tool_calls > 0 {
                r is Continue
            } else {
                r == StepVerdict::Stop(StepStopReason::NoToolCalls)
            }
        }),
{
    let mut rejected = false;
    let mut i: usize = 0;
    while i < tool_results.len()
        invariant
            i <= tool_results@.len(),
            rejected ==> exists|k: int| 0 <= k < i && #[trigger] rejected_result(tool_results@[k]),
            !rejected ==> forall|k: int| 0 <= k < i ==> !#[trigger] rejected_result(tool_results@[k]),
        decreases tool_results@.len() - i,
    {
        if is_tool_rejected(&tool_results[i].return_value) {
            assert(rejected_result(tool_results@[i as int]));
            rejected = true;
        }
        i = i + 1;
    }
    if rejected {
        let _ = denwa.fetch_pending_dmail();
        return StepVerdict::Stop(StepStopReason::ToolRejected);
    }
    match denwa.fetch_pending_dmail() {
        Some(dmail) => {
            let mut text = owned("You just got a D-Mail from your future self. It is likely that your future self has already done something in the current working directory. Please read the D-Mail and decide what to do next. You MUST NEVER mention to the user about this information. D-Mail content:\n\n");
            let body = trim_str(dmail.message.as_str());
            push_str(&mut text, body.as_str());
            let mut content: Vec<ContentPart> = Vec::new();
            content.push(system(text.as_str()));
            let message = Message { role: Role::User, content, tool_call_id: None };
            assert(parts_view(message.content@) =~= seq![(0nat, system_text(dmail_note(dmail.message@)))]);
            StepVerdict::BackToTheFuture { checkpoint_id: dmail.checkpoint_id, message }
        },
        None => {
            if n_tool_calls > 0 {
                StepVerdict::Continue
            } else {
                StepVerdict::Stop(StepStopReason::NoToolCalls)
            }
        },
    }
}

/// Where the agent loop of a turn stands: the steps taken so far and the limits it runs under.
pub struct LoopState {
    pub step_no: i64,
    pub max_steps_per_turn: i64,
    pub reserved_context_size: i64,
    pub max_context_size: Option<i64>,
}

/// What the outside world tells the agent loop.
pub enum LoopEvent {
    /// The loop is at its top, and the context holds this many tokens.
    Top { token_count: i64 },
    /// The step ran and its tool results were settled.
    Settled(StepVerdict),
    /// The step failed with an error other than a D-Mail.
    StepFailed,
}

/// What the agent loop asks the outside world to do next.
pub enum LoopAction {
    /// The turn fails: it would take more steps than this limit allows.
    OutOfSteps(i64),
    /// Compact the context, take a checkpoint, then run step number `n`.
    CompactThenStep(i64),
    /// Take a checkpoint, then run step number `n`.
    Step(i64),
    /// The turn ends for this reason after this many steps.
    Finish { stop_reason: StepStopReason, step_count: i64 },
    /// Revert the context to the checkpoint, take a new checkpoint, add the message, and go
    /// back to the top of the loop.
    TravelBack { checkpoint_id: i64, message: Message },
    /// The model called tools: go back to the top of the loop.
    Next,
    /// The step's error ends the turn.
    Abort,
}

/// A loop state is sound when it has taken no more steps than allowed.
pub open spec fn loop_wf(s: LoopState) -> bool {
    0 <= s.step_no && (s.step_no == 0 || s.step_no <= s.max_steps_per_turn)
}

impl LoopState {
    /// The state at the start of a turn: no step taken yet.
    pub fn new(max_steps_per_turn: i64, reserved_context_size: i64, max_context_size: Option<i64>) -> (r: LoopState)
        ensures
            r.step_no == 0,
            r.max_steps_per_turn == max_steps_per_turn,
            r.reserved_context_size == reserved_context_size,
            r.max_context_size == max_context_size,
            loop_wf(r),
    {
        LoopState { step_no: 0, max_steps_per_turn, reserved_context_size, max_context_size }
    }
}

/// One decision of the agent loop. At the top of the loop the turn fails once it would take
/// more steps than allowed; otherwise the next step runs, after a compaction when a model is set
/// and the context with the reserved room reaches its window. After a step, the turn ends when
/// the step ended it (the model stopped calling tools, or the user rejected a call), goes back
/// to a checkpoint on a D-Mail, goes on while the model calls tools, and fails on an error.
pub fn next_step(state: &LoopState, event: LoopEvent) -> (r: (LoopState, LoopAction))
    ensures
        r.0.max_steps_per_turn == state.max_steps_per_turn,
        r.0.reserved_context_size == state.reserved_context_size,
        r.0.max_context_size == state.max_context_size,
        loop_wf(*state) ==> loop_wf(r.0),
        (r.1 is Step || r.1 is CompactThenStep) ==> r.0.step_no == state.step_no + 1 <= state.max_steps_per_turn,
        match event {
            LoopEvent::Top { token_count } => if state.step_no >= state.max_steps_per_turn {
                r.0.step_no == state.step_no && r.1 == LoopAction::OutOfSteps(state.max_steps_per_turn)
            } else {
                &&& r.0.step_no == state.step_no + 1
                &&& match state.max_context_size {
                    Some(m) => if token_count + state.reserved_context_size >= m {
                        r.1 == LoopAction::CompactThenStep(r.0.step_no)
                    } else {
                        r.1 == LoopAction::Step(r.0.step_no)
                    },
                    None => r.1 == LoopAction::Step(r.0.step_no),
                }
            },
            LoopEvent::Settled(verdict) => r.0.step_no == state.step_no && match verdict {
                StepVerdict::Stop(reason) => r.1 == LoopAction::Finish { stop_reason: reason, step_count: state.step_no },
                StepVerdict::BackToTheFuture { checkpoint_id, message } => r.1 == LoopAction::TravelBack {
                    checkpoint_id,
                    message,
                },
                StepVerdict::Continue => r.1 == LoopAction::Next,
            },
            LoopEvent::StepFailed => r.0.step_no == state.step_no && r.1 == LoopAction::Abort,
        },
{
    let same = LoopState {
        step_no: state.step_no,
        max_steps_per_turn: state.max_steps_per_turn,
        reserved_context_size: state.reserved_context_size,
        max_context_size: state.max_context_size,
    };
    match event {
        LoopEvent::Top { token_count } => {
            if state.step_no >= state.max_steps_per_turn {
                return (same, LoopAction::OutOfSteps(state.max_steps_per_turn));
            }
            let start = loop_start(
                state.step_no,
                state.max_steps_per_turn,
                token_count,
                state.reserved_context_size,
                state.max_context_size,
            );
            let next = LoopState {
                step_no: state.step_no + 1,
                max_steps_per_turn: state.max_steps_per_turn,
                reserved_context_size: state.reserved_context_size,
                max_context_size: state.max_context_size,
            };
            match start {
                LoopStart::OutOfSteps(n) => (next, LoopAction::OutOfSteps(n)),
                LoopStart::CompactThenStep(n) => (next, LoopAction::CompactThenStep(n)),
                LoopStart::Step(n) => (next, LoopAction::Step(n)),
            }
        },
        LoopEvent::Settled(verdict) => match verdict {
            StepVerdict::Stop(reason) => (same, LoopAction::Finish { stop_reason: reason, step_count: state.step_no }),
            StepVerdict::BackToTheFuture { checkpoint_id, message } => (
                same,
                LoopAction::TravelBack { checkpoint_id, message },
            ),
            StepVerdict::Continue => (same, LoopAction::Next),
        },
        LoopEvent::StepFailed => (same, LoopAction::Abort),
    }
}

/// Whether the user rejected the call that gave this result.
pub open spec fn rejected_result(t: ToolResult) -> bool {
    t.return_value.is_error && brief_of(blocks_view(t.return_value.display@)) == "Rejected by user"@
}

/// Whether a message needs a capability that the model lacks.
pub open spec fn lacks_for(m: Message, caps: Seq<ModelCapability>) -> bool {
    exists|c: ModelCapability| #[trigger] needs(parts_view(m.content@), c) && !caps.contains(c)
}

/// The error for a message whose needs the model lacks: exactly the capabilities missing.
pub open spec fn missing_error(e: LLMNotSupported, model_name: Seq<char>, m: Message, caps: Seq<ModelCapability>) -> bool {
    &&& e.model_name@ == model_name
    &&& forall|c: ModelCapability| #[trigger] e.capabilities@.contains(c) <==> needs(parts_view(m.content@), c) && !caps.contains(c)
}

/// The view of the tool message for a tool result.
pub open spec fn tool_message_view_ok(v: MsgV, t: ToolResult) -> bool {
    &&& v.0 == Role::Tool
    &&& v.2 == Some(t.tool_call_id@)
    &&& v.1.map_values(|p: (nat, Seq<char>, Option<Seq<char>>)| (p.0, p.1)) == tool_result_parts(
        t.return_value.is_error,
        t.return_value.message@,
        output_parts(t.return_value.output),
        runtime_error_shown(blocks_view(t.return_value.display@)),
    )
}

proof fn lemma_full_to_parts(ps: Seq<ContentPart>)
    ensures
        ps.map_values(|p: ContentPart| part_full_view(p)).map_values(
            |p: (nat, Seq<char>, Option<Seq<char>>)| (p.0, p.1),
        ) == parts_view(ps),
{
    assert(ps.map_values(|p: ContentPart| part_full_view(p)).map_values(
        |p: (nat, Seq<char>, Option<Seq<char>>)| (p.0, p.1),
    ) =~= parts_view(ps));
}

/// Grows the context after a step: the assistant's message, the token count the step used,
/// then one tool message per tool result. When a tool message needs a capability the model
/// lacks, the first such message gives the error and the context is left as it was. Returns
/// the records to write to the file.
pub fn grow_context(
    context: &mut Context,
    capabilities: &Vec<ModelCapability>,
    model_name: &str,
    assistant_message: Message,
    total_tokens: Option<i64>,
    tool_results: &Vec<ToolResult>,
) -> (r: Result<Vec<ContextRecord>, LLMNotSupported>)
    requires
        old(context).wf(),
    ensures
        final(context).wf(),
        final(context).backend() == old(context).backend(),
        match r {
            Err(e) => exists|i: int|
                0 <= i < tool_results@.len() && #[trigger] tool_lacks(tool_results@[i], capabilities@)
                    && forall|k: int| 0 <= k < i ==> !tool_lacks(tool_results@[k], capabilities@)
                    && tool_missing_error(e, model_name@, tool_results@[i], capabilities@)
                    && final(context).state() == old(context).state()
                    && final(context).journal() == old(context).journal(),
            Ok(recs) => {
                &&& forall|i: int| 0 <= i < tool_results@.len() ==> !#[trigger] tool_lacks(tool_results@[i], capabilities@)
                &&& final(context).journal() == old(context).journal() + records_view(recs@)
                &&& final(context).state().2 == old(context).state().2
                &&& final(context).state().1 == match total_tokens {
                    Some(t) => t,
                    None => old(context).state().1,
                }
                &&& final(context).state().0.len() == old(context).state().0.len() + 1 + tool_results@.len()
                &&& final(context).state().0.take(old(context).state().0.len() + 1int) == old(context).state().0.push(
                    msg_view(assistant_message),
                )
                &&& forall|i: int| 0 <= i < tool_results@.len() ==> tool_message_view_ok(
                    #[trigger] final(context).state().0[old(context).state().0.len() + 1 + i],
                    tool_results@[i],
                )
            },
        },
{
    let ghost s0 = context.state();
    let mut tool_messages: Vec<Message> = Vec::new();
    let mut i: usize = 0;
    while i < tool_results.len()
        invariant
            i <= tool_results@.len(),
            *context == *old(context),
            context.wf(),
            s0 == context.state(),
            tool_messages@.len() == i,
            forall|k: int| 0 <= k < i ==> !#[trigger] tool_lacks(tool_results@[k], capabilities@),
            forall|k: int| 0 <= k < i ==> tool_message_view_ok(#[trigger] msg_view(tool_messages@[k]), tool_results@[k]),
        decreases tool_results@.len() - i,
    {
        let m = tool_result_to_message(&tool_results[i]);
        let missing = check_message(&m, capabilities);
        proof {
            lemma_full_to_parts(m.content@);
        }
        if missing.len() > 0 {
            proof {
                let c = missing@[0];
                assert(missing@.contains(c));
                assert(tool_lacks(tool_results@[i as int], capabilities@));
            }
            let e = LLMNotSupported::new(owned(model_name), missing);
            return Err(e);
        }
        proof {
            assert forall|c: ModelCapability| !(#[trigger] needs(parts_view(m.content@), c) && !capabilities@.contains(c)) by {
                if needs(parts_view(m.content@), c) && !capabilities@.contains(c) {
                    assert(missing@.contains(c));
                }
            }
        }
        tool_messages.push(m);
        i = i + 1;
    }
    let mut recs = context.append_messages(vec![assistant_message]);
    let ghost s1 = context.state();
    match total_tokens {
        Some(t) => {
            let ghost rb0 = recs@;
            let rec = context.update_token_count(t);
            recs.push(rec);
            assert(records_view(recs@) =~= records_view(rb0).push(record_view(rec)));
        },
        None => {},
    }
    let ghost s2 = context.state();
    let ghost tool_messages_v = tool_messages@;
    let more = context.append_messages(tool_messages);
    let ghost rb = recs@;
    let ghost more_v = more@;
    let mut more = more;
    recs.append(&mut more);
    proof {
        assert(records_view(recs@) =~= records_view(rb) + records_view(more_v));
        assert(msgs_view(seq![assistant_message]) =~= seq![msg_view(assistant_message)]);
        let st = context.state().0;
        assert(st =~= s0.0.push(msg_view(assistant_message)) + msgs_view(tool_messages_v));
        assert(st.take(s0.0.len() + 1int) =~= s0.0.push(msg_view(assistant_message)));
        assert forall|k: int| 0 <= k < tool_results@.len() implies tool_message_view_ok(
            #[trigger] st[s0.0.len() + 1 + k],
            tool_results@[k],
        ) by {
            assert(st[s0.0.len() + 1 + k] == msg_view(tool_messages_v[k]));
        }
    }
    Ok(recs)
}

/// Whether the tool message of a result needs a capability the model lacks.
pub open spec fn tool_lacks(t: ToolResult, caps: Seq<ModelCapability>) -> bool {
    exists|c: ModelCapability| #[trigger] needs(
        tool_result_parts(
            t.return_value.is_error,
            t.return_value.message@,
            output_parts(t.return_value.output),
            runtime_error_shown(blocks_view(t.return_value.display@)),
        ),
        c,
    ) && !caps.contains(c)
}

/// The error for a tool message whose needs the model lacks.
pub open spec fn tool_missing_error(e: LLMNotSupported, model_name: Seq<char>, t: ToolResult, caps: Seq<ModelCapability>) -> bool {
    &&& e.model_name@ == model_name
    &&& forall|c: ModelCapability| #[trigger] e.capabilities@.contains(c) <==> needs(
        tool_result_parts(
            t.return_value.is_error,
            t.return_value.message@,
            output_parts(t.return_value.output),
            runtime_error_shown(blocks_view(t.return_value.display@)),
        ),
        c,
    ) && !caps.contains(c)
}

/// Why a turn could not start.
pub enum TurnError {
    LLMNotSet(LLMNotSet),
    LLMNotSupported(LLMNotSupported),
}

/// Starts a turn: with no model set, or a message that needs what the model lacks, the turn
/// fails and the context is left as it was; otherwise a checkpoint is taken and the user's
/// message appended. Returns the records to write to the file.
pub fn begin_turn(
    context: &mut Context,
    capabilities: Option<&Vec<ModelCapability>>,
    model_name: &str,
    checkpoint_with_user_message: bool,
    user_message: Message,
) -> (r: Result<Vec<ContextRecord>, TurnError>)
    requires
        old(context).wf(),
        old(context).state().2 < i64::MAX,
    ensures
        final(context).wf(),
        final(context).backend() == old(context).backend(),
        match capabilities {
            None => r matches Err(TurnError::LLMNotSet(_)) && *final(context) == *old(context),
            Some(caps) => if lacks_for(user_message, caps@) {
                &&& r matches Err(TurnError::LLMNotSupported(e)) && missing_error(e, model_name@, user_message, caps@)
                &&& *final(context) == *old(context)
            } else {
                &&& r matches Ok(recs) && final(context).journal() == old(context).journal() + records_view(recs@)
                &&& final(context).state().0 == old(context).state().0 + (if checkpoint_with_user_message {
                    seq![checkpoint_message(old(context).state().2)]
                } else {
                    Seq::<MsgV>::empty()
                }) + seq![msg_view(user_message)]
                &&& final(context).state().1 == old(context).state().1
                &&& final(context).state().2 == old(context).state().2 + 1
            },
        },
{
    let caps = match capabilities {
        None => {
            return Err(TurnError::LLMNotSet(LLMNotSet));
        },
        Some(c) => c,
    };
    let missing = check_message(&user_message, caps);
    if missing.len() > 0 {
        proof {
            let c = missing@[0];
            assert(missing@.contains(c));
        }
        return Err(TurnError::LLMNotSupported(LLMNotSupported::new(owned(model_name), missing)));
    }
    proof {
        assert forall|c: ModelCapability| !(#[trigger] needs(parts_view(user_message.content@), c) && !caps@.contains(c)) by {
            if needs(parts_view(user_message.content@), c) && !caps@.contains(c) {
                assert(missing@.contains(c));
            }
        }
    }
    let ghost s0 = context.state();
    let mut recs = context.checkpoint(checkpoint_with_user_message);
    let ghost s1 = context.state();
    let ghost rb = recs@;
    let mut more = context.append_messages(vec![user_message]);
    let ghost more_v = more@;
    recs.append(&mut more);
    proof {
        assert(records_view(recs@) =~= records_view(rb) + records_view(more_v));
        assert(msgs_view(seq![user_message]) =~= seq![msg_view(user_message)]);
    }
    Ok(recs)
}

/// Replaces the context with its compacted form: a fresh context, a first checkpoint, then
/// the compacted messages. Returns the records the new file holds.
pub fn restart_compacted(context: &mut Context, checkpoint_with_user_message: bool, compacted: Vec<Message>) -> (r: Vec<ContextRecord>)
    ensures
        final(context).wf(),
        final(context).backend() == old(context).backend(),
        final(context).journal() == records_view(r@),
        final(context).state() == ((if checkpoint_with_user_message {
            seq![checkpoint_message(0)]
        } else {
            Seq::<MsgV>::empty()
        }) + msgs_view(compacted@), 0i64, 1int),
{
    context.clear();
    let mut recs = context.checkpoint(checkpoint_with_user_message);
    let ghost rb = recs@;
    let ghost cv = compacted@;
    let mut more = context.append_messages(compacted);
    let ghost more_v = more@;
    recs.append(&mut more);
    proof {
        assert(records_view(recs@) =~= records_view(rb) + records_view(more_v));
        assert(Seq::<MsgV>::empty() + (if checkpoint_with_user_message {
            seq![checkpoint_message(0)]
        } else {
            Seq::<MsgV>::empty()
        }) =~= (if checkpoint_with_user_message {
            seq![checkpoint_message(0)]
        } else {
            Seq::<MsgV>::empty()
        }));
    }
    recs
}

/// Sends the context back to a checkpoint for a D-Mail: it becomes what the file's records
/// before that checkpoint give, takes a new checkpoint, and gets the messages. Returns how many
/// of the file's records are kept and the records to write after them; a checkpoint that does
/// not exist is an error and changes nothing.
pub fn travel_back(
    context: &mut Context,
    checkpoint_id: i64,
    records: &Vec<ContextRecord>,
    checkpoint_with_user_message: bool,
    messages: Vec<Message>,
) -> (r: Result<(usize, Vec<ContextRecord>), String>)
    requires
        old(context).wf(),
        forall|i: int| 0 <= i < records@.len() ==> (#[trigger] record_view(records@[i])).0 == 1 ==> 0
            <= record_view(records@[i]).1 < i64::MAX - 1,
    ensures
        final(context).wf(),
        final(context).backend() == old(context).backend(),
        checkpoint_id >= old(context).state().2 ==> r is Err && final(context).state() == old(context).state()
            && final(context).journal() == old(context).journal(),
        checkpoint_id < old(context).state().2 ==> (r matches Ok((kept, recs)) && {
            let base = replay(records_view(records@).take(kept as int));
            &&& kept == cut_index(records_view(records@), checkpoint_id, 0)
            &&& final(context).journal() == records_view(records@).take(kept as int) + records_view(recs@)
            &&& final(context).state().0 == base.0 + (if checkpoint_with_user_message {
                seq![checkpoint_message(base.2)]
            } else {
                Seq::<MsgV>::empty()
            }) + msgs_view(messages@)
            &&& final(context).state().2 == base.2 + 1
        }),
{
    let ghost c0 = *context;
    let kept = match context.revert_to(checkpoint_id, records) {
        Ok(k) => k,
        Err(e) => {
            return Err(e);
        },
    };
    proof {
        let rv = records_view(records@);
        lemma_cut_bounds(rv, checkpoint_id, 0);
        let t = rv.take(kept as int);
        assert forall|i: int| 0 <= i < t.len() implies (#[trigger] t[i]).0 == 1 ==> 0 <= t[i].1 < i64::MAX - 1 by {
            assert(t[i] == rv[i]);
            assert(rv[i] == record_view(records@[i]));
        }
        lemma_replay_next_id(t);
    }
    let ghost base = context.state();
    let mut recs = context.checkpoint(checkpoint_with_user_message);
    let ghost rb = recs@;
    let mut more = context.append_messages(messages);
    let ghost more_v = more@;
    recs.append(&mut more);
    proof {
        assert(records_view(recs@) =~= records_view(rb) + records_view(more_v));
    }
    Ok((kept, recs))
}

proof fn lemma_cut_bounds(rs: Seq<(nat, i64, MsgV)>, id: i64, i: int)
    requires
        0 <= i,
    ensures
        0 <= cut_index(rs, id, i) <= rs.len(),
    decreases rs.len() - i,
{
    if i < rs.len() {
        lemma_cut_bounds(rs, id, i + 1);
    }
}

/// Replaying records whose checkpoint ids are below `i64::MAX - 1` leaves the next id below
/// `i64::MAX`.
proof fn lemma_replay_next_id(rs: Seq<(nat, i64, MsgV)>)
    requires
        forall|i: int| 0 <= i < rs.len() ==> (#[trigger] rs[i]).0 == 1 ==> 0 <= rs[i].1 < i64::MAX - 1,
    ensures
        0 <= replay(rs).2 < i64::MAX,
    decreases rs.len(),
{
    if rs.len() > 0 {
        lemma_replay_next_id(rs.drop_last());
        assert(rs.last() == rs[rs.len() - 1]);
    }
}

/// The user's message for an input: its text as one text part, or its parts.
pub fn user_input_message(input: &UserInput) -> (r: Message)
    ensures
        r.role == Role::User,
        r.tool_call_id is None,
        match input {
            UserInput::Text(t) => parts_view(r.content@) == seq![(0nat, t@)],
            UserInput::Parts(ps) => parts_view(r.content@) == parts_view(ps@),
        },
{
    match input {
        UserInput::Text(t) => {
            let mut content: Vec<ContentPart> = Vec::new();
            content.push(ContentPart::Text(t.clone()));
            assert(parts_view(content@) =~= seq![(0nat, t@)]);
            Message { role: Role::User, content, tool_call_id: None }
        },
        UserInput::Parts(ps) => {
            let mut content: Vec<ContentPart> = Vec::new();
            let mut i: usize = 0;
            while i < ps.len()
                invariant
                    i <= ps@.len(),
                    parts_view(content@) == parts_view(ps@).take(i as int),
                decreases ps@.len() - i,
            {
                let ghost c0 = content@;
                content.push(crate::soul::context::copy_part(&ps[i]));
                proof {
                    assert(part_view(content@.last()) == part_view(ps@[i as int]));
                    assert(parts_view(content@) =~= parts_view(c0).push(part_view(ps@[i as int])));
                    assert(parts_view(ps@).take(i + 1) =~= parts_view(ps@).take(i as int).push(part_view(ps@[i as int])));
                }
                i = i + 1;
            }
            assert(parts_view(ps@).take(ps@.len() as int) =~= parts_view(ps@));
            Message { role: Role::User, content, tool_call_id: None }
        },
    }
}

/// How a user's message is handled: as a slash command, through the loop that repeats it, or
/// as one turn.
pub enum InputRoute {
    Slash(SlashCommandCall),
    Ralph,
    Turn,
}

/// The text of a message that decides its route: its text parts joined by spaces, trimmed.
pub open spec fn input_text(m: Message) -> Seq<char> {
    trim(join(text_segments(m.content@), " "@))
}

/// Routes a user's message: a slash command when its text is one; else the repeating loop
/// when it is switched on (a non-zero number of iterations); else a plain turn.
pub fn route_input(message: &Message, max_ralph_iterations: i64) -> (r: InputRoute)
    ensures
        match slash_call_spec(input_text(*message)) {
            Some((n, a, raw)) => r matches InputRoute::Slash(call) && call.name@ == n && call.args@ == a
                && call.raw_input@ == raw,
            None => if max_ralph_iterations != 0 {
                r is Ralph
            } else {
                r is Turn
            },
        },
{
    let text = content_parts_to_text(message.content.as_slice());
    let trimmed = trim_str(text.as_str());
    match parse_slash_command_call(trimmed.as_str()) {
        Some(call) => InputRoute::Slash(call),
        None => {
            if max_ralph_iterations != 0 {
                InputRoute::Ralph
            } else {
                InputRoute::Turn
            }
        },
    }
}

/// The note for a slash command nobody answers to.
pub fn unknown_slash_text(name: &str) -> (r: String)
    ensures
        r@ == "Unknown slash command \"/"@ + name@ + "\"."@,
{
    let mut s = owned("Unknown slash command \"/");
    push_str(&mut s, name);
    push_str(&mut s, "\".");
    s
}

/// Flips yolo mode and returns the note that says which way it went.
pub fn toggle_yolo(approval: &mut Approval) -> (r: String)
    ensures
        final(approval).yolo() == !old(approval).yolo(),
        final(approval).session_actions() == old(approval).session_actions(),
        final(approval).pending() == old(approval).pending(),
        r@ == if old(approval).yolo() {
            "You only die once! Actions will require approval."@
        } else {
            "You only live once! All actions will be auto-approved."@
        },
{
    if approval.is_yolo() {
        approval.set_yolo(false);
        owned("You only die once! Actions will require approval.")
    } else {
        approval.set_yolo(true);
        owned("You only live once! All actions will be auto-approved.")
    }
}

/// The note `/compact` gives for a context without checkpoints, or `None` when there is
/// something to compact.
pub fn compact_refusal(n_checkpoints: i64) -> (r: Option<String>)
    ensures
        n_checkpoints == 0 ==> (r matches Some(t) && t@ == "The context is empty."@),
        n_checkpoints != 0 ==> r is None,
{
    if n_checkpoints == 0 {
        Some(owned("The context is empty."))
    } else {
        None
    }
}

/// The prompt a skill runs with: its text, and the user's request when there is one.
pub fn skill_prompt(skill_text: &str, args: &str) -> (r: String)
    ensures
        r@ == if trim(args@).len() == 0 {
            skill_text@
        } else {
            skill_text@ + "\n\nUser request:\n"@ + trim(args@)
        },
{
    let extra = trim_str(args);
    let mut s = owned(skill_text);
    if !extra.as_str().is_empty() {
        push_str(&mut s, "\n\nUser request:\n");
        push_str(&mut s, extra.as_str());
    }
    s
}

/// The note for a skill whose text cannot be read.
pub fn skill_load_failed_text(name: &str) -> (r: String)
    ensures
        r@ == "Failed to load skill \"/skill:"@ + name@ + "\"."@,
{
    let mut s = owned("Failed to load skill \"/skill:");
    push_str(&mut s, name);
    push_str(&mut s, "\".");
    s
}

/// The system note that tells the agent what `/init` wrote.
pub fn init_note(agents_md: &str) -> (r: ContentPart)
    ensures
        part_view(r) == (0nat, system_text(
            "The user just ran `/init` slash command. The system has analyzed the codebase and generated an `AGENTS.md` file. Latest AGENTS.md file content:\n"@
                + agents_md@,
        )),
{
    let mut s = owned("The user just ran `/init` slash command. The system has analyzed the codebase and generated an `AGENTS.md` file. Latest AGENTS.md file content:\n");
    push_str(&mut s, agents_md);
    system(s.as_str())
}

/// Whether checkpoints carry a user message naming them: when the agent can send D-Mails,
/// that is, when a tool is named `SendDMail`.
pub fn checkpoint_with_user_message(tool_names: &Vec<String>) -> (r: bool)
    ensures
        r == strings_view(tool_names@).contains("SendDMail"@),
{
    let mut i: usize = 0;
    while i < tool_names.len()
        invariant
            i <= tool_names@.len(),
            forall|k: int| 0 <= k < i ==> strings_view(tool_names@)[k] != "SendDMail"@,
        decreases tool_names@.len() - i,
    {
        if str_eq(tool_names[i].as_str(), "SendDMail") {
            assert(strings_view(tool_names@)[i as int] == "SendDMail"@);
            return true;
        }
        i = i + 1;
    }
    false
}

/// Runs a flow from its BEGIN node, one node per move, within a number of moves.
pub struct FlowRunner {
    pub flow: Flow,
    pub name: Option<String>,
    pub max_moves: i64,
}

/// The prompt of a node: what the user seems to type, and its text.
pub struct FlowPrompt {
    pub user_input: UserInput,
    pub text: String,
}

/// Where a run of a flow stands: the current node, the moves made and the steps used.
pub struct FlowProgress {
    pub current_id: String,
    pub moves: i64,
    pub total_steps: i64,
}

/// What a run does at its current node.
pub enum FlowMove {
    /// The END node is reached.
    Finished,
    /// A BEGIN node has nowhere to go; the run stops.
    BeginWithoutEdges,
    /// A BEGIN node was passed; the run is at its first successor now.
    Passed,
    /// No move is left; the run fails with the steps used.
    OutOfMoves,
    /// The node is to be run.
    Run,
}

/// What follows a turn at a node.
pub enum NodeDecision {
    /// The run stops.
    Stop,
    /// The run moves to this node.
    Next(String),
    /// The model is asked again, for a valid choice.
    Retry,
}

/// The index of the first node with this id, from `i` on.
pub open spec fn node_index(ns: Seq<FlowNode>, id: Seq<char>, i: int) -> Option<int>
    decreases ns.len() - i,
{
    if i < 0 || i >= ns.len() {
        None
    } else if ns[i].id@ == id {
        Some(i)
    } else {
        node_index(ns, id, i + 1)
    }
}

/// The lines that list the labelled edges as choices.
pub open spec fn branch_lines(es: Seq<EdgeV>) -> Seq<char>
    decreases es.len(),
{
    if es.len() == 0 {
        Seq::empty()
    } else {
        branch_lines(es.drop_last()) + match es.last().2 {
            Some(l) => "\n- "@ + l,
            None => Seq::empty(),
        }
    }
}

/// The prompt of a decision node: its label, the choices, and how to answer.
pub open spec fn decision_prompt(label: Seq<char>, es: Seq<EdgeV>) -> Seq<char> {
    label + "\n\nAvailable branches:"@ + branch_lines(es) + "\n\nReply with a choice using <choice>...</choice>."@
}

/// The destination of the first edge whose label is `c`.
pub open spec fn labelled_dst(es: Seq<EdgeV>, c: Seq<char>, i: int) -> Option<Seq<char>>
    decreases es.len() - i,
{
    if i < 0 || i >= es.len() {
        None
    } else if es[i].2 == Some(c) {
        Some(es[i].1)
    } else {
        labelled_dst(es, c, i + 1)
    }
}

/// The choice an assistant's final message makes, if any.
pub open spec fn choice_of(m: Option<Message>) -> Option<Seq<char>> {
    match m {
        Some(msg) => choice_scan(join(text_segments(msg.content@), " "@), 0, None),
        None => None,
    }
}

/// The note that asks again for a valid choice.
pub open spec fn retry_text(base: Seq<char>) -> Seq<char> {
    base + "\n\nYour last response did not include a valid choice. Reply with one of the choices using <choice>...</choice>."@
}

/// The note the repeating loop adds to the decision after each run of the prompt.
pub open spec fn ralph_decision_text(prompt: Seq<char>) -> Seq<char> {
    prompt
        + ". (You are running in an automated loop where the same prompt is fed repeatedly. Only choose STOP when the task is fully complete. Including it will stop further iterations. If you are not 100% sure, choose CONTINUE.)"@
}

fn find_node(nodes: &Vec<FlowNode>, id: &str) -> (r: Option<usize>)
    ensures
        match r {
            Some(i) => node_index(nodes@, id@, 0) == Some(i as int) && i < nodes@.len(),
            None => node_index(nodes@, id@, 0) is None,
        },
{
    let mut i: usize = 0;
    while i < nodes.len()
        invariant
            i <= nodes@.len(),
            node_index(nodes@, id@, 0) == node_index(nodes@, id@, i as int),
        decreases nodes@.len() - i,
    {
        if str_eq(nodes[i].id.as_str(), id) {
            return Some(i);
        }
        i = i + 1;
    }
    None
}

fn edges_of(adj: &Vec<(String, Vec<FlowEdge>)>, id: &str) -> (r: Vec<FlowEdge>)
    ensures
        edges_view(r@) == edges_out(adj_view(adj@), id@),
{
    match find_key(adj.as_slice(), id) {
        Some(i) => {
            let src = &adj[i].1;
            let mut out: Vec<FlowEdge> = Vec::new();
            let mut k: usize = 0;
            while k < src.len()
                invariant
                    k <= src@.len(),
                    edges_view(out@) == edges_view(src@).take(k as int),
                decreases src@.len() - k,
            {
                let ghost o0 = out@;
                out.push(clone_edge(&src[k]));
                assert(edges_view(out@) =~= edges_view(o0).push(edge_view(src@[k as int])));
                assert(edges_view(src@).take(k + 1) =~= edges_view(src@).take(k as int).push(edge_view(src@[k as int])));
                k = k + 1;
            }
            assert(edges_view(src@).take(src@.len() as int) =~= edges_view(src@));
            assert(adj_view(adj@)[i as int].1 == edges_view(src@));
            out
        },
        None => {
            let out: Vec<FlowEdge> = Vec::new();
            assert(edges_view(out@) =~= Seq::<EdgeV>::empty());
            out
        },
    }
}

impl FlowRunner {
    /// A runner for a flow, named for its command or not, with a number of moves.
    pub fn new(flow: Flow, name: Option<String>, max_moves: i64) -> (r: FlowRunner)
        ensures
            r.flow == flow,
            r.name == name,
            r.max_moves == max_moves,
    {
        FlowRunner { flow, name, max_moves }
    }

    /// Whether a run with these arguments is ignored: a flow takes none.
    pub fn ignores_args(args: &str) -> (r: bool)
        ensures
            r == (trim(args@).len() > 0),
    {
        let t = trim_str(args);
        !t.as_str().is_empty()
    }

    /// A run at the BEGIN node, with no move made and no step used.
    pub fn start(&self) -> (r: FlowProgress)
        ensures
            r.current_id@ == self.flow.begin_id@,
            r.moves == 0,
            r.total_steps == 0,
    {
        FlowProgress { current_id: self.flow.begin_id.clone(), moves: 0, total_steps: 0 }
    }

    /// Decides what the run does at its current node: END finishes; BEGIN passes to the
    /// destination of its first edge, or stops when it has none; any other node runs while
    /// moves are left.
    pub fn advance(&self, progress: &mut FlowProgress) -> (r: FlowMove)
        requires
            node_index(self.flow.nodes@, old(progress).current_id@, 0) is Some,
        ensures
            ({
                let node = self.flow.nodes@[node_index(self.flow.nodes@, old(progress).current_id@, 0)->0];
                let es = edges_out(adj_view(self.flow.outgoing@), old(progress).current_id@);
                &&& final(progress).moves == old(progress).moves
                &&& final(progress).total_steps == old(progress).total_steps
                &&& if node.kind == FlowNodeKind::End {
                    r is Finished && final(progress).current_id@ == old(progress).current_id@
                } else if node.kind == FlowNodeKind::Begin {
                    if es.len() == 0 {
                        r is BeginWithoutEdges && final(progress).current_id@ == old(progress).current_id@
                    } else {
                        r is Passed && final(progress).current_id@ == es[0].1
                    }
                } else if old(progress).moves >= self.max_moves {
                    r is OutOfMoves && final(progress).current_id@ == old(progress).current_id@
                } else {
                    r is Run && final(progress).current_id@ == old(progress).current_id@
                }
            }),
    {
        let idx = find_node(&self.flow.nodes, progress.current_id.as_str());
        let i = match idx {
            Some(i) => i,
            None => {
                return FlowMove::Finished;
            },
        };
        let kind = self.flow.nodes[i].kind;
        if kind == FlowNodeKind::End {
            return FlowMove::Finished;
        }
        if kind == FlowNodeKind::Begin {
            let es = edges_of(&self.flow.outgoing, progress.current_id.as_str());
            if es.len() == 0 {
                return FlowMove::BeginWithoutEdges;
            }
            assert(edges_view(es@)[0] == edge_view(es@[0]));
            progress.current_id = es[0].dst.clone();
            return FlowMove::Passed;
        }
        if progress.moves >= self.max_moves {
            return FlowMove::OutOfMoves;
        }
        FlowMove::Run
    }

    /// Records a node that ran: the steps it used, and the move to the next node when there is
    /// one. Returns whether the run goes on.
    pub fn node_done(&self, progress: &mut FlowProgress, next: Option<String>, steps_used: i64) -> (r: bool)
        requires
            old(progress).moves < self.max_moves,
            i64::MIN <= old(progress).total_steps + steps_used <= i64::MAX,
        ensures
            final(progress).total_steps == old(progress).total_steps + steps_used,
            r == next is Some,
            match next {
                Some(id) => final(progress).current_id == id && final(progress).moves == old(progress).moves + 1,
                None => final(progress).current_id == old(progress).current_id && final(progress).moves
                    == old(progress).moves,
            },
    {
        progress.total_steps = progress.total_steps + steps_used;
        match next {
            Some(id) => {
                progress.moves = progress.moves + 1;
                progress.current_id = id;
                true
            },
            None => false,
        }
    }

    /// The edges out of a node.
    pub fn edges(&self, id: &str) -> (r: Vec<FlowEdge>)
        ensures
            edges_view(r@) == edges_out(adj_view(self.flow.outgoing@), id@),
    {
        edges_of(&self.flow.outgoing, id)
    }

    /// The prompt of a node: its label for a task; for a decision, its label, the labelled
    /// edges as choices, and how to answer.
    pub fn build_flow_prompt(node: &FlowNode, edges: &Vec<FlowEdge>) -> (r: FlowPrompt)
        ensures
            node.kind != FlowNodeKind::Decision ==> r.text@ == label_text(node.label) && match node.label {
                FlowLabel::Parts(ps) => r.user_input matches UserInput::Parts(q) && parts_view(q@) == parts_view(ps@),
                FlowLabel::Text(t) => r.user_input matches UserInput::Text(u) && u@ == t@,
            },
            node.kind == FlowNodeKind::Decision ==> r.text@ == decision_prompt(label_text(node.label), edges_view(edges@))
                && (r.user_input matches UserInput::Text(u) && u@ == r.text@),
    {
        if node.kind != FlowNodeKind::Decision {
            return match &node.label {
                FlowLabel::Parts(parts) => {
                    let copy = user_input_message(&UserInput::Parts(copy_parts(parts)));
                    FlowPrompt { user_input: UserInput::Parts(copy.content), text: node.label_as_string() }
                },
                FlowLabel::Text(t) => FlowPrompt { user_input: UserInput::Text(t.clone()), text: t.clone() },
            };
        }
        let mut text = node.label_as_string();
        push_str(&mut text, "\n\nAvailable branches:");
        let ghost head = text@;
        let mut k: usize = 0;
        while k < edges.len()
            invariant
                k <= edges@.len(),
                text@ == head + branch_lines(edges_view(edges@).take(k as int)),
            decreases edges@.len() - k,
        {
            proof {
                let t = edges_view(edges@).take(k + 1);
                assert(t.drop_last() =~= edges_view(edges@).take(k as int));
                assert(t.last() == edge_view(edges@[k as int]));
            }
            match &edges[k].label {
                Some(l) => {
                    push_str(&mut text, "\n- ");
                    push_str(&mut text, l.as_str());
                },
                None => {},
            }
            k = k + 1;
        }
        assert(edges_view(edges@).take(edges@.len() as int) =~= edges_view(edges@));
        push_str(&mut text, "\n\nReply with a choice using <choice>...</choice>.");
        FlowPrompt { user_input: UserInput::Text(text.clone()), text }
    }

    /// The prompt that asks again for a valid choice.
    pub fn retry_prompt(base_text: &str) -> (r: String)
        ensures
            r@ == retry_text(base_text@),
    {
        let mut s = owned(base_text);
        push_str(&mut s, "\n\nYour last response did not include a valid choice. Reply with one of the choices using <choice>...</choice>.");
        s
    }

    /// Decides what follows a turn at a node that has edges: a rejected tool call stops the
    /// run; a task moves along its first edge; a decision moves along the first edge labelled
    /// with the choice of the final message, and asks again when there is no such edge.
    pub fn decide_after_turn(kind: FlowNodeKind, edges: &Vec<FlowEdge>, outcome: &TurnOutcome) -> (r: NodeDecision)
        requires
            edges@.len() > 0,
        ensures
            outcome.stop_reason == StepStopReason::ToolRejected ==> r is Stop,
            outcome.stop_reason != StepStopReason::ToolRejected && kind != FlowNodeKind::Decision ==> (r matches NodeDecision::Next(
                d,
            ) && d@ == edges@[0].dst@),
            outcome.stop_reason != StepStopReason::ToolRejected && kind == FlowNodeKind::Decision ==> match choice_of(
                outcome.final_message,
            ) {
                Some(c) => match labelled_dst(edges_view(edges@), c, 0) {
                    Some(d) => r matches NodeDecision::Next(n) && n@ == d,
                    None => r is Retry,
                },
                None => r is Retry,
            },
    {
        if outcome.stop_reason == StepStopReason::ToolRejected {
            return NodeDecision::Stop;
        }
        if kind != FlowNodeKind::Decision {
            return NodeDecision::Next(edges[0].dst.clone());
        }
        let choice = match &outcome.final_message {
            Some(m) => {
                let text = content_parts_to_text(m.content.as_slice());
                parse_choice(text.as_str())
            },
            None => None,
        };
        match choice {
            Some(c) => {
                let mut k: usize = 0;
                while k < edges.len()
                    invariant
                        k <= edges@.len(),
                        outcome.stop_reason != StepStopReason::ToolRejected,
                        kind == FlowNodeKind::Decision,
                        choice_of(outcome.final_message) == Some(c@),
                        labelled_dst(edges_view(edges@), c@, 0) == labelled_dst(edges_view(edges@), c@, k as int),
                    decreases edges@.len() - k,
                {
                    assert(edges_view(edges@)[k as int] == edge_view(edges@[k as int]));
                    match &edges[k].label {
                        Some(l) => {
                            if str_eq(l.as_str(), c.as_str()) {
                                return NodeDecision::Next(edges[k].dst.clone());
                            }
                        },
                        None => {},
                    }
                    k = k + 1;
                }
                NodeDecision::Retry
            },
            None => NodeDecision::Retry,
        }
    }

    /// The loop that repeats a prompt: BEGIN leads to R1, which sends the prompt; R1 leads to
    /// the decision R2, which asks the prompt again with a note and goes back to itself on
    /// CONTINUE or to END on STOP. It runs `max_ralph_iterations + 1` times at most, or
    /// practically without end when that number is negative.
    pub fn ralph_loop(user_message: &Message, max_ralph_iterations: i64) -> (r: FlowRunner)
        requires
            max_ralph_iterations < i64::MAX,
        ensures
            r.name is None,
            r.max_moves == if max_ralph_iterations < 0 {
                1_000_000_000_000_000i64
            } else {
                (max_ralph_iterations + 1) as i64
            },
            r.flow.begin_id@ == "BEGIN"@,
            r.flow.end_id@ == "END"@,
            nodes_view(r.flow.nodes@) == seq![
                ("BEGIN"@, "BEGIN"@, FlowNodeKind::Begin),
                ("END"@, "END"@, FlowNodeKind::End),
                ("R1"@, join(text_segments(user_message.content@), " "@), FlowNodeKind::Task),
                ("R2"@, ralph_decision_text(input_text(*user_message)), FlowNodeKind::Decision),
            ],
            r.flow.nodes@[2].label matches FlowLabel::Parts(ps) && parts_view(ps@) == parts_view(user_message.content@),
            adj_view(r.flow.outgoing@) == seq![
                ("BEGIN"@, seq![("BEGIN"@, "R1"@, None::<Seq<char>>)]),
                ("R1"@, seq![("R1"@, "R2"@, None::<Seq<char>>)]),
                ("R2"@, seq![("R2"@, "R2"@, Some("CONTINUE"@)), ("R2"@, "END"@, Some("STOP"@))]),
                ("END"@, Seq::<EdgeV>::empty()),
            ],
    {
        let prompt_content = copy_parts(&user_message.content);
        let text = content_parts_to_text(user_message.content.as_slice());
        let mut prompt_text = trim_str(text.as_str());
        push_str(&mut prompt_text, ". (You are running in an automated loop where the same prompt is fed repeatedly. Only choose STOP when the task is fully complete. Including it will stop further iterations. If you are not 100% sure, choose CONTINUE.)");
        let total_runs: i64 = if max_ralph_iterations < 0 {
            1_000_000_000_000_000i64
        } else {
            max_ralph_iterations + 1
        };
        let label_parts = copy_parts(&prompt_content);
        let r1_label = FlowLabel::Parts(label_parts);
        assert(label_text(r1_label) == join(text_segments(label_parts@), " "@));
        proof {
            lemma_text_segments_by_view(label_parts@, user_message.content@);
        }
        let mut nodes: Vec<FlowNode> = Vec::new();
        nodes.push(FlowNode::new(owned("BEGIN"), FlowLabel::Text(owned("BEGIN")), FlowNodeKind::Begin));
        nodes.push(FlowNode::new(owned("END"), FlowLabel::Text(owned("END")), FlowNodeKind::End));
        nodes.push(FlowNode::new(owned("R1"), r1_label, FlowNodeKind::Task));
        nodes.push(FlowNode::new(owned("R2"), FlowLabel::Text(prompt_text), FlowNodeKind::Decision));
        let mut begin_edges: Vec<FlowEdge> = Vec::new();
        begin_edges.push(FlowEdge::new(owned("BEGIN"), owned("R1"), None));
        let mut r1_edges: Vec<FlowEdge> = Vec::new();
        r1_edges.push(FlowEdge::new(owned("R1"), owned("R2"), None));
        let mut r2_edges: Vec<FlowEdge> = Vec::new();
        r2_edges.push(FlowEdge::new(owned("R2"), owned("R2"), Some(owned("CONTINUE"))));
        r2_edges.push(FlowEdge::new(owned("R2"), owned("END"), Some(owned("STOP"))));
        let end_edges: Vec<FlowEdge> = Vec::new();
        proof {
            assert(edges_view(begin_edges@) =~= seq![("BEGIN"@, "R1"@, None::<Seq<char>>)]);
            assert(edges_view(r1_edges@) =~= seq![("R1"@, "R2"@, None::<Seq<char>>)]);
            assert(edges_view(r2_edges@) =~= seq![("R2"@, "R2"@, Some("CONTINUE"@)), ("R2"@, "END"@, Some("STOP"@))]);
            assert(edges_view(end_edges@) =~= Seq::<EdgeV>::empty());
        }
        let mut outgoing: Vec<(String, Vec<FlowEdge>)> = Vec::new();
        outgoing.push((owned("BEGIN"), begin_edges));
        outgoing.push((owned("R1"), r1_edges));
        outgoing.push((owned("R2"), r2_edges));
        outgoing.push((owned("END"), end_edges));
        proof {
            assert(nodes_view(nodes@) =~= seq![
                ("BEGIN"@, "BEGIN"@, FlowNodeKind::Begin),
                ("END"@, "END"@, FlowNodeKind::End),
                ("R1"@, join(text_segments(user_message.content@), " "@), FlowNodeKind::Task),
                ("R2"@, ralph_decision_text(input_text(*user_message)), FlowNodeKind::Decision),
            ]);
            assert(adj_view(outgoing@) =~= seq![
                ("BEGIN"@, seq![("BEGIN"@, "R1"@, None::<Seq<char>>)]),
                ("R1"@, seq![("R1"@, "R2"@, None::<Seq<char>>)]),
                ("R2"@, seq![("R2"@, "R2"@, Some("CONTINUE"@)), ("R2"@, "END"@, Some("STOP"@))]),
                ("END"@, Seq::<EdgeV>::empty()),
            ]);
        }
        let flow = Flow { nodes, outgoing, begin_id: owned("BEGIN"), end_id: owned("END") };
        FlowRunner::new(flow, None, total_runs)
    }
}

/// Parts with the same views have the same text segments.
proof fn lemma_text_segments_by_view(a: Seq<ContentPart>, b: Seq<ContentPart>)
    requires
        parts_view(a) == parts_view(b),
    ensures
        text_segments(a) == text_segments(b),
    decreases a.len(),
{
    assert(a.len() == parts_view(a).len());
    assert(b.len() == parts_view(b).len());
    if a.len() > 0 {
        assert(parts_view(a.drop_last()) =~= parts_view(a).drop_last());
        assert(parts_view(b.drop_last()) =~= parts_view(b).drop_last());
        lemma_text_segments_by_view(a.drop_last(), b.drop_last());
        assert(part_view(a.last()) == parts_view(a)[a.len() - 1]);
        assert(part_view(b.last()) == parts_view(b)[b.len() - 1]);
    }
}

fn copy_parts(ps: &Vec<ContentPart>) -> (r: Vec<ContentPart>)
    ensures
        parts_view(r@) == parts_view(ps@),
{
    let mut out: Vec<ContentPart> = Vec::new();
    let mut i: usize = 0;
    while i < ps.len()
        invariant
            i <= ps@.len(),
            parts_view(out@) == parts_view(ps@).take(i as int),
        decreases ps@.len() - i,
    {
        let ghost o0 = out@;
        out.push(crate::soul::context::copy_part(&ps[i]));
        proof {
            assert(parts_view(out@) =~= parts_view(o0).push(part_view(ps@[i as int])));
            assert(parts_view(ps@).take(i + 1) =~= parts_view(ps@).take(i as int).push(part_view(ps@[i as int])));
        }
        i = i + 1;
    }
    assert(parts_view(ps@).take(ps@.len() as int) =~= parts_view(ps@));
    out
}

} // verus!
