//! The small tools: sending a D-Mail, thinking aloud, creating a subagent, and the tools used
//! to test the tool machinery.
use vstd::prelude::*;

use crate::soul::denwarenji::{denwa_error_text, send_error, DMail, DenwaRenji};
use crate::text::{decimal, format_usize, join_seqs, owned, push_str, str_chars};
use crate::tools::{error_view, ok_view, ret_view, tool_error, tool_ok, ToolReturnValue};
use crate::utils::slashcmd::strings_view;

verus! {

/// The arguments of the D-Mail tool.
pub struct DMailParams {
    pub message: String,
    pub checkpoint_id: i64,
}

impl From<DMailParams> for DMail {
    fn from(value: DMailParams) -> (r: DMail) {
        DMail { message: value.message, checkpoint_id: value.checkpoint_id }
    }
}

impl vstd::std_specs::convert::FromSpecImpl<DMailParams> for DMail {
    open spec fn obeys_from_spec() -> bool {
        true
    }

    open spec fn from_spec(v: DMailParams) -> DMail {
        DMail { message: v.message, checkpoint_id: v.checkpoint_id }
    }
}

/// The note a sent D-Mail leaves: the agent only sees it when the D-Mail did not take effect.
pub open spec fn dmail_sent_note() -> Seq<char> {
    "If you see this message, the D-Mail was NOT sent successfully. This may be because some other tool that needs approval was rejected."@
}

/// Sends a D-Mail: the mailbox's refusal becomes an error; otherwise the D-Mail is pending.
pub fn send_dmail_tool(renji: &mut DenwaRenji, params: DMailParams) -> (r: ToolReturnValue)
    ensures
        final(renji).n_checkpoints() == old(renji).n_checkpoints(),
        match send_error(old(renji).pending(), old(renji).n_checkpoints(), DMail { message: params.message, checkpoint_id: params.checkpoint_id }) {
            Some(e) => ret_view(r) == error_view(""@, "Failed to send D-Mail. Error: "@ + denwa_error_text(e), "Failed to send D-Mail"@)
                && final(renji).pending() == old(renji).pending(),
            None => ret_view(r) == ok_view(""@, dmail_sent_note(), "El Psy Kongroo"@) && final(renji).pending()
                == Some(DMail { message: params.message, checkpoint_id: params.checkpoint_id }),
        },
{
    let dmail = DMail::from(params);
    match renji.send_dmail(dmail) {
        Err(err) => {
            let mut m = owned("Failed to send D-Mail. Error: ");
            let t = err.to_message();
            push_str(&mut m, t.as_str());
            tool_error("", m.as_str(), "Failed to send D-Mail")
        },
        Ok(()) => tool_ok(
            "",
            "If you see this message, the D-Mail was NOT sent successfully. This may be because some other tool that needs approval was rejected.",
            "El Psy Kongroo",
        ),
    }
}

/// The arguments of the thinking tool.
pub struct ThinkParams {
    pub thought: String,
}

/// The thinking tool: the model writes a thought down, and nothing else happens.
pub struct Think {
    pub description: String,
}

impl Think {
    /// The tool with its description.
    pub fn new(description: &str) -> (r: Think)
        ensures
            r.description@ == description@,
    {
        Think { description: owned(description) }
    }

    /// Logs the thought.
    pub fn think(&self, _params: &ThinkParams) -> (r: ToolReturnValue)
        ensures
            ret_view(r) == ok_view(""@, "Thought logged"@, ""@),
    {
        tool_ok("", "Thought logged", "")
    }
}

/// The arguments of the subagent tool.
pub struct CreateSubagentParams {
    pub name: String,
    pub system_prompt: String,
}

/// The refusal of a subagent whose name is taken.
pub fn subagent_exists_error(name: &str) -> (r: ToolReturnValue)
    ensures
        ret_view(r) == error_view(""@, "Subagent with name '"@ + name@ + "' already exists."@, "Subagent already exists"@),
{
    let mut m = owned("Subagent with name '");
    push_str(&mut m, name);
    push_str(&mut m, "' already exists.");
    tool_error("", m.as_str(), "Subagent already exists")
}

/// The result of creating a subagent: the names of all subagents, in order, and a note that it
/// was created.
pub fn subagent_created(names: Vec<String>, name: &str) -> (r: ToolReturnValue)
    ensures
        !r.is_error,
        exists|sorted: Seq<Seq<char>>| {
            &&& sorted.to_multiset() == strings_view(names@).to_multiset()
            &&& forall|i: int, j: int| 0 <= i < j < sorted.len() ==> !crate::tools::file::chars_lt(#[trigger] sorted[j], #[trigger] sorted[i])
            &&& ret_view(r) == ok_view(
                "Available subagents: "@ + join_seqs(sorted, ", "@),
                "Subagent '"@ + name@ + "' created successfully."@,
                ""@,
            )
        },
{
    let mut names = names;
    crate::tools::file::sort_strings(&mut names);
    let ghost sorted = strings_view(names@);
    let mut cs: Vec<Vec<char>> = Vec::new();
    let mut i: usize = 0;
    while i < names.len()
        invariant
            i <= names@.len(),
            sorted == strings_view(names@),
            crate::text::vv(cs@) == sorted.take(i as int),
        decreases names@.len() - i,
    {
        let ghost c0 = cs@;
        cs.push(str_chars(names[i].as_str()));
        proof {
            crate::text::lemma_vv_push(c0, cs@.last());
            assert(sorted.take(i + 1) =~= sorted.take(i as int).push(sorted[i as int]));
        }
        i = i + 1;
    }
    assert(sorted.take(names@.len() as int) =~= sorted);
    let sep = str_chars(", ");
    let joined = crate::text::join_chars(&cs, sep.as_slice());
    let mut output = owned("Available subagents: ");
    crate::text::push_chars(&mut output, joined.as_slice());
    let mut message = owned("Subagent '");
    push_str(&mut message, name);
    push_str(&mut message, "' created successfully.");
    let r = tool_ok(output.as_str(), message.as_str(), "");
    assert(forall|i: int, j: int| 0 <= i < j < sorted.len() ==> !crate::tools::file::chars_lt(#[trigger] sorted[j], #[trigger] sorted[i]));
    r
}

/// The tool that adds two numbers, for tests of the tool machinery.
pub struct Plus;

/// The tool that compares two numbers, for tests of the tool machinery.
pub struct Compare;

/// The tool that fails on purpose, for tests of the tool machinery.
pub struct Panic;

/// The arguments of the failing tool.
pub struct PanicParams {
    pub message: String,
}

impl Plus {
    /// The tool's name.
    pub fn name(&self) -> (r: &'static str)
        ensures
            r@ == "plus"@,
    {
        "plus"
    }
}

impl Compare {
    /// The tool's name.
    pub fn name(&self) -> (r: &'static str)
        ensures
            r@ == "compare"@,
    {
        "compare"
    }
}

impl Panic {
    /// The tool's name.
    pub fn name(&self) -> (r: &'static str)
        ensures
            r@ == "panic"@,
    {
        "panic"
    }

    /// The message the tool fails with: how many characters the given message has.
    pub fn panic_message(params: &PanicParams) -> (r: String)
        ensures
            r@ == "panicked with a message with "@ + decimal(params.message@.len()) + " characters"@,
    {
        let n = str_chars(params.message.as_str()).len();
        let mut m = owned("panicked with a message with ");
        let t = format_usize(n);
        push_str(&mut m, t.as_str());
        push_str(&mut m, " characters");
        m
    }
}

} // verus!
