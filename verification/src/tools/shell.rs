//! The shell tool: its description for the user's shell, the command line it runs, and the
//! result it reports for each way a command can end.
use vstd::prelude::*;

use crate::text::{decimal_int, format_i64, owned, push_str, str_eq};
use crate::tools::utils::{load_desc, render_desc, with_period, with_truncation_note, ToolResultBuilder};
use crate::tools::{blocks_view, brief_blocks, output_text, ToolReturnValue};
use crate::utils::slashcmd::strings_view;

verus! {

/// How long a command may run unless told, in seconds.
pub const DEFAULT_TIMEOUT: i64 = 60;

/// How long a command may run unless told.
pub fn default_timeout() -> (r: i64)
    ensures
        r == DEFAULT_TIMEOUT,
{
    DEFAULT_TIMEOUT
}

/// The arguments of the shell tool.
pub struct ShellParams {
    pub command: String,
    pub timeout: i64,
}

/// The shell tool: its description, the shell it runs, and whether that is PowerShell.
pub struct Shell {
    pub description: String,
    pub shell_path: String,
    pub is_powershell: bool,
}

/// How a command ended.
pub enum ShellEnd {
    /// It exited with a code.
    Exited(i32),
    /// It ran out of time and was killed.
    TimedOut,
}

impl Shell {
    /// The tool for a shell: PowerShell when the shell is named `Windows PowerShell`, with the
    /// description from that shell's template, naming the shell and its path.
    pub fn new(shell_name: &str, shell_path: &str, bash_template: &str, powershell_template: &str) -> (r: Shell)
        ensures
            r.is_powershell == (shell_name@ == "Windows PowerShell"@),
            r.shell_path@ == shell_path@,
            r.description@ == render_desc(
                if r.is_powershell { powershell_template@ } else { bash_template@ },
                seq![("SHELL"@, shell_name@ + " (`"@ + shell_path@ + "`)"@)],
            ),
    {
        let is_powershell = str_eq(shell_name, "Windows PowerShell");
        let mut label = owned(shell_name);
        push_str(&mut label, " (`");
        push_str(&mut label, shell_path);
        push_str(&mut label, "`)");
        let template = if is_powershell {
            powershell_template
        } else {
            bash_template
        };
        let subs = [("SHELL", label)];
        proof {
            reveal_strlit("SHELL");
        }
        let desc = load_desc(template, &subs);
        assert(crate::tools::utils::subs_view(subs@) =~= seq![("SHELL"@, shell_name@ + " (`"@ + shell_path@ + "`)"@)]);
        Shell { description: desc, shell_path: owned(shell_path), is_powershell }
    }

    /// The command line that runs a command in the shell.
    pub fn shell_args(&self, command: &str) -> (r: Vec<String>)
        ensures
            strings_view(r@) == seq![self.shell_path@, if self.is_powershell { "-command"@ } else { "-c"@ }, command@],
    {
        let mut v: Vec<String> = Vec::new();
        v.push(self.shell_path.clone());
        v.push(owned(if self.is_powershell { "-command" } else { "-c" }));
        v.push(owned(command));
        assert(strings_view(v@) =~= seq![self.shell_path@, if self.is_powershell { "-command"@ } else { "-c"@ }, command@]);
        v
    }
}

/// The description of the approval a command needs.
pub fn run_command_description(command: &str) -> (r: String)
    ensures
        r@ == "Run command `"@ + command@ + "`"@,
{
    let mut s = owned("Run command `");
    push_str(&mut s, command);
    push_str(&mut s, "`");
    s
}

/// The refusal of an empty command, or `None` for a command to run.
pub fn check_command(builder: &ToolResultBuilder, command: &str) -> (r: Option<ToolReturnValue>)
    ensures
        r matches Some(v) ==> v.extras is None,
        command@.len() == 0 ==> (r matches Some(v) && v.is_error && v.message@ == with_truncation_note(
            "Command cannot be empty."@,
            builder.truncated(),
        ) && blocks_view(v.display@) == brief_blocks("Empty command"@) + builder.display_view()),
        command@.len() > 0 ==> r is None,
{
    if command.is_empty() {
        Some(builder.error("Command cannot be empty.", "Empty command"))
    } else {
        None
    }
}

/// The message and summary for how a command ended: none for success; the exit code for a
/// failure; the time it had for one that was killed.
pub open spec fn end_texts(end: ShellEnd, timeout: i64) -> Option<(Seq<char>, Seq<char>)> {
    match end {
        ShellEnd::Exited(code) => if code == 0 {
            None
        } else {
            Some((
                "Command failed with exit code: "@ + decimal_int(code as int) + "."@,
                "Failed with exit code: "@ + decimal_int(code as int),
            ))
        },
        ShellEnd::TimedOut => Some((
            "Command killed by timeout ("@ + decimal_int(timeout as int) + "s)"@,
            "Killed by timeout ("@ + decimal_int(timeout as int) + "s)"@,
        )),
    }
}

/// The result for a command that ended, with the output the builder collected: success when
/// it exited with 0, an error that says how it ended otherwise.
pub fn command_result(builder: &ToolResultBuilder, end: ShellEnd, timeout: i64) -> (r: ToolReturnValue)
    ensures
        r.extras is None,
        output_text(r.output) == Some(crate::text::join_seqs(builder.pieces(), Seq::empty())),
        match end_texts(end, timeout) {
            None => !r.is_error && r.message@ == with_truncation_note(
                with_period("Command executed successfully."@),
                builder.truncated(),
            ) && blocks_view(r.display@) == brief_blocks(""@) + builder.display_view(),
            Some((m, b)) => r.is_error && r.message@ == with_truncation_note(m, builder.truncated())
                && blocks_view(r.display@) == brief_blocks(b) + builder.display_view(),
        },
{
    match end {
        ShellEnd::Exited(code) => {
            if code == 0 {
                builder.ok("Command executed successfully.", "")
            } else {
                let n = format_i64(code as i64);
                let mut m = owned("Command failed with exit code: ");
                push_str(&mut m, n.as_str());
                push_str(&mut m, ".");
                let mut b = owned("Failed with exit code: ");
                push_str(&mut b, n.as_str());
                builder.error(m.as_str(), b.as_str())
            }
        },
        ShellEnd::TimedOut => {
            let n = format_i64(timeout);
            let mut m = owned("Command killed by timeout (");
            push_str(&mut m, n.as_str());
            push_str(&mut m, "s)");
            let mut b = owned("Killed by timeout (");
            push_str(&mut b, n.as_str());
            push_str(&mut b, "s)");
            builder.error(m.as_str(), b.as_str())
        },
    }
}

} // verus!
