//! The machine the agent runs on, as the prompt describes it: the operating system's name and
//! the shell commands run in.
use vstd::prelude::*;

use crate::text::{owned, str_eq};

verus! {

/// What the agent knows of its machine.
pub struct Environment {
    pub os_kind: String,
    pub os_arch: String,
    pub os_version: String,
    pub shell_name: String,
    pub shell_path: String,
}

/// The name of an operating system as the prompt gives it.
pub open spec fn os_kind_of(os: Seq<char>) -> Seq<char> {
    if os == "macos"@ {
        "macOS"@
    } else if os == "windows"@ {
        "Windows"@
    } else if os == "linux"@ {
        "Linux"@
    } else {
        os
    }
}

/// The name of an operating system as the prompt gives it.
pub fn os_kind(os: &str) -> (r: String)
    ensures
        r@ == os_kind_of(os@),
{
    if str_eq(os, "macos") {
        owned("macOS")
    } else if str_eq(os, "windows") {
        owned("Windows")
    } else if str_eq(os, "linux") {
        owned("Linux")
    } else {
        owned(os)
    }
}

/// The places where bash is looked for, in order.
pub open spec fn bash_candidates() -> Seq<Seq<char>> {
    seq!["/bin/bash"@, "/usr/bin/bash"@, "/usr/local/bin/bash"@]
}

/// The shell commands run in: PowerShell on Windows; else the first bash that exists among the
/// usual places; else `/bin/sh`. The flags say which of the usual places hold a file.
pub fn choose_shell(os_kind: &str, bash_exists: &[bool; 3]) -> (r: (String, String))
    ensures
        os_kind@ == "Windows"@ ==> r.0@ == "Windows PowerShell"@ && r.1@ == "powershell.exe"@,
        os_kind@ != "Windows"@ ==> if bash_exists@[0] {
            r.0@ == "bash"@ && r.1@ == bash_candidates()[0]
        } else if bash_exists@[1] {
            r.0@ == "bash"@ && r.1@ == bash_candidates()[1]
        } else if bash_exists@[2] {
            r.0@ == "bash"@ && r.1@ == bash_candidates()[2]
        } else {
            r.0@ == "sh"@ && r.1@ == "/bin/sh"@
        },
{
    if str_eq(os_kind, "Windows") {
        return (owned("Windows PowerShell"), owned("powershell.exe"));
    }
    if bash_exists[0] {
        (owned("bash"), owned("/bin/bash"))
    } else if bash_exists[1] {
        (owned("bash"), owned("/usr/bin/bash"))
    } else if bash_exists[2] {
        (owned("bash"), owned("/usr/local/bin/bash"))
    } else {
        (owned("sh"), owned("/bin/sh"))
    }
}

} // verus!
