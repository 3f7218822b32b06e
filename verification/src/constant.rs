//! The program's name, and how it introduces itself to the services it calls.
use vstd::prelude::*;

use crate::text::{owned, push_str};

verus! {

/// The program's name.
pub const NAME: &'static str = "Kimi Code CLI";

/// How the program introduces itself to the services it calls, for a version.
pub fn user_agent(version: &str) -> (r: String)
    ensures
        r@ == "KimiCLI/"@ + version@,
{
    let mut s = owned("KimiCLI/");
    push_str(&mut s, version);
    s
}

} // verus!
