//! The agent's errors, state and bookkeeping.
use vstd::prelude::*;

use crate::config::ModelCapability;
use crate::text::{format_i64, owned, push_str};

pub mod denwarenji;
pub mod approval;
pub mod context;
pub mod compaction;
pub mod kimisoul;
pub mod toolset;

verus! {

/// No model is configured.
pub struct LLMNotSet;

impl LLMNotSet {
    /// The text of the error.
    pub fn to_message(&self) -> (r: String)
        ensures
            r@ == "LLM not set"@,
    {
        owned("LLM not set")
    }
}

/// The name of a capability as the configuration writes it.
pub open spec fn capability_name_spec(c: ModelCapability) -> Seq<char> {
    match c {
        ModelCapability::ImageIn => "image_in"@,
        ModelCapability::VideoIn => "video_in"@,
        ModelCapability::Thinking => "thinking"@,
        ModelCapability::AlwaysThinking => "always_thinking"@,
    }
}

/// The name of a capability as the configuration writes it.
pub fn model_capability_name(capability: &ModelCapability) -> (r: String)
    ensures
        r@ == capability_name_spec(*capability),
{
    match capability {
        ModelCapability::ImageIn => owned("image_in"),
        ModelCapability::VideoIn => owned("video_in"),
        ModelCapability::Thinking => owned("thinking"),
        ModelCapability::AlwaysThinking => owned("always_thinking"),
    }
}

/// The names of capabilities joined by `, `.
pub open spec fn capability_list(cs: Seq<ModelCapability>) -> Seq<char>
    decreases cs.len(),
{
    if cs.len() == 0 {
        Seq::empty()
    } else if cs.len() == 1 {
        capability_name_spec(cs[0])
    } else {
        capability_list(cs.drop_last()) + ", "@ + capability_name_spec(cs.last())
    }
}

/// The model lacks capabilities that the input needs.
pub struct LLMNotSupported {
    pub model_name: String,
    pub capabilities: Vec<ModelCapability>,
}

/// The text of an `LLMNotSupported` error.
pub open spec fn not_supported_text(model: Seq<char>, cs: Seq<ModelCapability>) -> Seq<char> {
    "LLM model '"@ + model + "' does not support required "@ + (if cs.len() == 1 {
        "capability"@
    } else {
        "capabilities"@
    }) + ": "@ + capability_list(cs) + "."@
}

impl LLMNotSupported {
    /// The error for a model and the capabilities it lacks.
    pub fn new(model_name: String, capabilities: Vec<ModelCapability>) -> (r: LLMNotSupported)
        ensures
            r.model_name == model_name,
            r.capabilities == capabilities,
    {
        LLMNotSupported { model_name, capabilities }
    }

    /// The text of the error.
    pub fn to_message(&self) -> (r: String)
        ensures
            r@ == not_supported_text(self.model_name@, self.capabilities@),
    {
        let mut s = owned("LLM model '");
        push_str(&mut s, self.model_name.as_str());
        push_str(&mut s, "' does not support required ");
        if self.capabilities.len() == 1 {
            push_str(&mut s, "capability");
        } else {
            push_str(&mut s, "capabilities");
        }
        push_str(&mut s, ": ");
        let ghost s0 = s@;
        let mut i: usize = 0;
        while i < self.capabilities.len()
            invariant
                i <= self.capabilities@.len(),
                s@ == s0 + capability_list(self.capabilities@.take(i as int)),
            decreases self.capabilities@.len() - i,
        {
            if i > 0 {
                push_str(&mut s, ", ");
            }
            let name = model_capability_name(&self.capabilities[i]);
            push_str(&mut s, name.as_str());
            proof {
                let t = self.capabilities@.take(i + 1);
                assert(t.drop_last() =~= self.capabilities@.take(i as int));
            }
            i = i + 1;
        }
        assert(self.capabilities@.take(self.capabilities@.len() as int) =~= self.capabilities@);
        push_str(&mut s, ".");
        s
    }
}

/// The turn took more steps than allowed.
pub struct MaxStepsReached {
    pub n_steps: i64,
}

impl MaxStepsReached {
    /// The error for a number of steps.
    pub fn new(n_steps: i64) -> (r: MaxStepsReached)
        ensures
            r.n_steps == n_steps,
    {
        MaxStepsReached { n_steps }
    }

    /// The text of the error.
    pub fn to_message(&self) -> (r: String)
        ensures
            r@ == "Max number of steps reached: "@ + crate::text::decimal_int(self.n_steps as int),
    {
        let mut s = owned("Max number of steps reached: ");
        let n = format_i64(self.n_steps);
        push_str(&mut s, n.as_str());
        s
    }
}

/// The run was cancelled.
pub struct RunCancelled;

impl RunCancelled {
    /// The text of the error.
    pub fn to_message(&self) -> (r: String)
        ensures
            r@ == "run cancelled"@,
    {
        owned("run cancelled")
    }
}

} // verus!
