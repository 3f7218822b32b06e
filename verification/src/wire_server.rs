//! The decisions of the wire server: how each inbound JSON-RPC line is handled, whether a prompt
//! is taken, what a finished run is answered, and how answers to the server's own requests are
//! read. The reading and writing of lines stays with the caller.
use vstd::prelude::*;

use crate::text::{owned, push_str, str_eq};
use crate::tools::{tool_error, ret_view, error_view, ToolReturnValue};
use crate::wire::ApprovalResponseKind;

verus! {

/// JSON-RPC error code: the line is not JSON.
pub const PARSE_ERROR: i64 = -32700;

/// JSON-RPC error code: the message is not a valid request or response.
pub const INVALID_REQUEST: i64 = -32600;

/// JSON-RPC error code: the method is unknown.
pub const METHOD_NOT_FOUND: i64 = -32601;

/// JSON-RPC error code: the parameters do not fit the method.
pub const INVALID_PARAMS: i64 = -32602;

/// JSON-RPC error code: something failed inside the server.
pub const INTERNAL_ERROR: i64 = -32603;

/// Error code: the request does not fit what the server is doing.
pub const INVALID_STATE: i64 = -32000;

/// Error code: no model is configured.
pub const LLM_NOT_SET: i64 = -32001;

/// Error code: the model cannot take the input.
pub const LLM_NOT_SUPPORTED: i64 = -32002;

/// Error code: the chat provider failed.
pub const CHAT_PROVIDER_ERROR: i64 = -32003;

/// An inbound line as far as its handling depends on it: whether it is JSON, whether it has the
/// shape of a JSON-RPC message, whether it looks like a response (an id and no method), and the
/// fields read from it.
pub struct InboundMessage {
    pub json_ok: bool,
    pub shape_ok: bool,
    pub response_hint: bool,
    pub jsonrpc: Option<String>,
    pub method: Option<String>,
    pub id: Option<String>,
    pub has_result: bool,
    pub has_error: bool,
}

/// What to do with an inbound message.
pub enum InboundAction {
    /// Answer with an error that carries no id.
    ErrorWithoutId { code: i64, message: String },
    /// Answer the request with this id with an error.
    ErrorTo { id: String, code: i64, message: String },
    /// Hand the response with this id to the request that waits for it.
    Response { id: String },
    /// Run the method `initialize`.
    Initialize,
    /// Run the method `prompt`.
    Prompt,
    /// Run the method `cancel`.
    Cancel,
    /// Nothing to do: a notification the server does not know.
    Ignore,
}

/// The plain view of an action: its kind (0 error without id, 1 error to an id, 2 response,
/// 3 initialize, 4 prompt, 5 cancel, 6 ignore), its id, code and message.
pub open spec fn action_view(a: InboundAction) -> (nat, Seq<char>, i64, Seq<char>) {
    match a {
        InboundAction::ErrorWithoutId { code, message } => (0, Seq::empty(), code, message@),
        InboundAction::ErrorTo { id, code, message } => (1, id@, code, message@),
        InboundAction::Response { id } => (2, id@, 0, Seq::empty()),
        InboundAction::Initialize => (3, Seq::empty(), 0, Seq::empty()),
        InboundAction::Prompt => (4, Seq::empty(), 0, Seq::empty()),
        InboundAction::Cancel => (5, Seq::empty(), 0, Seq::empty()),
        InboundAction::Ignore => (6, Seq::empty(), 0, Seq::empty()),
    }
}

/// How an inbound message is handled: a line that is not JSON, or not a JSON-RPC message, or
/// of another protocol version, is answered with an error without id; a response (an id and
/// no method) needs a result or an error; the methods `initialize`, `prompt` and `cancel` run;
/// any other method is answered as not found when it has an id, and ignored when it has none.
pub open spec fn inbound_spec(m: InboundMessage) -> (nat, Seq<char>, i64, Seq<char>) {
    if !m.json_ok {
        (0, Seq::empty(), PARSE_ERROR, "Invalid JSON format"@)
    } else if !m.shape_ok {
        (0, Seq::empty(), INVALID_REQUEST, if m.response_hint { "Invalid response"@ } else { "Invalid request"@ })
    } else if m.jsonrpc matches Some(v) && v@ != "2.0"@ {
        (0, Seq::empty(), INVALID_REQUEST, "Invalid request"@)
    } else if m.method is None && m.id is Some {
        if !m.has_result && !m.has_error {
            (0, Seq::empty(), INVALID_REQUEST, "Invalid response"@)
        } else {
            (2, m.id->Some_0@, 0, Seq::empty())
        }
    } else {
        match m.method {
            None => (6, Seq::empty(), 0, Seq::empty()),
            Some(name) => if name@ == "initialize"@ {
                (3, Seq::empty(), 0, Seq::empty())
            } else if name@ == "prompt"@ {
                (4, Seq::empty(), 0, Seq::empty())
            } else if name@ == "cancel"@ {
                (5, Seq::empty(), 0, Seq::empty())
            } else {
                match m.id {
                    Some(id) => (1, id@, METHOD_NOT_FOUND, "Unexpected method received: "@ + name@),
                    None => (6, Seq::empty(), 0, Seq::empty()),
                }
            },
        }
    }
}

/// Decides how an inbound message is handled.
pub fn classify_inbound(msg: &InboundMessage) -> (r: InboundAction)
    ensures
        action_view(r) == inbound_spec(*msg),
{
    if !msg.json_ok {
        return InboundAction::ErrorWithoutId { code: PARSE_ERROR, message: owned("Invalid JSON format") };
    }
    if !msg.shape_ok {
        let m = if msg.response_hint {
            owned("Invalid response")
        } else {
            owned("Invalid request")
        };
        return InboundAction::ErrorWithoutId { code: INVALID_REQUEST, message: m };
    }
    if let Some(v) = &msg.jsonrpc {
        if !str_eq(v.as_str(), "2.0") {
            return InboundAction::ErrorWithoutId { code: INVALID_REQUEST, message: owned("Invalid request") };
        }
    }
    if msg.method.is_none() {
        if let Some(id) = &msg.id {
            if !msg.has_result && !msg.has_error {
                return InboundAction::ErrorWithoutId { code: INVALID_REQUEST, message: owned("Invalid response") };
            }
            return InboundAction::Response { id: id.clone() };
        }
        return InboundAction::Ignore;
    }
    let name = match &msg.method {
        Some(n) => n,
        None => {
            return InboundAction::Ignore;
        },
    };
    if str_eq(name.as_str(), "initialize") {
        InboundAction::Initialize
    } else if str_eq(name.as_str(), "prompt") {
        InboundAction::Prompt
    } else if str_eq(name.as_str(), "cancel") {
        InboundAction::Cancel
    } else {
        match &msg.id {
            Some(id) => {
                let mut m = owned("Unexpected method received: ");
                push_str(&mut m, name.as_str());
                InboundAction::ErrorTo { id: id.clone(), code: METHOD_NOT_FOUND, message: m }
            },
            None => InboundAction::Ignore,
        }
    }
}

/// Whether a prompt is taken: refused while a turn runs, or when its parameters do not fit;
/// the refusal's code and message.
pub fn prompt_admission(busy: bool, params_ok: bool) -> (r: Option<(i64, String)>)
    ensures
        busy ==> (r matches Some((c, m)) && c == INVALID_STATE && m@ == "An agent turn is already in progress"@),
        !busy && !params_ok ==> (r matches Some((c, m)) && c == INVALID_PARAMS && m@
            == "Invalid parameters for method `prompt`"@),
        !busy && params_ok ==> r is None,
{
    if busy {
        Some((INVALID_STATE, owned("An agent turn is already in progress")))
    } else if !params_ok {
        Some((INVALID_PARAMS, owned("Invalid parameters for method `prompt`")))
    } else {
        None
    }
}

/// Whether `initialize` is taken: refused while a turn runs, or when its parameters do not fit.
pub fn initialize_admission(busy: bool, params_ok: bool) -> (r: Option<(i64, String)>)
    ensures
        busy ==> (r matches Some((c, m)) && c == INVALID_STATE && m@ == "An agent turn is already in progress"@),
        !busy && !params_ok ==> (r matches Some((c, m)) && c == INVALID_PARAMS && m@
            == "Invalid parameters for method `initialize`"@),
        !busy && params_ok ==> r is None,
{
    if busy {
        Some((INVALID_STATE, owned("An agent turn is already in progress")))
    } else if !params_ok {
        Some((INVALID_PARAMS, owned("Invalid parameters for method `initialize`")))
    } else {
        None
    }
}

/// Whether `cancel` is taken: refused when no turn runs.
pub fn cancel_admission(running: bool) -> (r: Option<(i64, String)>)
    ensures
        !running ==> (r matches Some((c, m)) && c == INVALID_STATE && m@ == "No agent turn is in progress"@),
        running ==> r is None,
{
    if running {
        None
    } else {
        Some((INVALID_STATE, owned("No agent turn is in progress")))
    }
}

/// How a run of the agent ended.
pub enum RunOutcome {
    Finished,
    LlmNotSet,
    LlmNotSupported(String),
    ChatProviderError(String),
    MaxStepsReached(i64),
    Cancelled,
    Failed(String),
}

/// The answer to a prompt: a status (with the steps taken when it ran out of them), or an error.
pub enum PromptReply {
    Status { status: String, steps: Option<i64> },
    Error { code: i64, message: String },
}

/// The plain view of a reply: whether it is an error, its status or message, its code, and
/// its steps.
pub open spec fn reply_view(r: PromptReply) -> (bool, Seq<char>, i64, Option<i64>) {
    match r {
        PromptReply::Status { status, steps } => (false, status@, 0, steps),
        PromptReply::Error { code, message } => (true, message@, code, None),
    }
}

/// The answer to a prompt whose run ended: `finished`, `cancelled` and `max_steps_reached` (with
/// the steps) are statuses; a missing model, an unsupported model and a provider failure have
/// codes of their own; anything else is an internal error.
pub open spec fn outcome_reply(o: RunOutcome) -> (bool, Seq<char>, i64, Option<i64>) {
    match o {
        RunOutcome::Finished => (false, "finished"@, 0, None),
        RunOutcome::LlmNotSet => (true, "LLM is not set"@, LLM_NOT_SET, None),
        RunOutcome::LlmNotSupported(m) => (true, m@, LLM_NOT_SUPPORTED, None),
        RunOutcome::ChatProviderError(m) => (true, m@, CHAT_PROVIDER_ERROR, None),
        RunOutcome::MaxStepsReached(n) => (false, "max_steps_reached"@, 0, Some(n)),
        RunOutcome::Cancelled => (false, "cancelled"@, 0, None),
        RunOutcome::Failed(m) => (true, m@, INTERNAL_ERROR, None),
    }
}

/// The answer to a prompt whose run ended.
pub fn run_outcome_reply(o: RunOutcome) -> (r: PromptReply)
    ensures
        reply_view(r) == outcome_reply(o),
{
    match o {
        RunOutcome::Finished => PromptReply::Status { status: owned("finished"), steps: None },
        RunOutcome::LlmNotSet => PromptReply::Error { code: LLM_NOT_SET, message: owned("LLM is not set") },
        RunOutcome::LlmNotSupported(m) => PromptReply::Error { code: LLM_NOT_SUPPORTED, message: m },
        RunOutcome::ChatProviderError(m) => PromptReply::Error { code: CHAT_PROVIDER_ERROR, message: m },
        RunOutcome::MaxStepsReached(n) => PromptReply::Status { status: owned("max_steps_reached"), steps: Some(n) },
        RunOutcome::Cancelled => PromptReply::Status { status: owned("cancelled"), steps: None },
        RunOutcome::Failed(m) => PromptReply::Error { code: INTERNAL_ERROR, message: m },
    }
}

/// The answer an approval request gets from the client's response: a rejection when the
/// response is an error or its result cannot be read, else the answer it gives.
pub fn approval_answer(has_error: bool, parsed: Option<ApprovalResponseKind>) -> (r: ApprovalResponseKind)
    ensures
        r == if has_error {
            ApprovalResponseKind::Reject
        } else {
            match parsed {
                Some(k) => k,
                None => ApprovalResponseKind::Reject,
            }
        },
{
    if has_error {
        return ApprovalResponseKind::Reject;
    }
    match parsed {
        Some(k) => k,
        None => ApprovalResponseKind::Reject,
    }
}

/// The result an external tool call gets from the client's response: the client's error as a
/// tool error, the result it returned, or an error when the result cannot be read.
pub fn tool_call_answer(error_message: Option<String>, parsed: Option<ToolReturnValue>) -> (r: ToolReturnValue)
    ensures
        error_message matches Some(m) ==> ret_view(r) == error_view(""@, m@, "External tool error"@),
        error_message is None ==> match parsed {
            Some(v) => r == v,
            None => ret_view(r) == error_view(""@, "Invalid tool result payload from client."@, "Invalid tool result"@),
        },
{
    match error_message {
        Some(m) => tool_error("", m.as_str(), "External tool error"),
        None => match parsed {
            Some(v) => v,
            None => tool_error("", "Invalid tool result payload from client.", "Invalid tool result"),
        },
    }
}

/// Takes the pending request with an id out of the table: the first entry with that id, the
/// others kept in order; `None` when no request waits for it.
pub fn take_pending<T>(pending: &mut Vec<(String, T)>, id: &str) -> (r: Option<T>)
    ensures
        match r {
            Some(v) => exists|i: int| {
                &&& 0 <= i < old(pending)@.len()
                &&& old(pending)@[i].0@ == id@
                &&& old(pending)@[i].1 == v
                &&& forall|j: int| 0 <= j < i ==> old(pending)@[j].0@ != id@
                &&& final(pending)@ == old(pending)@.remove(i)
            },
            None => final(pending)@ == old(pending)@ && forall|j: int| 0 <= j < old(pending)@.len() ==> old(
                pending,
            )@[j].0@ != id@,
        },
{
    let mut i: usize = 0;
    while i < pending.len()
        invariant
            i <= pending@.len(),
            pending@ == old(pending)@,
            forall|j: int| 0 <= j < i ==> pending@[j].0@ != id@,
        decreases pending@.len() - i,
    {
        if str_eq(pending[i].0.as_str(), id) {
            let ghost before = pending@;
            let (_, v) = pending.remove(i);
            assert(before[i as int].1 == v);
            return Some(v);
        }
        i = i + 1;
    }
    None
}

} // verus!
