//! The toolset's rules: which names are built-in tools, when an external tool may join, and
//! how MCP servers are configured and start out.
use vstd::prelude::*;

use crate::exception::InvalidToolError;
use crate::text::{owned, push_str, str_eq};
use crate::utils::slashcmd::strings_view;

verus! {

/// Where an MCP server stands.
#[derive(Clone, Copy, Debug, PartialEq, Eq, Structural)]
pub enum McpServerStatus {
    Pending,
    Connecting,
    Connected,
    Failed,
    Unauthorized,
}

/// An MCP server run as a local process.
pub struct StdioServerConfig {
    pub command: String,
    pub args: Vec<String>,
    pub env: Option<Vec<(String, String)>>,
}

/// An MCP server reached over HTTP.
pub struct HttpServerConfig {
    pub url: String,
    pub transport: Option<String>,
    pub headers: Option<Vec<(String, String)>>,
    pub auth: Option<String>,
}

/// How to reach an MCP server.
pub enum McpServerConfig {
    Stdio(StdioServerConfig),
    Http(HttpServerConfig),
}

/// Whether a server logs in with OAuth.
pub open spec fn oauth_server(c: McpServerConfig) -> bool {
    c matches McpServerConfig::Http(h) && (h.auth matches Some(a) && a@ == "oauth"@)
}

/// Whether a server logs in with OAuth.
pub fn needs_oauth(config: &McpServerConfig) -> (r: bool)
    ensures
        r == oauth_server(*config),
{
    match config {
        McpServerConfig::Http(h) => match &h.auth {
            Some(a) => str_eq(a.as_str(), "oauth"),
            None => false,
        },
        McpServerConfig::Stdio(_) => false,
    }
}

/// How a configured server starts out: unauthorized when it needs OAuth tokens it does not
/// have, else pending until it is connected.
pub fn initial_status(config: &McpServerConfig, has_tokens: bool) -> (r: McpServerStatus)
    ensures
        r == if oauth_server(*config) && !has_tokens {
            McpServerStatus::Unauthorized
        } else {
            McpServerStatus::Pending
        },
{
    if needs_oauth(config) && !has_tokens {
        McpServerStatus::Unauthorized
    } else {
        McpServerStatus::Pending
    }
}

/// Accepts the HTTP transports the client speaks: none named, `http` or `streamable-http`.
pub fn normalize_http_transport(transport: &Option<String>) -> (r: Result<(), String>)
    ensures
        match transport {
            None => r is Ok,
            Some(t) => if t@ == "http"@ || t@ == "streamable-http"@ {
                r is Ok
            } else {
                r matches Err(m) && m@ == "Unsupported transport: "@ + t@
            },
        },
{
    match transport {
        None => Ok(()),
        Some(t) => {
            if str_eq(t.as_str(), "http") || str_eq(t.as_str(), "streamable-http") {
                Ok(())
            } else {
                let mut m = owned("Unsupported transport: ");
                push_str(&mut m, t.as_str());
                Err(m)
            }
        },
    }
}

fn contains_name(v: &Vec<String>, name: &str) -> (r: bool)
    ensures
        r == strings_view(v@).contains(name@),
{
    let mut i: usize = 0;
    while i < v.len()
        invariant
            i <= v@.len(),
            forall|k: int| 0 <= k < i ==> strings_view(v@)[k] != name@,
        decreases v@.len() - i,
    {
        if str_eq(v[i].as_str(), name) {
            assert(strings_view(v@)[i as int] == name@);
            return true;
        }
        i = i + 1;
    }
    false
}

/// The names of the toolset's tools, and which of them the client registered.
pub struct ToolNames {
    pub tools: Vec<String>,
    pub external: Vec<String>,
}

/// Whether a name is a tool of the toolset's own.
pub open spec fn builtin(tools: Seq<Seq<char>>, external: Seq<Seq<char>>, name: Seq<char>) -> bool {
    tools.contains(name) && !external.contains(name)
}

impl ToolNames {
    /// No tools.
    pub fn new() -> (r: ToolNames)
        ensures
            r.tools@.len() == 0,
            r.external@.len() == 0,
    {
        ToolNames { tools: Vec::new(), external: Vec::new() }
    }

    /// Whether a name is a tool of the toolset's own, not one the client registered.
    pub fn has_builtin_tool(&self, name: &str) -> (r: bool)
        ensures
            r == builtin(strings_view(self.tools@), strings_view(self.external@), name@),
    {
        contains_name(&self.tools, name) && !contains_name(&self.external, name)
    }

    /// Registers a tool of the client's, unless its name is one of the toolset's own tools.
    pub fn register_external_tool(&mut self, name: &str) -> (r: Result<(), String>)
        ensures
            builtin(strings_view(old(self).tools@), strings_view(old(self).external@), name@) ==> (r matches Err(m)
                && m@ == "tool name conflicts with existing tool"@ && *final(self) == *old(self)),
            !builtin(strings_view(old(self).tools@), strings_view(old(self).external@), name@) ==> {
                &&& r is Ok
                &&& strings_view(final(self).tools@).contains(name@)
                &&& strings_view(final(self).external@).contains(name@)
                &&& forall|n: Seq<char>| #[trigger] builtin(strings_view(final(self).tools@), strings_view(final(self).external@), n)
                    <==> builtin(strings_view(old(self).tools@), strings_view(old(self).external@), n) && n != name@
            },
    {
        if self.has_builtin_tool(name) {
            return Err(owned("tool name conflicts with existing tool"));
        }
        let ghost t0 = strings_view(self.tools@);
        let ghost e0 = strings_view(self.external@);
        if !contains_name(&self.tools, name) {
            self.tools.push(owned(name));
        }
        self.external.push(owned(name));
        proof {
            assert(strings_view(self.external@) =~= e0.push(name@));
            assert(strings_view(self.tools@).contains(name@)) by {
                if !t0.contains(name@) {
                    assert(strings_view(self.tools@) =~= t0.push(name@));
                    assert(strings_view(self.tools@)[t0.len() as int] == name@);
                }
            }
            assert forall|n: Seq<char>| #[trigger] strings_view(self.tools@).contains(n) <==> t0.contains(n) || n == name@ by {
                if !t0.contains(name@) {
                    assert(strings_view(self.tools@) =~= t0.push(name@));
                    if strings_view(self.tools@).contains(n) && n != name@ {
                        let k = choose|k: int| 0 <= k < strings_view(self.tools@).len() && strings_view(self.tools@)[k] == n;
                        assert(t0[k] == n);
                    }
                    if t0.contains(n) {
                        let k = choose|k: int| 0 <= k < t0.len() && t0[k] == n;
                        assert(strings_view(self.tools@)[k] == n);
                    }
                }
            }
            assert forall|n: Seq<char>| #[trigger] strings_view(self.external@).contains(n) <==> e0.contains(n) || n == name@ by {
                if strings_view(self.external@).contains(n) && n != name@ {
                    let k = choose|k: int| 0 <= k < strings_view(self.external@).len() && strings_view(self.external@)[k] == n;
                    assert(e0[k] == n);
                }
                if e0.contains(n) {
                    let k = choose|k: int| 0 <= k < e0.len() && e0[k] == n;
                    assert(strings_view(self.external@)[k] == n);
                }
                if n == name@ {
                    assert(strings_view(self.external@)[e0.len() as int] == n);
                }
            }
        }
        Ok(())
    }
}

/// The error for tool paths that could not be loaded, listed as a debug list of strings.
pub fn invalid_tools_error(bad_tools: &Vec<String>) -> (r: Option<InvalidToolError>)
    ensures
        bad_tools@.len() == 0 <==> r is None,
        r matches Some(e) ==> e.message() == "Invalid tools: "@ + crate::text::debug_strings(strings_view(bad_tools@)),
{
    if bad_tools.len() == 0 {
        return None;
    }
    let mut m = owned("Invalid tools: ");
    let list = crate::text::format_debug_strings(bad_tools);
    push_str(&mut m, list.as_str());
    Some(InvalidToolError::new(m))
}

/// How a tool call is handled before the tool runs.
pub enum ToolDispatch {
    /// No tool has the called name.
    NotFound,
    /// The arguments are not JSON; the parser's error.
    BadJson(String),
    /// The tool's parameter schema cannot be compiled; the compiler's error.
    BadSchema(String),
    /// The arguments do not fit the schema; the validator's error.
    InvalidArguments(String),
    /// The tool runs with the arguments.
    Run,
}

/// The arguments a tool call carries: its text, or `{}` when it has none.
pub fn call_arguments(arguments: &Option<String>) -> (r: String)
    ensures
        r@ == match arguments {
            Some(a) => a@,
            None => "{}"@,
        },
{
    match arguments {
        Some(a) => a.clone(),
        None => owned("{}"),
    }
}

/// Decides how a tool call is handled: an unknown tool, arguments that are not JSON, a schema
/// that cannot be compiled and arguments that break it are answered at once, in that order;
/// otherwise the tool runs. The outcomes of the lookup, the parse, the compilation and the
/// validation are given.
pub fn dispatch_tool_call(
    known: bool,
    parsed: Result<(), String>,
    compiled: Result<(), String>,
    validated: Result<(), String>,
) -> (r: ToolDispatch)
    ensures
        !known ==> r is NotFound,
        known && parsed is Err ==> (r matches ToolDispatch::BadJson(m) && m == parsed->Err_0),
        known && parsed is Ok && compiled is Err ==> (r matches ToolDispatch::BadSchema(m) && m == compiled->Err_0),
        known && parsed is Ok && compiled is Ok && validated is Err ==> (r matches ToolDispatch::InvalidArguments(m) && m
            == validated->Err_0),
        known && parsed is Ok && compiled is Ok && validated is Ok ==> r is Run,
{
    if !known {
        return ToolDispatch::NotFound;
    }
    if let Err(m) = parsed {
        return ToolDispatch::BadJson(m);
    }
    if let Err(m) = compiled {
        return ToolDispatch::BadSchema(m);
    }
    if let Err(m) = validated {
        return ToolDispatch::InvalidArguments(m);
    }
    ToolDispatch::Run
}

} // verus!
