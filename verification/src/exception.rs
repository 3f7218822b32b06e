//! The errors that configuration and loading report.
use vstd::prelude::*;

verus! {

/// An error in the configuration.
pub struct ConfigError {
    message: String,
}

impl ConfigError {
    /// The text of the error.
    pub closed spec fn message(&self) -> Seq<char> {
        self.message@
    }

    /// An error with the given message.
    pub fn new(message: String) -> (r: ConfigError)
        ensures
            r.message() == message@,
    {
        ConfigError { message }
    }

    /// The message of the error, as text.
    pub fn to_message(&self) -> (r: String)
        ensures
            r@ == self.message(),
    {
        self.message.clone()
    }
}

/// An error in an agent specification.
pub struct AgentSpecError {
    message: String,
}

impl AgentSpecError {
    /// The text of the error.
    pub closed spec fn message(&self) -> Seq<char> {
        self.message@
    }

    /// An error with the given message.
    pub fn new(message: String) -> (r: AgentSpecError)
        ensures
            r.message() == message@,
    {
        AgentSpecError { message }
    }

    /// The message of the error, as text.
    pub fn to_message(&self) -> (r: String)
        ensures
            r@ == self.message(),
    {
        self.message.clone()
    }
}

/// An error in a system prompt template.
pub struct SystemPromptTemplateError {
    message: String,
}

impl SystemPromptTemplateError {
    /// The text of the error.
    pub closed spec fn message(&self) -> Seq<char> {
        self.message@
    }

    /// An error with the given message.
    pub fn new(message: String) -> (r: SystemPromptTemplateError)
        ensures
            r.message() == message@,
    {
        SystemPromptTemplateError { message }
    }

    /// The message of the error, as text.
    pub fn to_message(&self) -> (r: String)
        ensures
            r@ == self.message(),
    {
        self.message.clone()
    }
}

/// A tool that cannot be loaded.
pub struct InvalidToolError {
    message: String,
}

impl InvalidToolError {
    /// The text of the error.
    pub closed spec fn message(&self) -> Seq<char> {
        self.message@
    }

    /// An error with the given message.
    pub fn new(message: String) -> (r: InvalidToolError)
        ensures
            r.message() == message@,
    {
        InvalidToolError { message }
    }

    /// The message of the error, as text.
    pub fn to_message(&self) -> (r: String)
        ensures
            r@ == self.message(),
    {
        self.message.clone()
    }
}

/// An error in the MCP configuration.
pub struct MCPConfigError {
    message: String,
}

impl MCPConfigError {
    /// The text of the error.
    pub closed spec fn message(&self) -> Seq<char> {
        self.message@
    }

    /// An error with the given message.
    pub fn new(message: String) -> (r: MCPConfigError)
        ensures
            r.message() == message@,
    {
        MCPConfigError { message }
    }

    /// The message of the error, as text.
    pub fn to_message(&self) -> (r: String)
        ensures
            r@ == self.message(),
    {
        self.message.clone()
    }
}

/// An error while running an MCP server.
pub struct MCPRuntimeError {
    message: String,
}

impl MCPRuntimeError {
    /// The text of the error.
    pub closed spec fn message(&self) -> Seq<char> {
        self.message@
    }

    /// An error with the given message.
    pub fn new(message: String) -> (r: MCPRuntimeError)
        ensures
            r.message() == message@,
    {
        MCPRuntimeError { message }
    }

    /// The message of the error, as text.
    pub fn to_message(&self) -> (r: String)
        ensures
            r@ == self.message(),
    {
        self.message.clone()
    }
}

/// The errors that reach the command line, each with the message of its source.
pub enum KimiCliError {
    Config(String),
    AgentSpec(String),
    SystemPromptTemplate(String),
    InvalidTool(String),
    McpConfig(String),
    McpRuntime(String),
}

/// The text shown for an error of the command line.
pub open spec fn cli_error_text(e: KimiCliError) -> Seq<char> {
    match e {
        KimiCliError::Config(m) => "config error: "@ + m@,
        KimiCliError::AgentSpec(m) => "agent spec error: "@ + m@,
        KimiCliError::SystemPromptTemplate(m) => "system prompt template error: "@ + m@,
        KimiCliError::InvalidTool(m) => "invalid tool: "@ + m@,
        KimiCliError::McpConfig(m) => "mcp config error: "@ + m@,
        KimiCliError::McpRuntime(m) => "mcp runtime error: "@ + m@,
    }
}

impl KimiCliError {
    /// The text of the error.
    pub fn to_message(&self) -> (r: String)
        ensures
            r@ == cli_error_text(*self),
    {
        let (prefix, m) = match self {
            KimiCliError::Config(m) => ("config error: ", m),
            KimiCliError::AgentSpec(m) => ("agent spec error: ", m),
            KimiCliError::SystemPromptTemplate(m) => ("system prompt template error: ", m),
            KimiCliError::InvalidTool(m) => ("invalid tool: ", m),
            KimiCliError::McpConfig(m) => ("mcp config error: ", m),
            KimiCliError::McpRuntime(m) => ("mcp runtime error: ", m),
        };
        let mut s = crate::text::owned(prefix);
        crate::text::push_str(&mut s, m.as_str());
        s
    }
}

impl From<ConfigError> for KimiCliError {
    fn from(err: ConfigError) -> (r: KimiCliError) {
        KimiCliError::Config(err.message)
    }
}

impl vstd::std_specs::convert::FromSpecImpl<ConfigError> for KimiCliError {
    open spec fn obeys_from_spec() -> bool {
        true
    }

    closed spec fn from_spec(v: ConfigError) -> KimiCliError {
        KimiCliError::Config(v.message)
    }
}

impl From<AgentSpecError> for KimiCliError {
    fn from(err: AgentSpecError) -> (r: KimiCliError) {
        KimiCliError::AgentSpec(err.message)
    }
}

impl vstd::std_specs::convert::FromSpecImpl<AgentSpecError> for KimiCliError {
    open spec fn obeys_from_spec() -> bool {
        true
    }

    closed spec fn from_spec(v: AgentSpecError) -> KimiCliError {
        KimiCliError::AgentSpec(v.message)
    }
}

impl From<SystemPromptTemplateError> for KimiCliError {
    fn from(err: SystemPromptTemplateError) -> (r: KimiCliError) {
        KimiCliError::SystemPromptTemplate(err.message)
    }
}

impl vstd::std_specs::convert::FromSpecImpl<SystemPromptTemplateError> for KimiCliError {
    open spec fn obeys_from_spec() -> bool {
        true
    }

    closed spec fn from_spec(v: SystemPromptTemplateError) -> KimiCliError {
        KimiCliError::SystemPromptTemplate(v.message)
    }
}

impl From<InvalidToolError> for KimiCliError {
    fn from(err: InvalidToolError) -> (r: KimiCliError) {
        KimiCliError::InvalidTool(err.message)
    }
}

impl vstd::std_specs::convert::FromSpecImpl<InvalidToolError> for KimiCliError {
    open spec fn obeys_from_spec() -> bool {
        true
    }

    closed spec fn from_spec(v: InvalidToolError) -> KimiCliError {
        KimiCliError::InvalidTool(v.message)
    }
}

impl From<MCPConfigError> for KimiCliError {
    fn from(err: MCPConfigError) -> (r: KimiCliError) {
        KimiCliError::McpConfig(err.message)
    }
}

impl vstd::std_specs::convert::FromSpecImpl<MCPConfigError> for KimiCliError {
    open spec fn obeys_from_spec() -> bool {
        true
    }

    closed spec fn from_spec(v: MCPConfigError) -> KimiCliError {
        KimiCliError::McpConfig(v.message)
    }
}

impl From<MCPRuntimeError> for KimiCliError {
    fn from(err: MCPRuntimeError) -> (r: KimiCliError) {
        KimiCliError::McpRuntime(err.message)
    }
}

impl vstd::std_specs::convert::FromSpecImpl<MCPRuntimeError> for KimiCliError {
    open spec fn obeys_from_spec() -> bool {
        true
    }

    closed spec fn from_spec(v: MCPRuntimeError) -> KimiCliError {
        KimiCliError::McpRuntime(v.message)
    }
}

} // verus!
