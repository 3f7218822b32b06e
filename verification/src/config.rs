//! The configuration: providers, models, loop limits and services.
use vstd::prelude::*;

use crate::exception::ConfigError;
use crate::text::{owned, push_str};

verus! {

/// The kind of API a provider speaks.
#[derive(Clone, Copy, Debug, PartialEq, Eq, Structural)]
pub enum ProviderType {
    Kimi,
    OpenaiLegacy,
    OpenaiResponses,
    Anthropic,
    GoogleGenai,
    Gemini,
    Vertexai,
    Echo,
    ScriptedEcho,
    Chaos,
}

/// What a model can do beyond text.
#[derive(Clone, Copy, Debug, PartialEq, Eq, Structural)]
pub enum ModelCapability {
    ImageIn,
    VideoIn,
    Thinking,
    AlwaysThinking,
}

/// A provider of models, with its endpoint and credentials.
pub struct LLMProvider {
    pub provider_type: ProviderType,
    pub base_url: String,
    pub api_key: String,
    pub env: Option<Vec<(String, String)>>,
    pub custom_headers: Option<Vec<(String, String)>>,
}

/// A model served by a provider.
pub struct LLMModel {
    pub provider: String,
    pub model: String,
    pub max_context_size: i64,
    pub capabilities: Option<Vec<ModelCapability>>,
}

/// Limits on the agent loop.
#[derive(Clone, Copy, Debug, PartialEq, Eq, Structural)]
pub struct LoopControl {
    pub max_steps_per_turn: i64,
    pub max_retries_per_step: i64,
    pub max_ralph_iterations: i64,
    pub reserved_context_size: i64,
}

/// How many steps a turn may take unless configured.
pub fn default_max_steps_per_turn() -> (r: i64)
    ensures
        r == 100,
{
    100
}

/// How many times a step is retried unless configured.
pub fn default_max_retries_per_step() -> (r: i64)
    ensures
        r == 3,
{
    3
}

/// How many extra iterations the loop runs unless configured.
pub fn default_max_ralph_iterations() -> (r: i64)
    ensures
        r == 0,
{
    0
}

/// How much of the context is kept free unless configured.
pub fn default_reserved_context_size() -> (r: i64)
    ensures
        r == 50_000,
{
    50_000
}

/// How long an MCP tool call may take, in milliseconds, unless configured.
pub fn default_mcp_tool_timeout() -> (r: i64)
    ensures
        r == 60_000,
{
    60_000
}

impl Default for LoopControl {
    fn default() -> (r: LoopControl)
        ensures
            r == (LoopControl {
                max_steps_per_turn: 100,
                max_retries_per_step: 3,
                max_ralph_iterations: 0,
                reserved_context_size: 50_000,
            }),
    {
        LoopControl {
            max_steps_per_turn: default_max_steps_per_turn(),
            max_retries_per_step: default_max_retries_per_step(),
            max_ralph_iterations: default_max_ralph_iterations(),
            reserved_context_size: default_reserved_context_size(),
        }
    }
}

/// The first limit that a loop configuration breaks, as a message.
pub open spec fn loop_control_error(lc: LoopControl) -> Option<Seq<char>> {
    if lc.max_steps_per_turn < 1 {
        Some("max_steps_per_turn must be >= 1"@)
    } else if lc.max_retries_per_step < 1 {
        Some("max_retries_per_step must be >= 1"@)
    } else if lc.max_ralph_iterations < -1 {
        Some("max_ralph_iterations must be >= -1"@)
    } else if lc.reserved_context_size < 1000 {
        Some("reserved_context_size must be >= 1000"@)
    } else {
        None
    }
}

impl LoopControl {
    /// Checks the limits: at least one step and one retry, at least -1 extra iterations, and at
    /// least 1000 tokens reserved.
    pub fn validate(&self) -> (r: Result<(), ConfigError>)
        ensures
            match loop_control_error(*self) {
                None => r is Ok,
                Some(m) => r is Err && r->Err_0.message() == m,
            },
    {
        if self.max_steps_per_turn < 1 {
            return Err(ConfigError::new(owned("max_steps_per_turn must be >= 1")));
        }
        if self.max_retries_per_step < 1 {
            return Err(ConfigError::new(owned("max_retries_per_step must be >= 1")));
        }
        if self.max_ralph_iterations < -1 {
            return Err(ConfigError::new(owned("max_ralph_iterations must be >= -1")));
        }
        if self.reserved_context_size < 1000 {
            return Err(ConfigError::new(owned("reserved_context_size must be >= 1000")));
        }
        Ok(())
    }
}

/// The web search service.
pub struct MoonshotSearchConfig {
    pub base_url: String,
    pub api_key: String,
    pub custom_headers: Option<Vec<(String, String)>>,
}

/// The web fetch service.
pub struct MoonshotFetchConfig {
    pub base_url: String,
    pub api_key: String,
    pub custom_headers: Option<Vec<(String, String)>>,
}

/// The services the tools may call.
pub struct Services {
    pub moonshot_search: Option<MoonshotSearchConfig>,
    pub moonshot_fetch: Option<MoonshotFetchConfig>,
}

impl Default for Services {
    fn default() -> (r: Services)
        ensures
            r.moonshot_search is None,
            r.moonshot_fetch is None,
    {
        Services { moonshot_search: None, moonshot_fetch: None }
    }
}

/// Settings of the MCP client.
#[derive(Clone, Copy, Debug, PartialEq, Eq, Structural)]
pub struct MCPClientConfig {
    pub tool_call_timeout_ms: i64,
}

impl Default for MCPClientConfig {
    fn default() -> (r: MCPClientConfig)
        ensures
            r.tool_call_timeout_ms == 60_000,
    {
        MCPClientConfig { tool_call_timeout_ms: default_mcp_tool_timeout() }
    }
}

/// Settings of MCP.
#[derive(Clone, Copy, Debug, PartialEq, Eq, Structural)]
pub struct MCPConfig {
    pub client: MCPClientConfig,
}

impl Default for MCPConfig {
    fn default() -> (r: MCPConfig)
        ensures
            r.client.tool_call_timeout_ms == 60_000,
    {
        MCPConfig { client: MCPClientConfig::default() }
    }
}

/// The whole configuration. Models and providers are keyed by name.
pub struct Config {
    pub is_from_default_location: bool,
    pub default_model: String,
    pub default_thinking: bool,
    pub models: Vec<(String, LLMModel)>,
    pub providers: Vec<(String, LLMProvider)>,
    pub loop_control: LoopControl,
    pub services: Services,
    pub mcp: MCPConfig,
}

/// Whether `k` is one of the names of `entries`.
pub open spec fn has_key<V>(entries: Seq<(String, V)>, k: Seq<char>) -> bool {
    exists|i: int| 0 <= i < entries.len() && #[trigger] entries[i].0@ == k
}

/// The index of the first model, from index `i` on, whose provider is not configured.
pub open spec fn first_unknown_provider(c: Config, i: int) -> Option<int>
    decreases c.models@.len() - i,
{
    if i < 0 || i >= c.models@.len() {
        None
    } else if !has_key(c.providers@, c.models@[i].1.provider@) {
        Some(i)
    } else {
        first_unknown_provider(c, i + 1)
    }
}

/// The first thing wrong with a configuration, as a message.
pub open spec fn config_error(c: Config) -> Option<Seq<char>> {
    match loop_control_error(c.loop_control) {
        Some(m) => Some(m),
        None => if c.default_model@.len() > 0 && !has_key(c.models@, c.default_model@) {
            Some("Default model "@ + c.default_model@ + " not found in models"@)
        } else {
            match first_unknown_provider(c, 0) {
                Some(i) => Some("Provider "@ + c.models@[i].1.provider@ + " not found in providers"@),
                None => None,
            }
        },
    }
}

fn find_key<V>(entries: &Vec<(String, V)>, k: &str) -> (r: bool)
    ensures
        r == has_key(entries@, k@),
{
    let mut i: usize = 0;
    while i < entries.len()
        invariant
            i <= entries@.len(),
            forall|j: int| 0 <= j < i ==> entries@[j].0@ != k@,
        decreases entries@.len() - i,
    {
        if crate::text::str_eq(entries[i].0.as_str(), k) {
            return true;
        }
        i = i + 1;
    }
    false
}

impl Config {
    /// Checks the loop limits, that the default model (when set) is configured, and that every
    /// model's provider is configured; the first failure is reported.
    pub fn validate(&self) -> (r: Result<(), ConfigError>)
        ensures
            match config_error(*self) {
                None => r is Ok,
                Some(m) => r is Err && r->Err_0.message() == m,
            },
    {
        match self.loop_control.validate() {
            Ok(_) => {},
            Err(e) => {
                return Err(e);
            },
        }
        if !self.default_model.as_str().is_empty() && !find_key(&self.models, self.default_model.as_str()) {
            let mut s = owned("Default model ");
            push_str(&mut s, self.default_model.as_str());
            push_str(&mut s, " not found in models");
            return Err(ConfigError::new(s));
        }
        let mut i: usize = 0;
        while i < self.models.len()
            invariant
                i <= self.models@.len(),
                loop_control_error(self.loop_control) is None,
                !(self.default_model@.len() > 0 && !has_key(self.models@, self.default_model@)),
                first_unknown_provider(*self, 0) == first_unknown_provider(*self, i as int),
            decreases self.models@.len() - i,
        {
            if !find_key(&self.providers, self.models[i].1.provider.as_str()) {
                let mut s = owned("Provider ");
                push_str(&mut s, self.models[i].1.provider.as_str());
                push_str(&mut s, " not found in providers");
                return Err(ConfigError::new(s));
            }
            i = i + 1;
        }
        Ok(())
    }
}

/// A configuration with no models or providers and the default limits.
pub fn get_default_config() -> (r: Config)
    ensures
        !r.is_from_default_location,
        r.default_model@.len() == 0,
        !r.default_thinking,
        r.models@.len() == 0,
        r.providers@.len() == 0,
        r.loop_control == (LoopControl {
            max_steps_per_turn: 100,
            max_retries_per_step: 3,
            max_ralph_iterations: 0,
            reserved_context_size: 50_000,
        }),
        r.services.moonshot_search is None,
        r.services.moonshot_fetch is None,
        r.mcp.client.tool_call_timeout_ms == 60_000,
{
    Config {
        is_from_default_location: false,
        default_model: String::new(),
        default_thinking: false,
        models: Vec::new(),
        providers: Vec::new(),
        loop_control: LoopControl::default(),
        services: Services::default(),
        mcp: MCPConfig::default(),
    }
}

/// The configuration file in the share directory.
pub fn get_config_file(share_dir: &str) -> (r: String)
    ensures
        r@ == crate::paths::join_spec(share_dir@, "config.toml"@),
{
    crate::paths::join(share_dir, "config.toml")
}

/// The error of configuration text that failed, with the reason after a common prefix.
pub open spec fn config_text_error(reason: Seq<char>) -> Seq<char> {
    "Invalid configuration text: "@ + reason
}

/// Finishes loading configuration text: blank text is refused; text that did not parse is
/// refused with the parsers' reason; a parsed configuration is marked as not coming from the
/// default location and must pass its checks.
pub fn finish_config_load(text_blank: bool, parsed: Result<Config, String>) -> (r: Result<Config, ConfigError>)
    ensures
        text_blank ==> (r matches Err(e) && e.message() == "Configuration text cannot be empty"@),
        !text_blank ==> match parsed {
            Err(m) => r matches Err(e) && e.message() == config_text_error(m@),
            Ok(c) => match config_error(Config { is_from_default_location: false, ..c }) {
                Some(m) => r matches Err(e) && e.message() == config_text_error(m),
                None => r matches Ok(c2) && c2 == (Config { is_from_default_location: false, ..c }),
            },
        },
{
    if text_blank {
        return Err(ConfigError::new(owned("Configuration text cannot be empty")));
    }
    match parsed {
        Err(m) => {
            let mut s = owned("Invalid configuration text: ");
            push_str(&mut s, m.as_str());
            Err(ConfigError::new(s))
        },
        Ok(mut c) => {
            c.is_from_default_location = false;
            match c.validate() {
                Err(e) => {
                    let mut s = owned("Invalid configuration text: ");
                    let t = e.to_message();
                    push_str(&mut s, t.as_str());
                    Err(ConfigError::new(s))
                },
                Ok(()) => Ok(c),
            }
        },
    }
}

} // verus!
