use vstd::prelude::*;

pub mod agentspec;
pub mod text;
pub mod file_type;
pub mod message;
pub mod flow;
pub mod skill;
pub mod exception;
pub mod paths;
pub mod cli;
pub mod config;
pub mod kimi_cli;
pub mod constant;
pub mod llm;
pub mod mcp;
pub mod metadata;
pub mod soul;
pub mod utils;
pub mod tools;
pub mod wire;
pub mod wire_server;
pub mod json;

verus! {
} // verus!
