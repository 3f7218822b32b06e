//! Where the MCP configuration and credentials live, and the shape an MCP configuration must
//! have.
use vstd::prelude::*;

use crate::exception::MCPConfigError;
use crate::paths::{join, join_spec};
use crate::text::owned;

verus! {

/// The global MCP configuration file, in the share directory.
pub fn get_global_mcp_config_file(share_dir: &str) -> (r: String)
    ensures
        r@ == join_spec(share_dir@, "mcp.json"@),
{
    join(share_dir, "mcp.json")
}

/// The file that holds the credentials of MCP servers, in the share directory.
pub fn get_mcp_auth_file(share_dir: &str) -> (r: String)
    ensures
        r@ == join_spec(join_spec(share_dir@, "credentials"@), "mcp_auth.json"@),
{
    let dir = join(share_dir, "credentials");
    join(dir.as_str(), "mcp_auth.json")
}

/// The credentials of one MCP server, kept under its URL in a file.
#[derive(Clone, Debug)]
pub struct FileCredentialStore {
    path: String,
    server_key: String,
}

impl FileCredentialStore {
    /// The file the store reads and writes.
    pub closed spec fn path(&self) -> Seq<char> {
        self.path@
    }

    /// The key of the server in the file.
    pub closed spec fn server_key(&self) -> Seq<char> {
        self.server_key@
    }

    /// A store for a server in a file.
    pub fn new(path: String, server_key: String) -> (r: FileCredentialStore)
        ensures
            r.path() == path@,
            r.server_key() == server_key@,
    {
        FileCredentialStore { path, server_key }
    }

    /// The file the store reads and writes.
    pub fn file(&self) -> (r: &String)
        ensures
            r@ == self.path(),
    {
        &self.path
    }

    /// The key of the server in the file.
    pub fn key(&self) -> (r: &String)
        ensures
            r@ == self.server_key(),
    {
        &self.server_key
    }
}

/// The credential store of the server at a URL.
pub fn get_mcp_credential_store(share_dir: &str, server_url: &str) -> (r: FileCredentialStore)
    ensures
        r.path() == join_spec(join_spec(share_dir@, "credentials"@), "mcp_auth.json"@),
        r.server_key() == server_url@,
{
    FileCredentialStore::new(get_mcp_auth_file(share_dir), owned(server_url))
}

/// What an MCP configuration's JSON value is, as far as its check reads it.
pub enum McpConfigShape {
    /// Not an object.
    NotObject,
    /// An object without `mcpServers`.
    NoServers,
    /// An object whose `mcpServers` is, or is not, an object.
    Servers { is_object: bool },
}

/// Checks an MCP configuration: it must be an object whose `mcpServers`, when present, is an
/// object. Returns whether an empty `mcpServers` object must be added.
pub fn ensure_mcp_servers(shape: &McpConfigShape) -> (r: Result<bool, MCPConfigError>)
    ensures
        match shape {
            McpConfigShape::NotObject => r matches Err(e) && e.message() == "MCP config must be a JSON object"@,
            McpConfigShape::NoServers => r == Ok::<bool, MCPConfigError>(true),
            McpConfigShape::Servers { is_object } => if *is_object {
                r == Ok::<bool, MCPConfigError>(false)
            } else {
                r matches Err(e) && e.message() == "mcpServers must be a JSON object"@
            },
        },
{
    match shape {
        McpConfigShape::NotObject => Err(MCPConfigError::new(owned("MCP config must be a JSON object"))),
        McpConfigShape::NoServers => Ok(true),
        McpConfigShape::Servers { is_object } => {
            if *is_object {
                Ok(false)
            } else {
                Err(MCPConfigError::new(owned("mcpServers must be a JSON object")))
            }
        },
    }
}

} // verus!
