# kagent

The verified core of a coding agent that talks to its user interface over a JSON-RPC "wire"
protocol. The library in `src/` holds the agent's logic with contracts that Verus proves:

- `flow/`: Mermaid and D2 flow charts of flow skills, parsed and validated (one BEGIN, one
  END reachable from it, distinct labels on branches).
- `soul/`: the context and its checkpoints, D-Mail, approvals, compaction, the toolset's
  names and MCP server states, and the decisions of the agent loop and of flow runs.
- `tools/`: the tools' logic — file reading and editing, glob and grep results, shell
  results, media files, web search and page extraction.
- `wire.rs`, `wire_server.rs`: wire messages and the server's handling of each inbound
  message.
- `json.rs`: JSON text read into values; the MCP configuration check and the protocol
  version of a wire file.
- `cli.rs`, `config.rs`, `kimi_cli.rs`, `llm.rs`, `agentspec.rs`, `metadata.rs`, `skill.rs`:
  options, configuration, model selection, agent specs, session metadata and skills.

Calls into outside crates (regex, similar, scraper, html2md, url, md5, base64, uuid, rand,
serde_json)
stand behind small trusted wrappers whose contracts are stated in their doc comments.

`app/` is the program around the library: option parsing, file system and process work, and
the wire server's loop over stdin and stdout. `tests/` runs the library on concrete inputs.
