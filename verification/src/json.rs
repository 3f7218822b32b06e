//! JSON text read into values, and the checks that read JSON: the MCP configuration and the
//! header line of a wire file.
use vstd::prelude::*;

use crate::exception::MCPConfigError;
use crate::text::{owned, push_str, str_eq};
use crate::tools::html::JsonValue;

verus! {

/// `serde_json::Value`, carried from the parser to the conversion.
#[verifier::external_type_specification]
#[verifier::external_body]
pub struct ExJson(serde_json::Value);

/// What `serde_json` reads from a text: a value, or the text of its error.
pub uninterp spec fn json_of(text: Seq<char>) -> Result<JsonValue, Seq<char>>;

/// The same value as a `JsonValue`: each variant of `serde_json::Value` becomes the variant of
/// the same name, one for one, numbers as `serde_json` writes them.
#[verifier::external_body]
fn from_serde(v: &serde_json::Value) -> JsonValue {
    match v {
        serde_json::Value::String(s) => JsonValue::Str(s.clone()),
        serde_json::Value::Array(items) => JsonValue::Array(items.iter().map(from_serde).collect()),
        serde_json::Value::Object(map) => JsonValue::Object(map.iter().map(|(k, x)| (k.clone(), from_serde(x))).collect()),
        serde_json::Value::Number(n) => JsonValue::Number(n.to_string()),
        serde_json::Value::Bool(b) => JsonValue::Bool(*b),
        serde_json::Value::Null => JsonValue::Null,
    }
}

/// `serde_json::from_str::<serde_json::Value>(text)`: the value the text holds, or the text of
/// the parser's error; the result is a function of the text.
#[verifier::external_body]
pub fn parse_json(text: &str) -> (r: Result<JsonValue, String>)
    ensures
        match r {
            Ok(v) => json_of(text@) == Ok::<JsonValue, Seq<char>>(v),
            Err(e) => json_of(text@) == Err::<JsonValue, Seq<char>>(e@),
        },
{
    match serde_json::from_str::<serde_json::Value>(text) {
        Ok(v) => Ok(from_serde(&v)),
        Err(e) => Err(e.to_string()),
    }
}

/// The value an object holds under a key: its first entry with that key.
pub open spec fn entry_of(entries: Seq<(String, JsonValue)>, key: Seq<char>) -> Option<JsonValue>
    decreases entries.len(),
{
    if entries.len() == 0 {
        None
    } else if entries[0].0@ == key {
        Some(entries[0].1)
    } else {
        entry_of(entries.drop_first(), key)
    }
}

fn find_entry(entries: &Vec<(String, JsonValue)>, key: &str) -> (r: Option<usize>)
    ensures
        match r {
            Some(i) => i < entries@.len() && entry_of(entries@, key@) == Some(entries@[i as int].1),
            None => entry_of(entries@, key@) is None,
        },
{
    let mut i: usize = 0;
    assert(entries@.skip(0) =~= entries@);
    while i < entries.len()
        invariant
            i <= entries@.len(),
            entry_of(entries@, key@) == entry_of(entries@.skip(i as int), key@),
        decreases entries@.len() - i,
    {
        assert(entries@.skip(i as int).drop_first() =~= entries@.skip(i + 1));
        if str_eq(entries[i].0.as_str(), key) {
            return Some(i);
        }
        i = i + 1;
    }
    None
}

/// Reads an MCP configuration from JSON text: it must be an object whose `mcpServers`, when
/// present, is an object; an empty `mcpServers` object is added when it is missing.
pub fn load_mcp_config_string(text: &str) -> (r: Result<JsonValue, MCPConfigError>)
    ensures
        match json_of(text@) {
            Err(e) => r matches Err(x) && x.message() == "Invalid JSON: "@ + e,
            Ok(JsonValue::Object(entries)) => match entry_of(entries@, "mcpServers"@) {
                None => r matches Ok(JsonValue::Object(es)) && es@.len() == entries@.len() + 1 && es@.take(
                    entries@.len() as int,
                ) == entries@ && es@.last().0@ == "mcpServers"@ && (es@.last().1 matches JsonValue::Object(m)
                    && m@.len() == 0),
                Some(JsonValue::Object(_)) => r matches Ok(v) && v == JsonValue::Object(entries),
                Some(_) => r matches Err(x) && x.message() == "mcpServers must be a JSON object"@,
            },
            Ok(_) => r matches Err(x) && x.message() == "MCP config must be a JSON object"@,
        },
{
    let value = match parse_json(text) {
        Err(e) => {
            let mut m = owned("Invalid JSON: ");
            push_str(&mut m, e.as_str());
            return Err(MCPConfigError::new(m));
        },
        Ok(v) => v,
    };
    match value {
        JsonValue::Object(mut entries) => {
            match find_entry(&entries, "mcpServers") {
                None => {
                    let ghost e0 = entries@;
                    let empty: Vec<(String, JsonValue)> = Vec::new();
                    entries.push((owned("mcpServers"), JsonValue::Object(empty)));
                    assert(entries@.take(e0.len() as int) =~= e0);
                    Ok(JsonValue::Object(entries))
                },
                Some(i) => {
                    let is_object = match &entries[i].1 {
                        JsonValue::Object(_) => true,
                        _ => false,
                    };
                    if is_object {
                        Ok(JsonValue::Object(entries))
                    } else {
                        Err(MCPConfigError::new(owned("mcpServers must be a JSON object")))
                    }
                },
            }
        },
        _ => Err(MCPConfigError::new(owned("MCP config must be a JSON object"))),
    }
}

/// The protocol version a wire file is written in: the current one for a file that does not
/// exist; for one that does, the version its first non-blank line gives when that line is a
/// metadata header (`type` is `metadata`, with a string `protocol_version`), else the legacy
/// one.
pub open spec fn wire_version_spec(exists: bool, first_line: Option<Seq<char>>, current: Seq<char>, legacy: Seq<char>) -> Seq<char> {
    if !exists {
        current
    } else {
        match first_line {
            None => legacy,
            Some(line) => match json_of(line) {
                Ok(JsonValue::Object(entries)) => match (entry_of(entries@, "type"@), entry_of(entries@, "protocol_version"@)) {
                    (Some(JsonValue::Str(k)), Some(JsonValue::Str(v))) => if k@ == "metadata"@ {
                        v@
                    } else {
                        legacy
                    },
                    _ => legacy,
                },
                _ => legacy,
            },
        }
    }
}

/// Decides the protocol version of a wire file from whether it exists and its first non-blank
/// line.
pub fn wire_file_version(exists: bool, first_line: Option<&str>, current: &str, legacy: &str) -> (r: String)
    ensures
        r@ == wire_version_spec(
            exists,
            match first_line {
                Some(l) => Some(l@),
                None => None,
            },
            current@,
            legacy@,
        ),
{
    if !exists {
        return owned(current);
    }
    let line = match first_line {
        None => {
            return owned(legacy);
        },
        Some(l) => l,
    };
    match parse_json(line) {
        Ok(JsonValue::Object(entries)) => {
            let k = find_entry(&entries, "type");
            let v = find_entry(&entries, "protocol_version");
            match (k, v) {
                (Some(a), Some(b)) => match (&entries[a].1, &entries[b].1) {
                    (JsonValue::Str(ks), JsonValue::Str(vs)) => {
                        if str_eq(ks.as_str(), "metadata") {
                            vs.clone()
                        } else {
                            owned(legacy)
                        }
                    },
                    _ => owned(legacy),
                },
                _ => owned(legacy),
            }
        },
        _ => owned(legacy),
    }
}

} // verus!
