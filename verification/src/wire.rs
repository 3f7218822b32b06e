//! The wire between the agent and its user interface: its message types, the answer to an
//! approval request, and the file the messages are recorded in.
use vstd::prelude::*;

use crate::message::ContentPart;
use crate::text::{owned, push_str};

verus! {

/// What the user typed: text, or content parts.
pub enum UserInput {
    Text(String),
    Parts(Vec<ContentPart>),
}

/// A turn ended.
pub struct TurnEnd {}

/// A step began.
pub struct StepBegin {
    pub n: i64,
}

/// A step was interrupted.
pub struct StepInterrupted {}

/// Compaction of the context began.
pub struct CompactionBegin {}

/// Compaction of the context ended.
pub struct CompactionEnd {}

/// How the user answered an approval request.
#[derive(Clone, Copy, Debug, PartialEq, Eq, Structural)]
pub enum ApprovalResponseKind {
    Approve,
    ApproveForSession,
    Reject,
}

/// The answer to an approval request.
pub struct ApprovalResponse {
    pub request_id: String,
    pub response: ApprovalResponseKind,
}

/// The client that connected over the wire.
pub struct ClientInfo {
    pub name: String,
    pub version: Option<String>,
}

/// A wire message that cannot be read.
pub enum WireError {
    UnknownMessageType(String),
    InvalidPayloadType,
    InvalidSubagentEvent(String),
    InvalidEnvelope(String),
    Serde(String),
}

/// The text of a wire error.
pub open spec fn wire_error_text(e: WireError) -> Seq<char> {
    match e {
        WireError::UnknownMessageType(m) => "unknown wire message type: "@ + m@,
        WireError::InvalidPayloadType => "wire message payload must be a JSON object"@,
        WireError::InvalidSubagentEvent(m) => "invalid subagent event: "@ + m@,
        WireError::InvalidEnvelope(m) => "invalid wire envelope: "@ + m@,
        WireError::Serde(m) => "serialization error: "@ + m@,
    }
}

impl WireError {
    /// The text of the error.
    pub fn to_message(&self) -> (r: String)
        ensures
            r@ == wire_error_text(*self),
    {
        let (prefix, m) = match self {
            WireError::UnknownMessageType(m) => ("unknown wire message type: ", m.as_str()),
            WireError::InvalidPayloadType => ("wire message payload must be a JSON object", ""),
            WireError::InvalidSubagentEvent(m) => ("invalid subagent event: ", m.as_str()),
            WireError::InvalidEnvelope(m) => ("invalid wire envelope: ", m.as_str()),
            WireError::Serde(m) => ("serialization error: ", m.as_str()),
        };
        proof {
            reveal_strlit("");
        }
        let mut s = owned(prefix);
        push_str(&mut s, m);
        s
    }
}

/// An answer that can be given once: the first answer stays.
pub struct PendingResponse<T> {
    value: Option<T>,
}

impl<T> PendingResponse<T> {
    /// The answer given, if any.
    pub closed spec fn answer(&self) -> Option<T> {
        self.value
    }

    /// No answer yet.
    pub fn new() -> (r: PendingResponse<T>)
        ensures
            r.answer() is None,
    {
        PendingResponse { value: None }
    }

    /// Gives the answer, unless one was given already.
    pub fn resolve(&mut self, value: T)
        ensures
            final(self).answer() == if old(self).answer() is None {
                Some(value)
            } else {
                old(self).answer()
            },
    {
        if self.value.is_none() {
            self.value = Some(value);
        }
    }

    /// Whether an answer was given.
    pub fn resolved(&self) -> (r: bool)
        ensures
            r == self.answer() is Some,
    {
        self.value.is_some()
    }
}

/// A request is answered once: a second answer does not replace the first.
pub proof fn lemma_first_answer_stays<T>(a: T, b: T, p0: PendingResponse<T>, p1: PendingResponse<T>, p2: PendingResponse<T>)
    requires
        p0.answer() is None,
        p1.answer() == (if p0.answer() is None { Some(a) } else { p0.answer() }),
        p2.answer() == (if p1.answer() is None { Some(b) } else { p1.answer() }),
    ensures
        p2.answer() == Some(a),
{
}

/// The first line of a wire file: its kind and the protocol version.
pub struct WireFileMetadata {
    pub kind: String,
    pub protocol_version: String,
}

impl WireFileMetadata {
    /// The header for a protocol version.
    pub fn new(protocol_version: &str) -> (r: WireFileMetadata)
        ensures
            r.kind@ == "metadata"@,
            r.protocol_version@ == protocol_version@,
    {
        WireFileMetadata { kind: owned("metadata"), protocol_version: owned(protocol_version) }
    }

    /// Whether a parsed line is a header: its kind is `metadata`.
    pub fn is_header(&self) -> (r: bool)
        ensures
            r == (self.kind@ == "metadata"@),
    {
        crate::text::str_eq(self.kind.as_str(), "metadata")
    }
}

/// The protocol version of a wire file: the current one for a new file; for an existing file
/// the version its header gives, or the legacy one when it has none.
pub fn protocol_version_for(exists: bool, header_version: Option<String>, current: &str, legacy: &str) -> (r: String)
    ensures
        r@ == (if !exists {
            current@
        } else {
            match header_version {
                Some(v) => v@,
                None => legacy@,
            }
        }),
{
    if !exists {
        owned(current)
    } else {
        match header_version {
            Some(v) => v,
            None => owned(legacy),
        }
    }
}

/// The file the wire's messages are recorded in, and its protocol version.
pub struct WireFile {
    path: String,
    protocol_version: String,
}

impl WireFile {
    /// The file at a path, with the protocol version it is written in.
    pub fn new(path: String, protocol_version: String) -> (r: WireFile)
        ensures
            r.path_view() == path@,
            r.version_view() == protocol_version@,
    {
        WireFile { path, protocol_version }
    }

    /// Opens the record of a wire at a path: a file that does not exist yet is written in the
    /// current protocol version; one that exists keeps the version its first non-blank line
    /// (trimmed) declares in a metadata header, else the legacy version.
    pub fn open(path: String, exists: bool, first_line: Option<&str>, current: &str, legacy: &str) -> (r: WireFile)
        ensures
            r.path_view() == path@,
            r.version_view() == crate::json::wire_version_spec(
                exists,
                match first_line {
                    Some(l) => Some(l@),
                    None => None,
                },
                current@,
                legacy@,
            ),
    {
        let protocol_version = crate::json::wire_file_version(exists, first_line, current, legacy);
        WireFile { path, protocol_version }
    }

    /// The file's path.
    pub closed spec fn path_view(&self) -> Seq<char> {
        self.path@
    }

    /// The file's protocol version.
    pub closed spec fn version_view(&self) -> Seq<char> {
        self.protocol_version@
    }

    /// The file's path.
    pub fn path(&self) -> (r: &str)
        ensures
            r@ == self.path_view(),
    {
        self.path.as_str()
    }

    /// The file's protocol version.
    pub fn version(&self) -> (r: &str)
        ensures
            r@ == self.version_view(),
    {
        self.protocol_version.as_str()
    }
}

} // verus!
