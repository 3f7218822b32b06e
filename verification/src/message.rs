//! The chat messages that the agent keeps: roles, content parts and their text rendering.
use vstd::prelude::*;

use crate::text::{owned, push_str};

verus! {

/// Who a message is from.
#[derive(Clone, Copy, Debug, PartialEq, Eq, Structural)]
pub enum Role {
    System,
    User,
    Assistant,
    Tool,
}

/// One part of a message's content.
#[derive(Clone, Debug)]
pub enum ContentPart {
    Text(String),
    ImageUrl { url: String, id: Option<String> },
    AudioUrl { url: String, id: Option<String> },
    VideoUrl { url: String, id: Option<String> },
    Think(String),
}

/// A message of the conversation.
#[derive(Clone, Debug)]
pub struct Message {
    pub role: Role,
    pub content: Vec<ContentPart>,
    pub tool_call_id: Option<String>,
}

/// The text of a `<system>` note.
pub open spec fn system_text(message: Seq<char>) -> Seq<char> {
    "<system>"@ + message + "</system>"@
}

/// A text part that carries a system note.
pub fn system(message: &str) -> (r: ContentPart)
    ensures
        r matches ContentPart::Text(t) && t@ == system_text(message@),
{
    let mut s = owned("<system>");
    push_str(&mut s, message);
    push_str(&mut s, "</system>");
    ContentPart::Text(s)
}

/// The view of a content part: its kind (0 text, 1 image, 2 audio, 3 video, 4 thinking) and
/// its text or URL.
pub open spec fn part_view(p: ContentPart) -> (nat, Seq<char>) {
    match p {
        ContentPart::Text(t) => (0, t@),
        ContentPart::ImageUrl { url, .. } => (1, url@),
        ContentPart::AudioUrl { url, .. } => (2, url@),
        ContentPart::VideoUrl { url, .. } => (3, url@),
        ContentPart::Think(t) => (4, t@),
    }
}

/// The id of a media part, which `part_view` leaves out; text and thinking have none.
pub open spec fn part_id(p: ContentPart) -> Option<Seq<char>> {
    match p {
        ContentPart::ImageUrl { id, .. } => match id {
            Some(x) => Some(x@),
            None => None,
        },
        ContentPart::AudioUrl { id, .. } => match id {
            Some(x) => Some(x@),
            None => None,
        },
        ContentPart::VideoUrl { id, .. } => match id {
            Some(x) => Some(x@),
            None => None,
        },
        _ => None,
    }
}

/// The ids of content parts.
pub open spec fn parts_ids(ps: Seq<ContentPart>) -> Seq<Option<Seq<char>>> {
    ps.map_values(|p: ContentPart| part_id(p))
}

/// The ids of the parts a tool output gives.
pub open spec fn output_ids(o: crate::tools::ToolOutput) -> Seq<Option<Seq<char>>> {
    match o {
        crate::tools::ToolOutput::Text(t) => if t@.len() > 0 {
            seq![None]
        } else {
            Seq::empty()
        },
        crate::tools::ToolOutput::Parts(ps) => parts_ids(ps@),
    }
}

/// The views of content parts.
pub open spec fn parts_view(ps: Seq<ContentPart>) -> Seq<(nat, Seq<char>)> {
    ps.map_values(|p: ContentPart| part_view(p))
}

/// The result of a tool call, addressed to the call.
pub struct ToolResult {
    pub tool_call_id: String,
    pub return_value: crate::tools::ToolReturnValue,
}

/// Whether the blocks say the tool itself failed.
pub open spec fn runtime_error_shown(bs: Seq<(nat, Seq<char>, Seq<char>, Seq<char>)>) -> bool {
    exists|i: int| 0 <= i < bs.len() && #[trigger] bs[i].0 == 0 && bs[i].1 == "Tool runtime error"@
}

fn is_tool_runtime_error(display: &Vec<crate::tools::DisplayBlock>) -> (r: bool)
    ensures
        r == runtime_error_shown(crate::tools::blocks_view(display@)),
{
    let ghost bv = crate::tools::blocks_view(display@);
    let mut i: usize = 0;
    while i < display.len()
        invariant
            i <= display@.len(),
            bv == crate::tools::blocks_view(display@),
            forall|k: int| 0 <= k < i ==> !(#[trigger] bv[k].0 == 0 && bv[k].1 == "Tool runtime error"@),
        decreases display@.len() - i,
    {
        match &display[i] {
            crate::tools::DisplayBlock::Brief(t) => {
                if crate::text::str_eq(t.as_str(), "Tool runtime error") {
                    assert(bv[i as int].0 == 0 && bv[i as int].1 == "Tool runtime error"@);
                    return true;
                }
            },
            _ => {},
        }
        i = i + 1;
    }
    false
}

/// The parts of the message a tool result becomes.
pub open spec fn tool_result_parts(is_error: bool, message: Seq<char>, out: Seq<(nat, Seq<char>)>, runtime_error: bool) -> Seq<(nat, Seq<char>)> {
    if is_error {
        let m = if runtime_error && message.len() > 0 {
            message + "\nThis is an unexpected error and the tool is probably not working."@
        } else {
            message
        };
        (if m.len() > 0 {
            seq![(0nat, system_text("ERROR: "@ + m))]
        } else {
            Seq::empty()
        }) + out
    } else {
        let parts = (if message.len() > 0 {
            seq![(0nat, system_text(message))]
        } else {
            Seq::empty()
        }) + out;
        if parts.len() == 0 {
            seq![(0nat, system_text("Tool output is empty."@))]
        } else {
            parts
        }
    }
}

fn copy_id(id: &Option<String>) -> (r: Option<String>)
    ensures
        match r {
            Some(x) => id matches Some(y) && x@ == y@,
            None => id is None,
        },
{
    match id {
        Some(x) => Some(x.clone()),
        None => None,
    }
}

fn copy_part(p: &ContentPart) -> (r: ContentPart)
    ensures
        part_view(r) == part_view(*p),
        part_id(r) == part_id(*p),
{
    match p {
        ContentPart::Text(t) => ContentPart::Text(t.clone()),
        ContentPart::ImageUrl { url, id } => ContentPart::ImageUrl { url: url.clone(), id: copy_id(id) },
        ContentPart::AudioUrl { url, id } => ContentPart::AudioUrl { url: url.clone(), id: copy_id(id) },
        ContentPart::VideoUrl { url, id } => ContentPart::VideoUrl { url: url.clone(), id: copy_id(id) },
        ContentPart::Think(t) => ContentPart::Think(t.clone()),
    }
}

fn append_output(content: &mut Vec<ContentPart>, output: &crate::tools::ToolOutput)
    ensures
        parts_view(final(content)@) == parts_view(old(content)@) + crate::tools::output_parts(*output),
        parts_ids(final(content)@) == parts_ids(old(content)@) + output_ids(*output),
{
    match output {
        crate::tools::ToolOutput::Text(t) => {
            if !t.as_str().is_empty() {
                let ghost c0 = content@;
                content.push(ContentPart::Text(t.clone()));
                assert(parts_view(content@) =~= parts_view(c0) + crate::tools::output_parts(*output));
                assert(parts_ids(content@) =~= parts_ids(c0) + output_ids(*output));
            } else {
                assert(parts_view(content@) =~= parts_view(content@) + Seq::<(nat, Seq<char>)>::empty());
                assert(parts_ids(content@) =~= parts_ids(content@) + Seq::<Option<Seq<char>>>::empty());
            }
        },
        crate::tools::ToolOutput::Parts(ps) => {
            let ghost c0 = content@;
            let mut i: usize = 0;
            while i < ps.len()
                invariant
                    i <= ps@.len(),
                    parts_view(content@) == parts_view(c0) + parts_view(ps@).take(i as int),
                    parts_ids(content@) == parts_ids(c0) + parts_ids(ps@).take(i as int),
                decreases ps@.len() - i,
            {
                let ghost cb = content@;
                content.push(copy_part(&ps[i]));
                assert(parts_view(content@) =~= parts_view(cb).push(part_view(ps@[i as int])));
                assert(parts_view(ps@).take(i + 1) =~= parts_view(ps@).take(i as int).push(part_view(ps@[i as int])));
                assert(parts_ids(content@) =~= parts_ids(cb).push(part_id(ps@[i as int])));
                assert(parts_ids(ps@).take(i + 1) =~= parts_ids(ps@).take(i as int).push(part_id(ps@[i as int])));
                i = i + 1;
            }
            assert(parts_view(ps@).take(ps@.len() as int) =~= parts_view(ps@));
            assert(parts_ids(ps@).take(ps@.len() as int) =~= parts_ids(ps@));
        },
    }
}

/// The tool message that carries a tool result back to the model: an error note or the
/// message as a system note, then the output; an empty success says so.
pub fn tool_result_to_message(tool_result: &ToolResult) -> (r: Message)
    ensures
        r.role == Role::Tool,
        r.tool_call_id matches Some(id) && id@ == tool_result.tool_call_id@,
        parts_view(r.content@) == tool_result_parts(
            tool_result.return_value.is_error,
            tool_result.return_value.message@,
            crate::tools::output_parts(tool_result.return_value.output),
            runtime_error_shown(crate::tools::blocks_view(tool_result.return_value.display@)),
        ),
        r.content@.len() >= output_ids(tool_result.return_value.output).len(),
        parts_ids(r.content@) == Seq::new(
            (r.content@.len() - output_ids(tool_result.return_value.output).len()) as nat,
            |i: int| None::<Seq<char>>,
        ) + output_ids(tool_result.return_value.output),
{
    let rv = &tool_result.return_value;
    let mut content: Vec<ContentPart> = Vec::new();
    if rv.is_error {
        let mut m = rv.message.clone();
        let rt = is_tool_runtime_error(&rv.display);
        if rt && !m.as_str().is_empty() {
            push_str(&mut m, "\nThis is an unexpected error and the tool is probably not working.");
        }
        if !m.as_str().is_empty() {
            let mut e = owned("ERROR: ");
            push_str(&mut e, m.as_str());
            content.push(system(e.as_str()));
        }
    } else {
        if !rv.message.as_str().is_empty() {
            content.push(system(rv.message.as_str()));
        }
    }
    let ghost rt_shown = runtime_error_shown(crate::tools::blocks_view(rv.display@));
    let ghost m_eff = if rv.is_error && rt_shown && rv.message@.len() > 0 {
        rv.message@ + "\nThis is an unexpected error and the tool is probably not working."@
    } else {
        rv.message@
    };
    assert(parts_view(content@) =~= (if m_eff.len() > 0 {
        seq![(0nat, system_text(if rv.is_error { "ERROR: "@ + m_eff } else { m_eff }))]
    } else {
        Seq::<(nat, Seq<char>)>::empty()
    }));
    let ghost notes = parts_view(content@);
    assert(parts_ids(content@) =~= Seq::new(content@.len() as nat, |i: int| None::<Seq<char>>));
    let ghost n0 = content@.len();
    append_output(&mut content, &rv.output);
    assert(content@.len() == n0 + output_ids(rv.output).len()) by {
        assert(parts_ids(content@).len() == content@.len());
    }
    assert(parts_view(content@) == notes + crate::tools::output_parts(rv.output));
    if !rv.is_error && content.len() == 0 {
        let ghost c0 = content@;
        content.push(system("Tool output is empty."));
        assert(parts_ids(content@) =~= Seq::new(1nat, |i: int| None::<Seq<char>>));
        assert(parts_view(content@) =~= seq![(0nat, system_text("Tool output is empty."@))]);
    }
    assert(parts_view(content@) =~= tool_result_parts(
        rv.is_error,
        rv.message@,
        crate::tools::output_parts(rv.output),
        runtime_error_shown(crate::tools::blocks_view(rv.display@)),
    ));
    Message { role: Role::Tool, content, tool_call_id: Some(tool_result.tool_call_id.clone()) }
}

/// The capabilities a part needs: images, videos, thinking.
pub open spec fn needs(parts: Seq<(nat, Seq<char>)>, c: crate::config::ModelCapability) -> bool {
    exists|i: int| 0 <= i < parts.len() && #[trigger] parts[i].0 == match c {
        crate::config::ModelCapability::ImageIn => 1nat,
        crate::config::ModelCapability::VideoIn => 3nat,
        crate::config::ModelCapability::Thinking => 4nat,
        crate::config::ModelCapability::AlwaysThinking => 5nat,
    }
}

fn has_part_kind(content: &Vec<ContentPart>, kind: u8) -> (r: bool)
    ensures
        r == exists|i: int| 0 <= i < content@.len() && #[trigger] parts_view(content@)[i].0 == kind as nat,
{
    let mut i: usize = 0;
    while i < content.len()
        invariant
            i <= content@.len(),
            forall|k: int| 0 <= k < i ==> #[trigger] parts_view(content@)[k].0 != kind as nat,
        decreases content@.len() - i,
    {
        let k: u8 = match &content[i] {
            ContentPart::Text(_) => 0,
            ContentPart::ImageUrl { .. } => 1,
            ContentPart::AudioUrl { .. } => 2,
            ContentPart::VideoUrl { .. } => 3,
            ContentPart::Think(_) => 4,
        };
        if k == kind {
            assert(parts_view(content@)[i as int].0 == kind as nat);
            return true;
        }
        i = i + 1;
    }
    false
}

fn contains_capability(caps: &Vec<crate::config::ModelCapability>, c: crate::config::ModelCapability) -> (r: bool)
    ensures
        r == caps@.contains(c),
{
    let mut i: usize = 0;
    while i < caps.len()
        invariant
            i <= caps@.len(),
            forall|k: int| 0 <= k < i ==> caps@[k] != c,
        decreases caps@.len() - i,
    {
        if caps[i] == c {
            assert(caps@[i as int] == c);
            return true;
        }
        i = i + 1;
    }
    false
}

/// The capabilities a message needs that the model does not have: image input for images,
/// video input for videos, thinking for thinking parts; each once, in that order.
pub fn check_message(message: &Message, model_capabilities: &Vec<crate::config::ModelCapability>) -> (r: Vec<
    crate::config::ModelCapability,
>)
    ensures
        forall|c: crate::config::ModelCapability| #[trigger] r@.contains(c) <==> needs(parts_view(message.content@), c)
            && !model_capabilities@.contains(c),
        r@.no_duplicates(),
{
    let mut out: Vec<crate::config::ModelCapability> = Vec::new();
    let ghost pv = parts_view(message.content@);
    let b1 = has_part_kind(&message.content, 1) && !contains_capability(model_capabilities, crate::config::ModelCapability::ImageIn);
    let b2 = has_part_kind(&message.content, 3) && !contains_capability(model_capabilities, crate::config::ModelCapability::VideoIn);
    let b3 = has_part_kind(&message.content, 4) && !contains_capability(model_capabilities, crate::config::ModelCapability::Thinking);
    if b1 {
        out.push(crate::config::ModelCapability::ImageIn);
    }
    if b2 {
        out.push(crate::config::ModelCapability::VideoIn);
    }
    if b3 {
        out.push(crate::config::ModelCapability::Thinking);
    }
    proof {
        let s1: Seq<crate::config::ModelCapability> = if b1 { seq![crate::config::ModelCapability::ImageIn] } else { Seq::empty() };
        let s2: Seq<crate::config::ModelCapability> = if b2 { seq![crate::config::ModelCapability::VideoIn] } else { Seq::empty() };
        let s3: Seq<crate::config::ModelCapability> = if b3 { seq![crate::config::ModelCapability::Thinking] } else { Seq::empty() };
        assert(out@ =~= s1 + s2 + s3);
        assert forall|c: crate::config::ModelCapability| #[trigger] out@.contains(c) <==> needs(pv, c)
            && !model_capabilities@.contains(c) by {
            if out@.contains(c) {
                let k = choose|k: int| 0 <= k < out@.len() && out@[k] == c;
                assert((s1 + s2 + s3)[k] == c);
            }
            match c {
                crate::config::ModelCapability::ImageIn => {
                    if b1 {
                        assert(out@[0] == c);
                    }
                },
                crate::config::ModelCapability::VideoIn => {
                    if b2 {
                        assert(out@[s1.len() as int] == c);
                    }
                },
                crate::config::ModelCapability::Thinking => {
                    if b3 {
                        assert(out@[(s1.len() + s2.len()) as int] == c);
                    }
                },
                crate::config::ModelCapability::AlwaysThinking => {
                    if needs(pv, c) {
                        let i = choose|i: int| 0 <= i < pv.len() && #[trigger] pv[i].0 == 5nat;
                        assert(pv[i].0 <= 4);
                    }
                },
            }
        }
    }
    out
}

/// The text a message renders to: text as it is, media and thinking as bracketed tags.
pub open spec fn stringify_parts(ps: Seq<ContentPart>) -> Seq<char>
    decreases ps.len(),
{
    if ps.len() == 0 {
        Seq::empty()
    } else {
        stringify_parts(ps.drop_last()) + match ps.last() {
            ContentPart::Text(t) => t@,
            ContentPart::ImageUrl { .. } => "[image]"@,
            ContentPart::AudioUrl { id, .. } => match id {
                Some(v) => "[audio:"@ + v@ + "]"@,
                None => "[audio]"@,
            },
            ContentPart::VideoUrl { .. } => "[video]"@,
            ContentPart::Think(_) => "[think]"@,
        }
    }
}

/// The text a message renders to, for display and for compaction.
pub fn message_stringify(message: &Message) -> (r: String)
    ensures
        r@ == stringify_parts(message.content@),
{
    let mut out = String::new();
    let mut i: usize = 0;
    while i < message.content.len()
        invariant
            i <= message.content@.len(),
            out@ == stringify_parts(message.content@.take(i as int)),
        decreases message.content@.len() - i,
    {
        match &message.content[i] {
            ContentPart::Text(t) => push_str(&mut out, t.as_str()),
            ContentPart::ImageUrl { .. } => push_str(&mut out, "[image]"),
            ContentPart::AudioUrl { id, .. } => match id {
                Some(v) => {
                    push_str(&mut out, "[audio:");
                    push_str(&mut out, v.as_str());
                    push_str(&mut out, "]");
                },
                None => push_str(&mut out, "[audio]"),
            },
            ContentPart::VideoUrl { .. } => push_str(&mut out, "[video]"),
            ContentPart::Think(_) => push_str(&mut out, "[think]"),
        }
        proof {
            let t = message.content@.take(i + 1);
            assert(t.drop_last() =~= message.content@.take(i as int));
        }
        i = i + 1;
    }
    assert(message.content@.take(message.content@.len() as int) =~= message.content@);
    out
}

} // verus!
