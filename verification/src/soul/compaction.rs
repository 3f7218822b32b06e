//! Compaction of the context: which messages are kept as they are, the message that asks the
//! model to sum up the rest, and the context that the summary gives.
use vstd::prelude::*;

use crate::message::{system, system_text, ContentPart, Message, Role};
use crate::soul::context::{copy_message, copy_part, msg_view, msgs_view, part_full_view, MsgV};
use crate::text::{decimal, format_usize, owned, push_str};

verus! {

/// Compacts all but the last few user and assistant messages.
pub struct SimpleCompaction {
    pub max_preserved_messages: usize,
}

/// What compaction prepares: the message that asks for a summary, if there is anything to sum
/// up, and the messages kept as they are.
pub struct PrepareResult {
    pub compact_message: Option<Message>,
    pub to_preserve: Vec<Message>,
}

/// The view of a part: kind, text or URL, and id.
pub type PartV = (nat, Seq<char>, Option<Seq<char>>);

/// Whether a message is part of the conversation proper: from the user or the assistant.
pub open spec fn is_conv(m: MsgV) -> bool {
    m.0 == Role::User || m.0 == Role::Assistant
}

/// Scanning back from index `j`, with `seen` conversation messages after it, the index where
/// the `k`-th conversation message from the end stands.
pub open spec fn start_scan(ms: Seq<MsgV>, k: nat, j: int, seen: nat) -> Option<int>
    decreases j,
{
    if j <= 0 {
        None
    } else {
        let i = j - 1;
        let s2: nat = if is_conv(ms[i]) {
            seen + 1
        } else {
            seen
        };
        if is_conv(ms[i]) && s2 == k {
            Some(i)
        } else {
            start_scan(ms, k, i, s2)
        }
    }
}

/// Where the kept messages start: at the `k`-th user or assistant message from the end.
pub open spec fn preserve_start(ms: Seq<MsgV>, k: nat) -> Option<int> {
    start_scan(ms, k, ms.len() as int, 0)
}

/// The number of user and assistant messages.
pub open spec fn conv_count(ms: Seq<MsgV>) -> nat
    decreases ms.len(),
{
    if ms.len() == 0 {
        0
    } else {
        (if is_conv(ms[0]) {
            1nat
        } else {
            0nat
        }) + conv_count(ms.drop_first())
    }
}

proof fn lemma_start_scan_count(ms: Seq<MsgV>, k: nat, j: int, seen: nat)
    requires
        0 <= j <= ms.len(),
        seen < k,
        seen == conv_count(ms.subrange(j, ms.len() as int)),
    ensures
        match start_scan(ms, k, j, seen) {
            Some(i) => 0 <= i < j && is_conv(ms[i]) && conv_count(ms.skip(i)) == k,
            None => conv_count(ms) < k,
        },
    decreases j,
{
    if j <= 0 {
        assert(ms.subrange(0, ms.len() as int) =~= ms);
    } else {
        let i = j - 1;
        assert(ms.subrange(i, ms.len() as int).drop_first() =~= ms.subrange(j, ms.len() as int));
        let s2: nat = if is_conv(ms[i]) {
            seen + 1
        } else {
            seen
        };
        if is_conv(ms[i]) && s2 == k {
            assert(ms.skip(i) =~= ms.subrange(i, ms.len() as int));
        } else {
            lemma_start_scan_count(ms, k, i, s2);
        }
    }
}

/// Compaction keeps exactly the last `k` user and assistant messages: the kept part starts at
/// such a message and holds `k` of them; when there is no such start, fewer than `k` exist.
pub proof fn lemma_keeps_last_conversation(ms: Seq<MsgV>, k: nat)
    requires
        k > 0,
    ensures
        match preserve_start(ms, k) {
            Some(s) => 0 <= s < ms.len() && is_conv(ms[s]) && conv_count(ms.skip(s)) == k,
            None => conv_count(ms) < k,
        },
{
    assert(ms.subrange(ms.len() as int, ms.len() as int) =~= Seq::<MsgV>::empty());
    lemma_start_scan_count(ms, k, ms.len() as int, 0);
}

/// The name of a role.
pub open spec fn role_label(r: Role) -> Seq<char> {
    match r {
        Role::System => "system"@,
        Role::User => "user"@,
        Role::Assistant => "assistant"@,
        Role::Tool => "tool"@,
    }
}

/// The heading of the `n`-th message to sum up.
pub open spec fn heading(n: nat, r: Role) -> Seq<char> {
    "## Message "@ + decimal(n) + "\nRole: "@ + role_label(r) + "\nContent:\n"@
}

/// The parts of a message other than thinking.
pub open spec fn without_thinking(ps: Seq<PartV>) -> Seq<PartV> {
    ps.filter(|p: PartV| p.0 != 4)
}

/// The parts that present messages to sum up: for each, its heading, then its parts other than
/// thinking.
pub open spec fn compact_parts(ms: Seq<MsgV>) -> Seq<PartV>
    decreases ms.len(),
{
    if ms.len() == 0 {
        Seq::empty()
    } else {
        compact_parts(ms.drop_last()) + seq![(0nat, heading(ms.len(), ms.last().0), None::<Seq<char>>)]
            + without_thinking(ms.last().1)
    }
}

/// The message that asks the model to sum up messages.
pub open spec fn compact_request(ms: Seq<MsgV>, prompt: Seq<char>) -> MsgV {
    (Role::User, compact_parts(ms) + seq![(0nat, "\n"@ + prompt, None::<Seq<char>>)], None)
}

fn role_name(r: Role) -> (s: String)
    ensures
        s@ == role_label(r),
{
    match r {
        Role::System => owned("system"),
        Role::User => owned("user"),
        Role::Assistant => owned("assistant"),
        Role::Tool => owned("tool"),
    }
}

fn push_without_thinking(out: &mut Vec<ContentPart>, ps: &Vec<ContentPart>)
    ensures
        final(out)@.map_values(|p: ContentPart| part_full_view(p)) == old(out)@.map_values(|p: ContentPart| part_full_view(p))
            + without_thinking(ps@.map_values(|p: ContentPart| part_full_view(p))),
{
    let ghost pv = ps@.map_values(|p: ContentPart| part_full_view(p));
    let ghost o0 = out@.map_values(|p: ContentPart| part_full_view(p));
    let mut i: usize = 0;
    while i < ps.len()
        invariant
            i <= ps@.len(),
            pv == ps@.map_values(|p: ContentPart| part_full_view(p)),
            out@.map_values(|p: ContentPart| part_full_view(p)) == o0 + without_thinking(pv.take(i as int)),
        decreases ps@.len() - i,
    {
        let ghost ob = out@;
        proof {
            assert(pv.take(i + 1) =~= pv.take(i as int).push(pv[i as int]));
            pv.take(i as int).lemma_filter_push(pv[i as int], |p: PartV| p.0 != 4);
        }
        match &ps[i] {
            ContentPart::Think(_) => {},
            _ => {
                out.push(copy_part(&ps[i]));
                assert(out@.map_values(|p: ContentPart| part_full_view(p)) =~= ob.map_values(
                    |p: ContentPart| part_full_view(p),
                ).push(pv[i as int]));
            },
        }
        i = i + 1;
    }
    assert(pv.take(ps@.len() as int) =~= pv);
}

impl SimpleCompaction {
    /// Compaction that keeps the last `max_preserved_messages` user and assistant messages.
    pub fn new(max_preserved_messages: usize) -> (r: SimpleCompaction)
        ensures
            r.max_preserved_messages == max_preserved_messages,
    {
        SimpleCompaction { max_preserved_messages }
    }

    /// Splits messages into those to sum up and those to keep. Everything is kept as it is
    /// when there are no messages, nothing is to be kept, fewer user and assistant messages
    /// than are to be kept exist, or nothing comes before the kept ones. Otherwise the kept
    /// messages start at the last user or assistant messages, and the ones before become one
    /// user message: each with a heading that numbers it and names its role, followed by its
    /// parts other than thinking, then the compaction prompt.
    pub fn prepare(&self, messages: &Vec<Message>, compact_prompt: &str) -> (r: PrepareResult)
        ensures
            ({
                let ms = msgs_view(messages@);
                let k = self.max_preserved_messages as nat;
                if ms.len() == 0 || k == 0 {
                    r.compact_message is None && msgs_view(r.to_preserve@) == ms
                } else {
                    match preserve_start(ms, k) {
                        None => r.compact_message is None && msgs_view(r.to_preserve@) == ms,
                        Some(s) => {
                            &&& msgs_view(r.to_preserve@) == ms.skip(s)
                            &&& if s == 0 {
                                r.compact_message is None
                            } else {
                                r.compact_message matches Some(m) && msg_view(m) == compact_request(
                                    ms.take(s),
                                    compact_prompt@,
                                )
                            }
                        },
                    }
                }
            }),
    {
        let ghost ms = msgs_view(messages@);
        let k = self.max_preserved_messages;
        if messages.len() == 0 || k == 0 {
            return PrepareResult { compact_message: None, to_preserve: copy_all(messages, 0) };
        }
        let mut start = messages.len();
        let mut preserved: usize = 0;
        let mut j = messages.len();
        let mut found = false;
        while j > 0
            invariant_except_break
                !found,
                preserved < k,
                preserve_start(ms, k as nat) == start_scan(ms, k as nat, j as int, preserved as nat),
            invariant
                j <= messages@.len(),
                ms == msgs_view(messages@),
                k == self.max_preserved_messages,
                k > 0,
            ensures
                found ==> preserve_start(ms, k as nat) == Some(start as int) && start < messages@.len(),
                !found ==> preserve_start(ms, k as nat) is None,
            decreases j,
        {
            let i = j - 1;
            assert(ms[i as int] == msg_view(messages@[i as int]));
            let r = messages[i].role;
            if r == Role::User || r == Role::Assistant {
                preserved = preserved + 1;
                if preserved == k {
                    start = i;
                    found = true;
                    break;
                }
            }
            j = i;
        }
        if !found {
            return PrepareResult { compact_message: None, to_preserve: copy_all(messages, 0) };
        }
        let to_preserve = copy_all(messages, start);
        if start == 0 {
            return PrepareResult { compact_message: None, to_preserve };
        }
        let mut content: Vec<ContentPart> = Vec::new();
        let mut idx: usize = 0;
        while idx < start
            invariant
                idx <= start < messages@.len(),
                ms == msgs_view(messages@),
                content@.map_values(|p: ContentPart| part_full_view(p)) == compact_parts(ms.take(idx as int)),
            decreases start - idx,
        {
            let msg = &messages[idx];
            let mut h = owned("## Message ");
            let n = format_usize(idx + 1);
            push_str(&mut h, n.as_str());
            push_str(&mut h, "\nRole: ");
            let rn = role_name(msg.role);
            push_str(&mut h, rn.as_str());
            push_str(&mut h, "\nContent:\n");
            let ghost c0 = content@;
            content.push(ContentPart::Text(h));
            push_without_thinking(&mut content, &msg.content);
            proof {
                let t = ms.take(idx + 1);
                assert(t.drop_last() =~= ms.take(idx as int));
                assert(t.last() == msg_view(messages@[idx as int]));
                assert(c0.push(ContentPart::Text(h)).map_values(|p: ContentPart| part_full_view(p)) =~= c0.map_values(
                    |p: ContentPart| part_full_view(p),
                ).push((0nat, heading((idx + 1) as nat, msg.role), None::<Seq<char>>)));
            }
            idx = idx + 1;
        }
        let mut tail = owned("\n");
        push_str(&mut tail, compact_prompt);
        let ghost c1 = content@;
        content.push(ContentPart::Text(tail));
        let m = Message { role: Role::User, content, tool_call_id: None };
        assert(msg_view(m).1 =~= compact_parts(ms.take(start as int)) + seq![(0nat, "\n"@ + compact_prompt@, None::<Seq<char>>)]);
        PrepareResult { compact_message: Some(m), to_preserve }
    }
}

fn copy_all(messages: &Vec<Message>, from: usize) -> (r: Vec<Message>)
    requires
        from <= messages@.len(),
    ensures
        msgs_view(r@) == msgs_view(messages@).skip(from as int),
{
    let mut out: Vec<Message> = Vec::new();
    let mut i = from;
    while i < messages.len()
        invariant
            from <= i <= messages@.len(),
            msgs_view(out@) == msgs_view(messages@).subrange(from as int, i as int),
        decreases messages@.len() - i,
    {
        let ghost o0 = out@;
        out.push(copy_message(&messages[i]));
        assert(msgs_view(out@) =~= msgs_view(o0).push(msg_view(messages@[i as int])));
        assert(msgs_view(messages@).subrange(from as int, i + 1) =~= msgs_view(messages@).subrange(from as int, i as int).push(
            msg_view(messages@[i as int]),
        ));
        i = i + 1;
    }
    assert(msgs_view(messages@).subrange(from as int, messages@.len() as int) =~= msgs_view(messages@).skip(from as int));
    out
}

/// The note that opens a compacted context.
pub open spec fn compacted_note() -> Seq<char> {
    "Previous context has been compacted. Here is the compaction output:"@
}

/// The context that a summary gives: a user message with the note and the summary's parts
/// other than thinking, then the kept messages.
pub fn compacted_messages(summary: &Message, to_preserve: Vec<Message>) -> (r: Vec<Message>)
    ensures
        r@.len() == to_preserve@.len() + 1,
        msg_view(r@[0]) == (
            Role::User,
            seq![(0nat, system_text(compacted_note()), None::<Seq<char>>)] + without_thinking(
                msg_view(*summary).1,
            ),
            None::<Seq<char>>,
        ),
        msgs_view(r@.skip(1)) == msgs_view(to_preserve@),
{
    let mut content: Vec<ContentPart> = Vec::new();
    content.push(system("Previous context has been compacted. Here is the compaction output:"));
    assert(content@.map_values(|p: ContentPart| part_full_view(p)) =~= seq![(0nat, system_text(compacted_note()), None::<Seq<char>>)]);
    push_without_thinking(&mut content, &summary.content);
    let mut out: Vec<Message> = Vec::new();
    out.push(Message { role: Role::User, content, tool_call_id: None });
    let ghost first = out@[0];
    let ghost tp = to_preserve@;
    let mut rest = to_preserve;
    out.append(&mut rest);
    assert(out@.skip(1) =~= tp);
    out
}

} // verus!
