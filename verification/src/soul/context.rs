//! The conversation context: its history, token count and checkpoints, and the journal of
//! records that the context file holds.
use vstd::prelude::*;

use crate::message::{ContentPart, Message, Role};
use crate::text::{decimal_int, format_i64, owned, push_str};

verus! {

/// The full view of a content part: its kind (0 text, 1 image, 2 audio, 3 video, 4
/// thinking), its text or URL, and its id.
pub open spec fn part_full_view(p: ContentPart) -> (nat, Seq<char>, Option<Seq<char>>) {
    match p {
        ContentPart::Text(t) => (0, t@, None),
        ContentPart::ImageUrl { url, id } => (1, url@, opt_view(id)),
        ContentPart::AudioUrl { url, id } => (2, url@, opt_view(id)),
        ContentPart::VideoUrl { url, id } => (3, url@, opt_view(id)),
        ContentPart::Think(t) => (4, t@, None),
    }
}

/// The view of an optional string.
pub open spec fn opt_view(o: Option<String>) -> Option<Seq<char>> {
    match o {
        Some(s) => Some(s@),
        None => None,
    }
}

/// The view of a message: its role, its parts and the tool call it answers.
pub type MsgV = (Role, Seq<(nat, Seq<char>, Option<Seq<char>>)>, Option<Seq<char>>);

/// The view of a message.
pub open spec fn msg_view(m: Message) -> MsgV {
    (m.role, m.content@.map_values(|p: ContentPart| part_full_view(p)), opt_view(m.tool_call_id))
}

/// The views of messages.
pub open spec fn msgs_view(ms: Seq<Message>) -> Seq<MsgV> {
    ms.map_values(|m: Message| msg_view(m))
}

fn copy_opt(o: &Option<String>) -> (r: Option<String>)
    ensures
        opt_view(r) == opt_view(*o),
{
    match o {
        Some(s) => Some(s.clone()),
        None => None,
    }
}

/// A copy of a content part.
pub fn copy_part(p: &ContentPart) -> (r: ContentPart)
    ensures
        part_full_view(r) == part_full_view(*p),
{
    match p {
        ContentPart::Text(t) => ContentPart::Text(t.clone()),
        ContentPart::ImageUrl { url, id } => ContentPart::ImageUrl { url: url.clone(), id: copy_opt(id) },
        ContentPart::AudioUrl { url, id } => ContentPart::AudioUrl { url: url.clone(), id: copy_opt(id) },
        ContentPart::VideoUrl { url, id } => ContentPart::VideoUrl { url: url.clone(), id: copy_opt(id) },
        ContentPart::Think(t) => ContentPart::Think(t.clone()),
    }
}

/// A copy of a message.
pub fn copy_message(m: &Message) -> (r: Message)
    ensures
        msg_view(r) == msg_view(*m),
{
    let mut content: Vec<ContentPart> = Vec::new();
    let mut i: usize = 0;
    while i < m.content.len()
        invariant
            i <= m.content@.len(),
            content@.len() == i,
            forall|k: int| 0 <= k < i ==> #[trigger] part_full_view(content@[k]) == part_full_view(m.content@[k]),
        decreases m.content@.len() - i,
    {
        content.push(copy_part(&m.content[i]));
        i = i + 1;
    }
    let r = Message { role: m.role, content, tool_call_id: copy_opt(&m.tool_call_id) };
    assert(r.content@.map_values(|p: ContentPart| part_full_view(p)) =~= m.content@.map_values(
        |p: ContentPart| part_full_view(p),
    ));
    r
}

/// The user message that names a checkpoint.
pub open spec fn checkpoint_message(id: int) -> MsgV {
    (
        Role::User,
        seq![(0nat, crate::message::system_text("CHECKPOINT "@ + decimal_int(id)), None::<Seq<char>>)],
        None::<Seq<char>>,
    )
}

/// One line of the context file: a token count, a checkpoint, or a message.
#[derive(Debug)]
pub enum ContextRecord {
    Usage(i64),
    Checkpoint(i64),
    Entry(Message),
}

/// The view of a record: its kind (0 usage, 1 checkpoint, 2 message), its number and its
/// message.
pub type RecordV = (nat, i64, MsgV);

/// An empty message view, for records that hold none.
pub open spec fn no_msg() -> MsgV {
    (Role::User, Seq::empty(), None)
}

/// The view of a record.
pub open spec fn record_view(r: ContextRecord) -> RecordV {
    match r {
        ContextRecord::Usage(t) => (0, t, no_msg()),
        ContextRecord::Checkpoint(id) => (1, id, no_msg()),
        ContextRecord::Entry(m) => (2, 0, msg_view(m)),
    }
}

/// The views of records.
pub open spec fn records_view(rs: Seq<ContextRecord>) -> Seq<RecordV> {
    rs.map_values(|r: ContextRecord| record_view(r))
}

/// The state a context holds: its history, its token count and the next checkpoint id.
pub type CtxState = (Seq<MsgV>, i64, int);

/// A record applied to a state: a usage sets the token count, a checkpoint sets the next id
/// after it, and a message joins the history.
pub open spec fn apply_record(st: CtxState, r: RecordV) -> CtxState {
    if r.0 == 0 {
        (st.0, r.1, st.2)
    } else if r.0 == 1 {
        (st.0, st.1, r.1 + 1)
    } else {
        (st.0.push(r.2), st.1, st.2)
    }
}

/// The state that replaying records onto an empty context gives.
pub open spec fn replay(rs: Seq<RecordV>) -> CtxState
    decreases rs.len(),
{
    if rs.len() == 0 {
        (Seq::empty(), 0, 0)
    } else {
        apply_record(replay(rs.drop_last()), rs.last())
    }
}

/// Whether a record is a checkpoint that would overflow the next id.
pub open spec fn records_fit(rs: Seq<RecordV>) -> bool {
    forall|i: int| 0 <= i < rs.len() ==> #[trigger] rs[i].0 == 1 ==> rs[i].1 < i64::MAX
}

/// The index of the first checkpoint record with this id, or the number of records.
pub open spec fn cut_index(rs: Seq<RecordV>, id: i64, i: int) -> int
    decreases rs.len() - i,
{
    if i < 0 || i >= rs.len() {
        rs.len() as int
    } else if rs[i].0 == 1 && rs[i].1 == id {
        i
    } else {
        cut_index(rs, id, i + 1)
    }
}

/// The context: its history, token count and next checkpoint id, which are always what
/// replaying the records written so far gives.
pub struct Context {
    file_backend: String,
    history: Vec<Message>,
    token_count: i64,
    next_checkpoint_id: i64,
    journal: Ghost<Seq<RecordV>>,
}

proof fn lemma_replay_push(rs: Seq<RecordV>, r: RecordV)
    ensures
        replay(rs.push(r)) == apply_record(replay(rs), r),
{
    assert(rs.push(r).drop_last() =~= rs);
}

impl Context {
    /// What the context holds.
    pub closed spec fn state(&self) -> CtxState {
        (msgs_view(self.history@), self.token_count, self.next_checkpoint_id as int)
    }

    /// The records written for this context, in order.
    pub closed spec fn journal(&self) -> Seq<RecordV> {
        self.journal@
    }

    /// The context file.
    pub closed spec fn backend(&self) -> Seq<char> {
        self.file_backend@
    }

    /// The context holds what replaying its records gives.
    pub closed spec fn wf(&self) -> bool {
        &&& replay(self.journal@) == self.state()
        &&& self.next_checkpoint_id >= 0
    }

    /// An empty context kept in the given file.
    pub fn new(file_backend: String) -> (r: Context)
        ensures
            r.wf(),
            r.backend() == file_backend@,
            r.journal().len() == 0,
            sequential_checkpoints(r.journal()),
            r.state() == (Seq::<MsgV>::empty(), 0i64, 0int),
    {
        let r = Context {
            file_backend,
            history: Vec::new(),
            token_count: 0,
            next_checkpoint_id: 0,
            journal: Ghost(Seq::empty()),
        };
        assert(msgs_view(r.history@) =~= Seq::<MsgV>::empty());
        r
    }

    fn apply(&mut self, r: ContextRecord)
        requires
            old(self).wf(),
            record_view(r).0 == 1 ==> 0 <= record_view(r).1 < i64::MAX,
        ensures
            final(self).wf(),
            final(self).backend() == old(self).backend(),
            final(self).journal() == old(self).journal().push(record_view(r)),
            final(self).state() == apply_record(old(self).state(), record_view(r)),
    {
        let ghost rv = record_view(r);
        let ghost j0 = self.journal@;
        let ghost h0 = self.history@;
        match r {
            ContextRecord::Usage(t) => {
                self.token_count = t;
            },
            ContextRecord::Checkpoint(id) => {
                self.next_checkpoint_id = id + 1;
            },
            ContextRecord::Entry(m) => {
                self.history.push(m);
                assert(msgs_view(self.history@) =~= msgs_view(h0).push(rv.2));
            },
        }
        self.journal = Ghost(j0.push(rv));
        proof {
            lemma_replay_push(j0, rv);
        }
    }

    /// Fills an empty context from the records of its file. A context that already holds
    /// messages is not filled again.
    pub fn restore(&mut self, records: Vec<ContextRecord>) -> (r: Result<bool, String>)
        requires
            old(self).wf(),
            old(self).journal().len() == 0,
            forall|i: int| 0 <= i < records@.len() ==> (#[trigger] record_view(records@[i])).0 == 1 ==> 0
                <= record_view(records@[i]).1 < i64::MAX,
        ensures
            final(self).wf(),
            final(self).backend() == old(self).backend(),
            old(self).state().0.len() > 0 ==> r is Err && r->Err_0@ == "The context storage is already modified"@
                && final(self).state() == old(self).state(),
            old(self).state().0.len() == 0 ==> r == Ok::<bool, String>(true) && final(self).journal() == records_view(records@)
                && final(self).state() == replay(records_view(records@)),
    {
        if self.history.len() > 0 {
            return Err(owned("The context storage is already modified"));
        }
        let mut records = records;
        let ghost all = records_view(records@);
        let mut rest: Vec<ContextRecord> = Vec::new();
        while records.len() > 0
            invariant
                all == records_view(records@) + records_view(rest@).reverse(),
                forall|i: int| 0 <= i < records@.len() ==> (#[trigger] record_view(records@[i])).0 == 1 ==> 0
                    <= record_view(records@[i]).1 < i64::MAX,
                forall|i: int| 0 <= i < rest@.len() ==> (#[trigger] record_view(rest@[i])).0 == 1 ==> 0
                    <= record_view(rest@[i]).1 < i64::MAX,
            decreases records@.len(),
        {
            let ghost r0 = records@;
            let ghost s0 = rest@;
            let x = records.pop().unwrap();
            rest.push(x);
            proof {
                assert(records_view(r0) =~= records_view(records@).push(record_view(x)));
                assert(records_view(rest@) =~= records_view(s0).push(record_view(x)));
                assert(records_view(rest@).reverse() =~= seq![record_view(x)] + records_view(s0).reverse());
                assert(records_view(r0) + records_view(s0).reverse() =~= records_view(records@) + records_view(rest@).reverse());
                assert forall|i: int| 0 <= i < rest@.len() implies (#[trigger] record_view(rest@[i])).0 == 1 ==> 0
                    <= record_view(rest@[i]).1 < i64::MAX by {
                    if i < s0.len() {
                        assert(rest@[i] == s0[i]);
                    } else {
                        assert(rest@[i] == r0[r0.len() - 1]);
                    }
                }
            }
        }
        assert(records_view(records@) =~= Seq::empty());
        assert(all =~= records_view(rest@).reverse());
        while rest.len() > 0
            invariant
                self.wf(),
                self.backend() == old(self).backend(),
                all == self.journal() + records_view(rest@).reverse(),
                forall|i: int| 0 <= i < rest@.len() ==> (#[trigger] record_view(rest@[i])).0 == 1 ==> 0
                    <= record_view(rest@[i]).1 < i64::MAX,
            decreases rest@.len(),
        {
            let ghost s0 = rest@;
            let x = rest.pop().unwrap();
            proof {
                assert(records_view(s0) =~= records_view(rest@).push(record_view(x)));
                assert(records_view(s0).reverse() =~= seq![record_view(x)] + records_view(rest@).reverse());
                assert(record_view(x) == record_view(s0[s0.len() - 1]));
            }
            let ghost j0 = self.journal();
            self.apply(x);
            proof {
                assert(self.journal() + records_view(rest@).reverse() =~= j0 + (seq![record_view(x)] + records_view(rest@).reverse()));
            }
        }
        assert(records_view(rest@).reverse() =~= Seq::empty());
        assert(self.journal() =~= all);
        Ok(true)
    }

    /// The messages of the conversation.
    pub fn history(&self) -> (r: &Vec<Message>)
        ensures
            msgs_view(r@) == self.state().0,
    {
        &self.history
    }

    /// The tokens the conversation takes.
    pub fn token_count(&self) -> (r: i64)
        ensures
            r == self.state().1,
    {
        self.token_count
    }

    /// The number of checkpoints: the id the next one gets.
    pub fn n_checkpoints(&self) -> (r: i64)
        ensures
            r == self.state().2,
    {
        self.next_checkpoint_id
    }

    /// The context file.
    pub fn file_backend(&self) -> (r: &String)
        ensures
            r@ == self.backend(),
    {
        &self.file_backend
    }

    /// Adds a checkpoint with the next id and, if asked, a user message that names it.
    /// Returns the records to write to the file.
    pub fn checkpoint(&mut self, add_user_message: bool) -> (r: Vec<ContextRecord>)
        requires
            old(self).wf(),
            old(self).state().2 < i64::MAX,
        ensures
            final(self).wf(),
            final(self).backend() == old(self).backend(),
            final(self).state().2 == old(self).state().2 + 1,
            final(self).journal() == old(self).journal() + records_view(r@),
            r@.len() == if add_user_message { 2int } else { 1int },
            record_view(r@[0]) == (1nat, old(self).state().2 as i64, no_msg()),
            add_user_message ==> record_view(r@[1]) == (2nat, 0i64, checkpoint_message(old(self).state().2)),
            final(self).state().0 == old(self).state().0 + (if add_user_message {
                seq![checkpoint_message(old(self).state().2)]
            } else {
                Seq::<MsgV>::empty()
            }),
            final(self).state().1 == old(self).state().1,
            sequential_checkpoints(old(self).journal()) ==> sequential_checkpoints(final(self).journal()),
    {
        let id = self.next_checkpoint_id;
        let ghost j0 = self.journal();
        let mut out: Vec<ContextRecord> = Vec::new();
        self.apply(ContextRecord::Checkpoint(id));
        out.push(ContextRecord::Checkpoint(id));
        if add_user_message {
            let mut text = owned("CHECKPOINT ");
            let n = format_i64(id);
            push_str(&mut text, n.as_str());
            let part = crate::message::system(text.as_str());
            let mut content: Vec<ContentPart> = Vec::new();
            content.push(part);
            let m = Message { role: Role::User, content, tool_call_id: None };
            let m2 = copy_message(&m);
            self.apply(ContextRecord::Entry(m));
            out.push(ContextRecord::Entry(m2));
            proof {
                assert(records_view(out@) =~= seq![(1nat, id, no_msg()), record_view(out@[1])]);
                assert(msg_view(m2).1 =~= seq![(0nat, crate::message::system_text("CHECKPOINT "@ + decimal_int(id as int)), None::<Seq<char>>)]);
            }
        }
        assert(self.journal() =~= j0 + records_view(out@));
        proof {
            if sequential_checkpoints(j0) {
                lemma_replay_next(j0);
                let c = (1nat, id, no_msg());
                lemma_sequential_push(j0, c);
                if add_user_message {
                    lemma_sequential_push(j0.push(c), record_view(out@[1]));
                    assert(j0.push(c).push(record_view(out@[1])) =~= self.journal());
                } else {
                    assert(j0.push(c) =~= self.journal());
                }
            }
        }
        out
    }

    /// Appends messages to the history. Returns the records to write to the file.
    pub fn append_messages(&mut self, messages: Vec<Message>) -> (r: Vec<ContextRecord>)
        requires
            old(self).wf(),
        ensures
            final(self).wf(),
            final(self).backend() == old(self).backend(),
            final(self).state() == (old(self).state().0 + msgs_view(messages@), old(self).state().1, old(self).state().2),
            final(self).journal() == old(self).journal() + records_view(r@),
            forall|i: int| 0 <= i < r@.len() ==> (#[trigger] record_view(r@[i])).0 == 2,
            sequential_checkpoints(old(self).journal()) ==> sequential_checkpoints(final(self).journal()),
    {
        let ghost j0 = self.journal();
        let ghost s0 = self.state();
        let mut out: Vec<ContextRecord> = Vec::new();
        let mut i: usize = 0;
        while i < messages.len()
            invariant
                self.wf(),
                self.backend() == old(self).backend(),
                i <= messages@.len(),
                self.journal() == j0 + records_view(out@),
                self.state() == (s0.0 + msgs_view(messages@).take(i as int), s0.1, s0.2),
                forall|k: int| 0 <= k < out@.len() ==> (#[trigger] record_view(out@[k])).0 == 2,
            decreases messages@.len() - i,
        {
            let a = copy_message(&messages[i]);
            let b = copy_message(&messages[i]);
            let ghost st = self.state();
            let ghost jb = self.journal();
            let ghost ob = out@;
            self.apply(ContextRecord::Entry(a));
            out.push(ContextRecord::Entry(b));
            proof {
                assert(records_view(out@) =~= records_view(ob).push(record_view(out@.last())));
                assert(self.journal() =~= j0 + records_view(out@));
                assert(msgs_view(messages@).take(i + 1) =~= msgs_view(messages@).take(i as int).push(msg_view(messages@[i as int])));
                lemma_replay_push(jb, (2nat, 0i64, msg_view(messages@[i as int])));
            }
            i = i + 1;
        }
        assert(msgs_view(messages@).take(messages@.len() as int) =~= msgs_view(messages@));
        proof {
            if sequential_checkpoints(j0) {
                assert forall|k: int| 0 <= k < records_view(out@).len() implies (#[trigger] records_view(out@)[k]).0 != 1 by {
                    assert(records_view(out@)[k] == record_view(out@[k]));
                }
                lemma_sequential_extend(j0, records_view(out@));
            }
        }
        out
    }

    /// Records the tokens the conversation takes. Returns the record to write to the file.
    pub fn update_token_count(&mut self, token_count: i64) -> (r: ContextRecord)
        requires
            old(self).wf(),
        ensures
            final(self).wf(),
            final(self).backend() == old(self).backend(),
            final(self).state() == (old(self).state().0, token_count, old(self).state().2),
            final(self).journal() == old(self).journal().push(record_view(r)),
            record_view(r) == (0nat, token_count, no_msg()),
            sequential_checkpoints(old(self).journal()) ==> sequential_checkpoints(final(self).journal()),
    {
        proof {
            if sequential_checkpoints(self.journal()) {
                lemma_sequential_push(self.journal(), (0nat, token_count, no_msg()));
            }
        }
        self.apply(ContextRecord::Usage(token_count));
        ContextRecord::Usage(token_count)
    }

    /// Empties the context, as a fresh file does.
    pub fn clear(&mut self)
        ensures
            final(self).wf(),
            final(self).backend() == old(self).backend(),
            final(self).journal().len() == 0,
            sequential_checkpoints(final(self).journal()),
            final(self).state() == (Seq::<MsgV>::empty(), 0i64, 0int),
    {
        self.history = Vec::new();
        self.token_count = 0;
        self.next_checkpoint_id = 0;
        self.journal = Ghost(Seq::empty());
        assert(msgs_view(self.history@) =~= Seq::<MsgV>::empty());
    }

    /// Goes back to a checkpoint: the context becomes what the file's records before that
    /// checkpoint give, and those records are what the new file keeps. Returns how many
    /// records are kept; a checkpoint that does not exist is an error and changes nothing.
    pub fn revert_to(&mut self, checkpoint_id: i64, records: &Vec<ContextRecord>) -> (r: Result<usize, String>)
        requires
            old(self).wf(),
            forall|i: int| 0 <= i < records@.len() ==> (#[trigger] record_view(records@[i])).0 == 1 ==> 0
                <= record_view(records@[i]).1 < i64::MAX,
        ensures
            final(self).wf(),
            final(self).backend() == old(self).backend(),
            checkpoint_id >= old(self).state().2 ==> r is Err && r->Err_0@ == "Checkpoint "@ + decimal_int(
                checkpoint_id as int,
            ) + " does not exist"@ && final(self).state() == old(self).state() && final(self).journal()
                == old(self).journal(),
            checkpoint_id < old(self).state().2 ==> r is Ok && r->Ok_0 == cut_index(records_view(records@), checkpoint_id, 0)
                && final(self).journal() == records_view(records@).take(r->Ok_0 as int)
                && final(self).state() == replay(records_view(records@).take(r->Ok_0 as int)),
            r is Ok && sequential_checkpoints(records_view(records@)) ==> sequential_checkpoints(final(self).journal()),
    {
        if checkpoint_id >= self.next_checkpoint_id {
            let mut m = owned("Checkpoint ");
            let n = format_i64(checkpoint_id);
            push_str(&mut m, n.as_str());
            push_str(&mut m, " does not exist");
            return Err(m);
        }
        self.clear();
        let ghost rv = records_view(records@);
        let mut i: usize = 0;
        while i < records.len()
            invariant
                self.wf(),
                self.backend() == old(self).backend(),
                i <= records@.len(),
                checkpoint_id < old(self).state().2,
                rv == records_view(records@),
                self.journal() == rv.take(i as int),
                cut_index(rv, checkpoint_id, 0) == cut_index(rv, checkpoint_id, i as int),
                forall|k: int| 0 <= k < records@.len() ==> (#[trigger] record_view(records@[k])).0 == 1 ==> 0
                    <= record_view(records@[k]).1 < i64::MAX,
            decreases records@.len() - i,
        {
            let copy = match &records[i] {
                ContextRecord::Usage(t) => ContextRecord::Usage(*t),
                ContextRecord::Checkpoint(id) => {
                    if *id == checkpoint_id {
                        proof {
                            if sequential_checkpoints(rv) {
                                lemma_sequential_take(rv, i as int);
                            }
                        }
                        return Ok(i);
                    }
                    ContextRecord::Checkpoint(*id)
                },
                ContextRecord::Entry(m) => ContextRecord::Entry(copy_message(m)),
            };
            assert(record_view(copy) == rv[i as int]);
            let ghost j0 = self.journal();
            self.apply(copy);
            assert(self.journal() =~= rv.take(i + 1));
            i = i + 1;
        }
        assert(rv.take(rv.len() as int) =~= rv);
        Ok(i)
    }
}

/// The context always holds what replaying the records written for it gives, so restoring
/// from its file gives the same context.
pub proof fn lemma_restore_reproduces(c: Context)
    requires
        c.wf(),
    ensures
        replay(c.journal()) == c.state(),
{
}

/// Whether the checkpoints among the records carry the ids 0, 1, 2, ... in order, as the
/// records a context writes do.
pub open spec fn sequential_checkpoints(rs: Seq<RecordV>) -> bool {
    forall|i: int| 0 <= i < rs.len() && #[trigger] rs[i].0 == 1 ==> rs[i].1 == count_checkpoints(rs.take(i))
}

/// The number of checkpoint records.
pub open spec fn count_checkpoints(rs: Seq<RecordV>) -> nat
    decreases rs.len(),
{
    if rs.len() == 0 {
        0
    } else {
        count_checkpoints(rs.drop_last()) + if rs.last().0 == 1 {
            1nat
        } else {
            0nat
        }
    }
}

proof fn lemma_sequential_push(rs: Seq<RecordV>, r: RecordV)
    requires
        sequential_checkpoints(rs),
        r.0 == 1 ==> r.1 == count_checkpoints(rs),
    ensures
        sequential_checkpoints(rs.push(r)),
{
    let s = rs.push(r);
    assert forall|i: int| 0 <= i < s.len() && #[trigger] s[i].0 == 1 implies s[i].1 == count_checkpoints(s.take(i)) by {
        if i < rs.len() {
            assert(s[i] == rs[i]);
            assert(s.take(i) =~= rs.take(i));
        } else {
            assert(s.take(i) =~= rs);
        }
    }
}

proof fn lemma_sequential_extend(rs: Seq<RecordV>, extra: Seq<RecordV>)
    requires
        sequential_checkpoints(rs),
        forall|i: int| 0 <= i < extra.len() ==> (#[trigger] extra[i]).0 != 1,
    ensures
        sequential_checkpoints(rs + extra),
    decreases extra.len(),
{
    if extra.len() > 0 {
        let p = extra.drop_last();
        assert forall|i: int| 0 <= i < p.len() implies (#[trigger] p[i]).0 != 1 by {
            assert(p[i] == extra[i]);
        }
        lemma_sequential_extend(rs, p);
        assert((rs + p).push(extra.last()) =~= rs + extra);
        lemma_sequential_push(rs + p, extra.last());
    } else {
        assert(rs + extra =~= rs);
    }
}

proof fn lemma_sequential_take(rs: Seq<RecordV>, n: int)
    requires
        sequential_checkpoints(rs),
        0 <= n <= rs.len(),
    ensures
        sequential_checkpoints(rs.take(n)),
{
    let t = rs.take(n);
    assert forall|i: int| 0 <= i < t.len() && #[trigger] t[i].0 == 1 implies t[i].1 == count_checkpoints(t.take(i)) by {
        assert(t[i] == rs[i]);
        assert(t.take(i) =~= rs.take(i));
    }
}

proof fn lemma_count_prefix(rs: Seq<RecordV>, a: int)
    requires
        0 <= a <= rs.len(),
    ensures
        count_checkpoints(rs.take(a)) <= count_checkpoints(rs),
    decreases rs.len() - a,
{
    if a < rs.len() {
        lemma_count_prefix(rs, a + 1);
        assert(rs.take(a + 1).drop_last() =~= rs.take(a));
    } else {
        assert(rs.take(a) =~= rs);
    }
}

/// In records whose checkpoints are numbered in order, every checkpoint's id is below the
/// number of checkpoints, which is the id a context that wrote them gives its next one.
proof fn lemma_ids_below_next(rs: Seq<RecordV>, m: int)
    requires
        sequential_checkpoints(rs),
        0 <= m < rs.len(),
        rs[m].0 == 1,
    ensures
        rs[m].1 < count_checkpoints(rs),
        replay(rs).2 == count_checkpoints(rs),
{
    lemma_replay_next(rs);
    lemma_count_prefix(rs, m + 1);
    assert(rs.take(m + 1).drop_last() =~= rs.take(m));
}

proof fn lemma_replay_next(rs: Seq<RecordV>)
    requires
        sequential_checkpoints(rs),
    ensures
        replay(rs).2 == count_checkpoints(rs),
    decreases rs.len(),
{
    if rs.len() > 0 {
        let p = rs.drop_last();
        assert forall|i: int| 0 <= i < p.len() && #[trigger] p[i].0 == 1 implies p[i].1 == count_checkpoints(p.take(i)) by {
            assert(rs[i] == p[i]);
            assert(rs.take(i) =~= p.take(i));
        }
        lemma_replay_next(p);
        if rs.last().0 == 1 {
            assert(rs.take(rs.len() - 1) =~= p);
        }
    }
}

proof fn lemma_cut_skips(rs: Seq<RecordV>, id: i64, i: int, stop: int)
    requires
        0 <= i <= stop < rs.len(),
        rs[stop].0 == 1 && rs[stop].1 == id,
        forall|m: int| i <= m < stop ==> !(rs[m].0 == 1 && rs[m].1 == id),
    ensures
        cut_index(rs, id, i) == stop,
    decreases stop - i,
{
    if i < stop {
        lemma_cut_skips(rs, id, i + 1, stop);
    }
}

/// Going back to a checkpoint undoes everything written after it: for records that hold the
/// checkpoint after some earlier records that name no checkpoint with its id, the records kept
/// are exactly the earlier ones, so the context again holds what it held when the checkpoint
/// was taken (its history, token count and number of checkpoints).
pub proof fn lemma_revert_round_trip(before: Seq<RecordV>, after: Seq<RecordV>, id: i64)
    requires
        forall|m: int| 0 <= m < before.len() ==> !((#[trigger] before[m]).0 == 1 && before[m].1 == id),
    ensures
        ({
            let rs = before + seq![(1nat, id, no_msg())] + after;
            &&& cut_index(rs, id, 0) == before.len()
            &&& rs.take(before.len() as int) == before
            &&& replay(rs.take(cut_index(rs, id, 0))) == replay(before)
        }),
{
    let rs = before + seq![(1nat, id, no_msg())] + after;
    assert forall|m: int| 0 <= m < before.len() implies !(rs[m].0 == 1 && rs[m].1 == id) by {
        assert(rs[m] == before[m]);
    }
    assert(rs[before.len() as int] == (1nat, id, no_msg()));
    lemma_cut_skips(rs, id, 0, before.len() as int);
    assert(rs.take(before.len() as int) =~= before);
}

/// Going back to the checkpoint a context takes next restores the context as it was: for a
/// context whose records were all written by its own methods (so their checkpoints are
/// numbered in order), when the file holds those records, then that checkpoint, then anything
/// written after, the records kept on going back are the context's own, and replaying them
/// gives its history, token count and checkpoint count.
pub proof fn lemma_revert_restores_checkpoint(ctx: Context, after: Seq<RecordV>)
    requires
        ctx.wf(),
        sequential_checkpoints(ctx.journal()),
    ensures
        ({
            let rs = ctx.journal() + seq![(1nat, ctx.state().2 as i64, no_msg())] + after;
            &&& cut_index(rs, ctx.state().2 as i64, 0) == ctx.journal().len()
            &&& replay(rs.take(cut_index(rs, ctx.state().2 as i64, 0))) == ctx.state()
        }),
{
    let j = ctx.journal();
    lemma_replay_next(j);
    assert forall|m: int| 0 <= m < j.len() implies !((#[trigger] j[m]).0 == 1 && j[m].1 == ctx.state().2) by {
        if j[m].0 == 1 {
            lemma_ids_below_next(j, m);
        }
    }
    lemma_revert_round_trip(j, after, ctx.state().2 as i64);
}

/// Going back to checkpoint `k` of records whose checkpoints are numbered in order leaves a
/// context with exactly `k` checkpoints.
pub proof fn lemma_revert_leaves_k_checkpoints(rs: Seq<RecordV>, k: i64)
    requires
        sequential_checkpoints(rs),
        0 <= k < count_checkpoints(rs),
    ensures
        replay(rs.take(cut_index(rs, k, 0))).2 == k,
{
    lemma_cut_finds(rs, k, 0);
    let c = cut_index(rs, k, 0);
    let t = rs.take(c);
    assert forall|i: int| 0 <= i < t.len() && #[trigger] t[i].0 == 1 implies t[i].1 == count_checkpoints(t.take(i)) by {
        assert(rs[i] == t[i]);
        assert(rs.take(i) =~= t.take(i));
    }
    lemma_replay_next(t);
    assert(rs[c].1 == count_checkpoints(rs.take(c)));
}

proof fn lemma_cut_finds(rs: Seq<RecordV>, k: i64, i: int)
    requires
        sequential_checkpoints(rs),
        0 <= i <= rs.len(),
        0 <= k < count_checkpoints(rs),
        count_checkpoints(rs.take(i)) <= k,
    ensures
        i <= cut_index(rs, k, i) < rs.len(),
        rs[cut_index(rs, k, i)].0 == 1 && rs[cut_index(rs, k, i)].1 == k,
    decreases rs.len() - i,
{
    if i == rs.len() {
        assert(rs.take(i) =~= rs);
    } else {
        assert(rs.take(i + 1).drop_last() =~= rs.take(i));
        if rs[i].0 == 1 && rs[i].1 == k {
        } else {
            if rs[i].0 == 1 {
                assert(rs[i].1 == count_checkpoints(rs.take(i)));
            }
            lemma_cut_finds(rs, k, i + 1);
        }
    }
}

} // verus!
