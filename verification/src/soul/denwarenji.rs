//! The mailbox for a D-Mail: a message sent back to an earlier checkpoint of the context.
use vstd::prelude::*;

use crate::text::owned;

verus! {

/// A message for the agent at an earlier checkpoint.
#[derive(Debug)]
pub struct DMail {
    pub message: String,
    pub checkpoint_id: i64,
}

/// Why a D-Mail was refused.
#[derive(Clone, Copy, Debug, PartialEq, Eq, Structural)]
pub enum DenwaRenjiError {
    AlreadyPending,
    NegativeCheckpoint,
    InvalidCheckpoint,
}

/// The text of a refusal.
pub open spec fn denwa_error_text(e: DenwaRenjiError) -> Seq<char> {
    match e {
        DenwaRenjiError::AlreadyPending => "only one D-Mail can be sent at a time"@,
        DenwaRenjiError::NegativeCheckpoint => "the checkpoint ID can not be negative"@,
        DenwaRenjiError::InvalidCheckpoint => "there is no checkpoint with the given ID"@,
    }
}

impl DenwaRenjiError {
    /// The text of the refusal.
    pub fn to_message(&self) -> (r: String)
        ensures
            r@ == denwa_error_text(*self),
    {
        match self {
            DenwaRenjiError::AlreadyPending => owned("only one D-Mail can be sent at a time"),
            DenwaRenjiError::NegativeCheckpoint => owned("the checkpoint ID can not be negative"),
            DenwaRenjiError::InvalidCheckpoint => owned("there is no checkpoint with the given ID"),
        }
    }
}

/// Holds at most one D-Mail until the agent fetches it, and knows how many checkpoints exist.
pub struct DenwaRenji {
    pending: Option<DMail>,
    n_checkpoints: i64,
}

/// The refusal a D-Mail gets from a mailbox in the given state, if any.
pub open spec fn send_error(pending: Option<DMail>, n_checkpoints: i64, d: DMail) -> Option<DenwaRenjiError> {
    if pending is Some {
        Some(DenwaRenjiError::AlreadyPending)
    } else if d.checkpoint_id < 0 {
        Some(DenwaRenjiError::NegativeCheckpoint)
    } else if d.checkpoint_id >= n_checkpoints {
        Some(DenwaRenjiError::InvalidCheckpoint)
    } else {
        None
    }
}

impl DenwaRenji {
    /// The D-Mail waiting to be fetched.
    pub closed spec fn pending(&self) -> Option<DMail> {
        self.pending
    }

    /// How many checkpoints the context has.
    pub closed spec fn n_checkpoints(&self) -> i64 {
        self.n_checkpoints
    }

    /// An empty mailbox for a context without checkpoints.
    pub fn new() -> (r: DenwaRenji)
        ensures
            r.pending() is None,
            r.n_checkpoints() == 0,
    {
        DenwaRenji { pending: None, n_checkpoints: 0 }
    }

    /// Accepts a D-Mail when none is pending and its checkpoint exists.
    pub fn send_dmail(&mut self, dmail: DMail) -> (r: Result<(), DenwaRenjiError>)
        ensures
            final(self).n_checkpoints() == old(self).n_checkpoints(),
            match send_error(old(self).pending(), old(self).n_checkpoints(), dmail) {
                Some(e) => r == Err::<(), DenwaRenjiError>(e) && final(self).pending() == old(self).pending(),
                None => r is Ok && final(self).pending() == Some(dmail),
            },
    {
        if self.pending.is_some() {
            return Err(DenwaRenjiError::AlreadyPending);
        }
        if dmail.checkpoint_id < 0 {
            return Err(DenwaRenjiError::NegativeCheckpoint);
        }
        if dmail.checkpoint_id >= self.n_checkpoints {
            return Err(DenwaRenjiError::InvalidCheckpoint);
        }
        self.pending = Some(dmail);
        Ok(())
    }

    /// Records how many checkpoints the context has.
    pub fn set_n_checkpoints(&mut self, n_checkpoints: i64)
        ensures
            final(self).n_checkpoints() == n_checkpoints,
            final(self).pending() == old(self).pending(),
    {
        self.n_checkpoints = n_checkpoints;
    }

    /// Takes the pending D-Mail, leaving the mailbox empty.
    pub fn fetch_pending_dmail(&mut self) -> (r: Option<DMail>)
        ensures
            r == old(self).pending(),
            final(self).pending() is None,
            final(self).n_checkpoints() == old(self).n_checkpoints(),
    {
        self.pending.take()
    }
}

impl Default for DenwaRenji {
    fn default() -> (r: DenwaRenji)
        ensures
            r.pending() is None,
            r.n_checkpoints() == 0,
    {
        DenwaRenji::new()
    }
}

/// A D-Mail that the mailbox accepts is what the next fetch returns, and the fetch after that
/// returns nothing: each accepted D-Mail is delivered exactly once.
pub proof fn lemma_dmail_delivered_once(
    before: DenwaRenji,
    d: DMail,
    after_send: DenwaRenji,
    fetched: Option<DMail>,
    after_fetch: DenwaRenji,
    refetched: Option<DMail>,
)
    requires
        send_error(before.pending(), before.n_checkpoints(), d) is None,
        after_send.pending() == Some(d),
        fetched == after_send.pending(),
        after_fetch.pending() is None,
        refetched == after_fetch.pending(),
    ensures
        fetched == Some(d),
        refetched is None,
{
}

/// A mailbox that holds a D-Mail refuses every other one until it is fetched.
pub proof fn lemma_one_pending(m: DenwaRenji, d: DMail)
    requires
        m.pending() is Some,
    ensures
        send_error(m.pending(), m.n_checkpoints(), d) == Some(DenwaRenjiError::AlreadyPending),
{
}

/// A D-Mail is accepted by an empty mailbox exactly when its checkpoint is one of the
/// `n_checkpoints` that exist.
pub proof fn lemma_accepts_existing_checkpoints(m: DenwaRenji, d: DMail)
    requires
        m.pending() is None,
    ensures
        send_error(m.pending(), m.n_checkpoints(), d) is None <==> 0 <= d.checkpoint_id < m.n_checkpoints(),
{
}

} // verus!
