//! The approval rules: yolo mode, actions approved for the session, and pending requests.
use vstd::prelude::*;

use crate::text::{owned, push_str, str_eq};
use crate::utils::slashcmd::strings_view;
use crate::wire::ApprovalResponseKind;

verus! {

/// Why approval could not be had.
#[derive(Debug)]
pub enum ApprovalError {
    NoToolCall,
    QueueShutDown,
    RequestNotFound(String),
    ResponseClosed,
}

/// The text of an approval error.
pub open spec fn approval_error_text(e: ApprovalError) -> Seq<char> {
    match e {
        ApprovalError::NoToolCall => "approval must be requested from a tool call"@,
        ApprovalError::QueueShutDown => "approval queue is shut down"@,
        ApprovalError::RequestNotFound(id) => "no pending approval request with id "@ + id@,
        ApprovalError::ResponseClosed => "approval response channel closed"@,
    }
}

impl ApprovalError {
    /// The text of the error.
    pub fn to_message(&self) -> (r: String)
        ensures
            r@ == approval_error_text(*self),
    {
        match self {
            ApprovalError::NoToolCall => owned("approval must be requested from a tool call"),
            ApprovalError::QueueShutDown => owned("approval queue is shut down"),
            ApprovalError::RequestNotFound(id) => {
                let mut s = owned("no pending approval request with id ");
                push_str(&mut s, id.as_str());
                s
            },
            ApprovalError::ResponseClosed => owned("approval response channel closed"),
        }
    }
}

/// The index of the first pending request with this id, from index `i` on.
pub open spec fn request_index_from(reqs: Seq<(Seq<char>, Seq<char>)>, id: Seq<char>, i: int) -> Option<int>
    decreases reqs.len() - i,
{
    if i < 0 || i >= reqs.len() {
        None
    } else if reqs[i].0 == id {
        Some(i)
    } else {
        request_index_from(reqs, id, i + 1)
    }
}

/// The index of the first pending request with this id.
pub open spec fn request_index(reqs: Seq<(Seq<char>, Seq<char>)>, id: Seq<char>) -> Option<int> {
    request_index_from(reqs, id, 0)
}

/// The approval state: yolo mode, the actions approved for the session, and the pending
/// requests with their actions.
pub struct Approval {
    yolo: bool,
    auto_approve_actions: Vec<String>,
    requests: Vec<(String, String)>,
}

/// The views of pending requests: id and action.
pub open spec fn requests_view(v: Seq<(String, String)>) -> Seq<(Seq<char>, Seq<char>)> {
    v.map_values(|p: (String, String)| (p.0@, p.1@))
}

impl Approval {
    /// Whether every action is approved without asking.
    pub closed spec fn yolo(&self) -> bool {
        self.yolo
    }

    /// The actions approved for the rest of the session.
    pub closed spec fn session_actions(&self) -> Seq<Seq<char>> {
        strings_view(self.auto_approve_actions@)
    }

    /// The pending requests: id and action.
    pub closed spec fn pending(&self) -> Seq<(Seq<char>, Seq<char>)> {
        requests_view(self.requests@)
    }

    /// Whether an action is approved without asking.
    pub open spec fn auto_approves(&self, action: Seq<char>) -> bool {
        self.yolo() || self.session_actions().contains(action)
    }

    /// A state with no session approvals and no pending requests.
    pub fn new(yolo: bool) -> (r: Approval)
        ensures
            r.yolo() == yolo,
            r.session_actions().len() == 0,
            r.pending().len() == 0,
    {
        let r = Approval { yolo, auto_approve_actions: Vec::new(), requests: Vec::new() };
        assert(r.session_actions() =~= Seq::<Seq<char>>::empty());
        assert(r.pending() =~= Seq::empty());
        r
    }

    /// Turns yolo mode on or off.
    pub fn set_yolo(&mut self, yolo: bool)
        ensures
            final(self).yolo() == yolo,
            final(self).session_actions() == old(self).session_actions(),
            final(self).pending() == old(self).pending(),
    {
        self.yolo = yolo;
    }

    /// Whether yolo mode is on.
    pub fn is_yolo(&self) -> (r: bool)
        ensures
            r == self.yolo(),
    {
        self.yolo
    }

    /// Whether an action is approved without asking the user: in yolo mode, or once the
    /// user approved it for the session.
    pub fn is_auto_approved(&self, action: &str) -> (r: bool)
        ensures
            r == self.auto_approves(action@),
    {
        if self.yolo {
            return true;
        }
        let mut i: usize = 0;
        while i < self.auto_approve_actions.len()
            invariant
                i <= self.auto_approve_actions@.len(),
                forall|k: int| 0 <= k < i ==> self.session_actions()[k] != action@,
            decreases self.auto_approve_actions@.len() - i,
        {
            if str_eq(self.auto_approve_actions[i].as_str(), action) {
                assert(self.session_actions()[i as int] == action@);
                return true;
            }
            i = i + 1;
        }
        false
    }

    fn approve_for_session(&mut self, action: &str)
        ensures
            final(self).yolo() == old(self).yolo(),
            final(self).pending() == old(self).pending(),
            final(self).session_actions().contains(action@),
            forall|a: Seq<char>| #[trigger] old(self).session_actions().contains(a) ==> final(self).session_actions().contains(a),
            forall|a: Seq<char>| #[trigger] final(self).session_actions().contains(a) ==> old(self).session_actions().contains(a) || a == action@,
    {
        let ghost s0 = self.session_actions();
        let mut present = false;
        let mut i: usize = 0;
        while i < self.auto_approve_actions.len()
            invariant
                i <= self.auto_approve_actions@.len(),
                !present ==> forall|k: int| 0 <= k < i ==> self.session_actions()[k] != action@,
                present ==> self.session_actions().contains(action@),
            decreases self.auto_approve_actions@.len() - i,
        {
            if str_eq(self.auto_approve_actions[i].as_str(), action) {
                assert(self.session_actions()[i as int] == action@);
                present = true;
            }
            i = i + 1;
        }
        if !present {
            self.auto_approve_actions.push(owned(action));
            proof {
                assert(self.session_actions() =~= s0.push(action@));
                assert(self.session_actions()[s0.len() as int] == action@);
                assert forall|a: Seq<char>| #[trigger] s0.contains(a) implies self.session_actions().contains(a) by {
                    let k = choose|k: int| 0 <= k < s0.len() && s0[k] == a;
                    assert(self.session_actions()[k] == a);
                }
            }
        }
    }

    /// Starts a request for approval of an action: a request outside a tool call is an error;
    /// an action approved without asking is approved at once; any other gets a fresh id and is
    /// recorded as pending, to be put on the queue for the user.
    pub fn begin_request(&mut self, in_tool_call: bool, action: &str) -> (r: Result<Option<String>, ApprovalError>)
        ensures
            final(self).yolo() == old(self).yolo(),
            final(self).session_actions() == old(self).session_actions(),
            !in_tool_call ==> r == Err::<Option<String>, ApprovalError>(ApprovalError::NoToolCall) && final(self).pending()
                == old(self).pending(),
            in_tool_call && old(self).auto_approves(action@) ==> r == Ok::<Option<String>, ApprovalError>(None)
                && final(self).pending() == old(self).pending(),
            in_tool_call && !old(self).auto_approves(action@) ==> (r matches Ok(Some(id)) && final(self).pending()
                == old(self).pending().push((id@, action@))),
    {
        if !in_tool_call {
            return Err(ApprovalError::NoToolCall);
        }
        if self.is_auto_approved(action) {
            return Ok(None);
        }
        let id = new_request_id();
        self.record_request(id.as_str(), action);
        Ok(Some(id))
    }

    /// Records a request that was put on the queue for the user.
    pub fn record_request(&mut self, id: &str, action: &str)
        ensures
            final(self).yolo() == old(self).yolo(),
            final(self).session_actions() == old(self).session_actions(),
            final(self).pending() == old(self).pending().push((id@, action@)),
    {
        let ghost p0 = self.pending();
        self.requests.push((owned(id), owned(action)));
        assert(self.pending() =~= p0.push((id@, action@)));
    }

    /// Settles a request that was waited for: approved unless rejected, and an approval for
    /// the session approves the action from now on.
    pub fn settle(&mut self, action: &str, response: ApprovalResponseKind) -> (r: bool)
        ensures
            r == (response != ApprovalResponseKind::Reject),
            final(self).yolo() == old(self).yolo(),
            forall|x: Seq<char>| old(self).auto_approves(x) ==> #[trigger] final(self).auto_approves(x),
            final(self).pending() == old(self).pending(),
            response == ApprovalResponseKind::ApproveForSession ==> final(self).auto_approves(action@),
            response != ApprovalResponseKind::ApproveForSession ==> final(self).session_actions() == old(self).session_actions(),
    {
        match response {
            ApprovalResponseKind::Approve => true,
            ApprovalResponseKind::ApproveForSession => {
                self.approve_for_session(action);
                true
            },
            ApprovalResponseKind::Reject => false,
        }
    }

    /// Answers a pending request: it leaves the pending list, and an approval for the session
    /// approves its action from now on. Returns the request's action; an unknown id is an
    /// error and changes nothing.
    pub fn resolve_request(&mut self, request_id: &str, response: ApprovalResponseKind) -> (r: Result<String, ApprovalError>)
        ensures
            final(self).yolo() == old(self).yolo(),
            forall|x: Seq<char>| old(self).auto_approves(x) ==> #[trigger] final(self).auto_approves(x),
            match request_index(old(self).pending(), request_id@) {
                None => (r matches Err(ApprovalError::RequestNotFound(id)) && id@ == request_id@)
                    && final(self).pending() == old(self).pending()
                    && final(self).session_actions() == old(self).session_actions(),
                Some(i) => r is Ok && r->Ok_0@ == old(self).pending()[i].1 && final(self).pending()
                    == old(self).pending().remove(i) && (response == ApprovalResponseKind::ApproveForSession
                    ==> final(self).auto_approves(old(self).pending()[i].1)) && (response
                    != ApprovalResponseKind::ApproveForSession ==> final(self).session_actions()
                    == old(self).session_actions()),
            },
    {
        let ghost p0 = self.pending();
        let mut i: usize = 0;
        while i < self.requests.len()
            invariant
                i <= self.requests@.len(),
                p0 == self.pending(),
                p0 == old(self).pending(),
                self.yolo() == old(self).yolo(),
                self.session_actions() == old(self).session_actions(),
                request_index(p0, request_id@) == request_index_from(p0, request_id@, i as int),
            decreases self.requests@.len() - i,
        {
            if str_eq(self.requests[i].0.as_str(), request_id) {
                assert(p0[i as int].0 == request_id@);
                assert(request_index_from(p0, request_id@, i as int) == Some(i as int));
                let (_, action) = self.requests.remove(i);
                proof {
                    assert(self.pending() =~= p0.remove(i as int));
                }
                let ghost mid = self.session_actions();
                if response == ApprovalResponseKind::ApproveForSession {
                    self.approve_for_session(action.as_str());
                }
                proof {
                    assert forall|x: Seq<char>| old(self).auto_approves(x) implies #[trigger] self.auto_approves(x) by {
                        if mid.contains(x) {
                            assert(self.session_actions().contains(x));
                        }
                    }
                }
                return Ok(action);
            }
            i = i + 1;
        }
        Err(ApprovalError::RequestNotFound(owned(request_id)))
    }

    /// Finishes a request with the user's answer: the request leaves the pending list and the
    /// result is whether the action may go ahead (any answer but a rejection); an approval for
    /// the session approves its action from now on. An unknown id is an error and changes
    /// nothing.
    pub fn finish_request(&mut self, request_id: &str, response: ApprovalResponseKind) -> (r: Result<bool, ApprovalError>)
        ensures
            final(self).yolo() == old(self).yolo(),
            forall|x: Seq<char>| old(self).auto_approves(x) ==> #[trigger] final(self).auto_approves(x),
            match request_index(old(self).pending(), request_id@) {
                None => (r matches Err(ApprovalError::RequestNotFound(id)) && id@ == request_id@)
                    && final(self).pending() == old(self).pending()
                    && final(self).session_actions() == old(self).session_actions(),
                Some(i) => r == Ok::<bool, ApprovalError>(response != ApprovalResponseKind::Reject)
                    && final(self).pending() == old(self).pending().remove(i) && (response
                    == ApprovalResponseKind::ApproveForSession ==> final(self).auto_approves(old(self).pending()[i].1))
                    && (response != ApprovalResponseKind::ApproveForSession ==> final(self).session_actions()
                    == old(self).session_actions()),
            },
    {
        match self.resolve_request(request_id, response) {
            Ok(_) => Ok(response != ApprovalResponseKind::Reject),
            Err(e) => Err(e),
        }
    }
}

/// Once the user approves an action for the session, later requests for it are approved
/// without asking.
pub proof fn lemma_session_approval_sticks(after: Approval, action: Seq<char>)
    requires
        after.session_actions().contains(action),
    ensures
        after.auto_approves(action),
{
}

/// A request, once answered, is no longer pending: answering it again finds nothing, as long
/// as no other request with the same id is pending.
pub proof fn lemma_answered_once(p: Seq<(Seq<char>, Seq<char>)>, i: int, id: Seq<char>)
    requires
        request_index(p, id) == Some(i),
        forall|k: int| 0 <= k < p.len() && k != i ==> p[k].0 != id,
    ensures
        request_index(p.remove(i), id) is None,
{
    lemma_index_found(p, id, 0);
    lemma_no_index(p.remove(i), id, 0);
}

proof fn lemma_index_found(p: Seq<(Seq<char>, Seq<char>)>, id: Seq<char>, j: int)
    requires
        0 <= j,
    ensures
        match request_index_from(p, id, j) {
            Some(i) => j <= i < p.len() && p[i].0 == id,
            None => forall|k: int| j <= k < p.len() ==> p[k].0 != id,
        },
    decreases p.len() - j,
{
    if j < p.len() {
        lemma_index_found(p, id, j + 1);
    }
}

proof fn lemma_no_index(p: Seq<(Seq<char>, Seq<char>)>, id: Seq<char>, j: int)
    requires
        0 <= j,
        forall|k: int| j <= k < p.len() ==> p[k].0 != id,
    ensures
        request_index_from(p, id, j) is None,
    decreases p.len() - j,
{
    if j < p.len() {
        lemma_no_index(p, id, j + 1);
    }
}

/// `uuid::Uuid::new_v4().to_string()`: a random id, written as 36 characters.
#[verifier::external_body]
fn new_request_id() -> (r: String)
    ensures
        r@.len() == 36,
{
    uuid::Uuid::new_v4().to_string()
}

} // verus!
