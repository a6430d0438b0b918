//! The control API: what each of its requests is answered.

use crate::approval::{Approvals, Decision, Delivery, Pending};
use vstd::prelude::*;

verus! {

/// An answer: an HTTP status and a text.
pub struct Reply {
    pub status: u16,
    pub body: &'static str,
}

/// The answer to a request for the calls that wait.
pub struct PendingBody {
    pub pending: Vec<Pending>,
}

/// What a decision on a call is answered: `word` where the call waited, and
/// that it is not pending where it did not.
pub open spec fn answers(reply: Reply, waited: bool, word: Seq<char>) -> bool {
    if waited {
        reply.status == 200 && reply.body@ == word
    } else {
        reply.status == 404 && reply.body@ == "not pending"@
    }
}

/// The answer to a request for the state of the proxy.
pub fn health() -> (r: &'static str)
    ensures
        r@ == "ok"@,
{
    "ok"
}

/// The answer to a request for the calls that wait.
pub fn list_pending<S>(approvals: &Approvals<S>) -> (r: PendingBody)
    ensures
        crate::approval::lists(r.pending@, approvals@),
{
    PendingBody { pending: approvals.list() }
}

/// Approves the call `id`: the answer, and the approval to deliver.
pub fn approve<S>(approvals: &mut Approvals<S>, id: &str) -> (r: (Reply, Option<Delivery<S>>))
    ensures
        final(approvals)@ == old(approvals)@.remove(id@),
        answers(r.0, old(approvals)@.dom().contains(id@), "approved"@),
        match r.1 {
            Some(d) => d.decision == Decision::Approved && crate::approval::sender_for(
                old(approvals)@,
                id@,
            ) == Some(d.sender),
            None => crate::approval::sender_for(old(approvals)@, id@) is None,
        },
{
    match approvals.decide(id, Decision::Approved) {
        Some(delivery) => (Reply { status: 200, body: "approved" }, Some(delivery)),
        None => (Reply { status: 404, body: "not pending" }, None),
    }
}

/// Denies the call `id`: the answer, and the denial to deliver.
pub fn deny<S>(approvals: &mut Approvals<S>, id: &str) -> (r: (Reply, Option<Delivery<S>>))
    ensures
        final(approvals)@ == old(approvals)@.remove(id@),
        answers(r.0, old(approvals)@.dom().contains(id@), "denied"@),
        match r.1 {
            Some(d) => d.decision == Decision::Denied && crate::approval::sender_for(
                old(approvals)@,
                id@,
            ) == Some(d.sender),
            None => crate::approval::sender_for(old(approvals)@, id@) is None,
        },
{
    match approvals.decide(id, Decision::Denied) {
        Some(delivery) => (Reply { status: 200, body: "denied" }, Some(delivery)),
        None => (Reply { status: 404, body: "not pending" }, None),
    }
}

/// A decision is answered with success and its word where the call waited, and
/// with not found where it did not, and never otherwise.
pub proof fn law_how_decisions_are_answered(reply: Reply, waited: bool, word: Seq<char>)
    requires
        answers(reply, waited, word),
    ensures
        waited ==> reply.status == 200 && reply.body@ == word,
        !waited ==> reply.status == 404 && reply.body@ == "not pending"@,
{
}

} // verus!
