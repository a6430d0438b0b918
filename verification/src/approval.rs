//! Calls that wait for a person's approval, and who is told of the decision.

use crate::json::{value_clone, Json};
use crate::table::Table;
use serde_json::Value;
use vstd::prelude::*;

verus! {

/// How a wait for approval ends.
#[derive(Debug, Clone, Copy, PartialEq, Eq, Structural)]
pub enum Decision {
    Approved,
    Denied,
    TimedOut,
}

/// A call that waits for approval.
#[derive(Debug)]
pub struct Pending {
    pub id: String,
    pub session_id: String,
    pub rule_id: String,
    pub tool_name: String,
    pub arguments: Value,
    pub upstream: String,
    pub created_ms: u64,
}

/// What is said of a call that waits for approval.
pub struct Asked {
    pub id: Seq<char>,
    pub session_id: Seq<char>,
    pub rule_id: Seq<char>,
    pub tool_name: Seq<char>,
    pub arguments: Json,
    pub upstream: Seq<char>,
    pub created_ms: u64,
}

impl View for Pending {
    type V = Asked;

    open spec fn view(&self) -> Asked {
        Asked {
            id: self.id@,
            session_id: self.session_id@,
            rule_id: self.rule_id@,
            tool_name: self.tool_name@,
            arguments: crate::json::json_of(self.arguments),
            upstream: self.upstream@,
            created_ms: self.created_ms,
        }
    }
}

impl Clone for Pending {
    fn clone(&self) -> (r: Self)
        ensures
            r@ == self@,
    {
        Pending {
            id: self.id.clone(),
            session_id: self.session_id.clone(),
            rule_id: self.rule_id.clone(),
            tool_name: self.tool_name.clone(),
            arguments: value_clone(&self.arguments),
            upstream: self.upstream.clone(),
            created_ms: self.created_ms,
        }
    }
}

/// A call that waits and the sender through which the decision is told.
struct Waiter<S> {
    info: Pending,
    sender: S,
}

/// The calls that wait for approval, by id. `S` is what a decision is sent
/// through.
pub struct Approvals<S> {
    waiters: Table<Waiter<S>>,
}

/// A call that waits, with its sender.
pub struct Awaited<S> {
    pub info: Asked,
    pub sender: S,
}

/// A decision and the sender that it is to be told through.
pub struct Delivery<S> {
    pub sender: S,
    pub decision: Decision,
}

impl<S> View for Approvals<S> {
    type V = Map<Seq<char>, Awaited<S>>;

    closed spec fn view(&self) -> Map<Seq<char>, Awaited<S>> {
        self.waiters@.map_values(|w: Waiter<S>| Awaited { info: w.info@, sender: w.sender })
    }
}

/// `infos` are the calls that wait, each once, in some order.
pub open spec fn lists<S>(infos: Seq<Pending>, waiting: Map<Seq<char>, Awaited<S>>) -> bool {
    &&& waiting.dom().finite()
    &&& infos.len() == waiting.len()
    &&& forall|i: int|
        0 <= i < infos.len() ==> waiting.dom().contains((#[trigger] infos[i])@.id)
            && waiting[infos[i]@.id].info == infos[i]@
    &&& forall|i: int, j: int|
        0 <= i < j < infos.len() ==> (#[trigger] infos[i])@.id != (#[trigger] infos[j])@.id
}

/// The sender that a decision on `id` is told through.
pub open spec fn sender_for<S>(waiting: Map<Seq<char>, Awaited<S>>, id: Seq<char>) -> Option<S> {
    if waiting.dom().contains(id) {
        Some(waiting[id].sender)
    } else {
        None
    }
}

/// What waits once `info` has been registered: it takes the place of a call
/// with the same id.
pub open spec fn registered<S>(
    waiting: Map<Seq<char>, Awaited<S>>,
    info: Asked,
    sender: S,
) -> Map<Seq<char>, Awaited<S>> {
    waiting.insert(info.id, Awaited { info, sender })
}

impl<S> Approvals<S> {
    #[verifier::type_invariant]
    spec fn filed_by_id(self) -> bool {
        forall|k: Seq<char>|
            #![trigger self.waiters@[k]]
            self.waiters@.dom().contains(k) ==> self.waiters@[k].info@.id == k
    }

    /// No calls that wait.
    pub fn new() -> (r: Self)
        ensures
            r@ == Map::<Seq<char>, Awaited<S>>::empty(),
    {
        let r = Approvals { waiters: Table::new() };
        assert(r@ =~= Map::empty());
        r
    }

    /// Lets a call wait. Its decision will be told through `sender`.
    pub fn register(&mut self, info: Pending, sender: S)
        ensures
            final(self)@ == registered(old(self)@, info@, sender),
    {
        proof {
            use_type_invariant(&*self);
        }
        let mut waiters: Table<Waiter<S>> = Table::new();
        std::mem::swap(&mut waiters, &mut self.waiters);
        let id = info.id.clone();
        waiters.insert(id, Waiter { info, sender });
        self.waiters = waiters;
        assert(self@ =~= registered(old(self)@, info@, sender));
    }

    /// The calls that wait, each once; in which order is left open.
    pub fn list(&self) -> (r: Vec<Pending>)
        ensures
            lists(r@, self@),
    {
        proof {
            use_type_invariant(self);
        }
        let n = self.waiters.len();
        let ghost keys = self.waiters.keys();
        let mut infos: Vec<Pending> = Vec::new();
        let mut i: usize = 0;
        while i < n
            invariant
                i <= n,
                n == keys.len(),
                keys == self.waiters.keys(),
                self.filed_by_id(),
                forall|k: Seq<char>|
                    self.waiters@.dom().contains(k) <==> #[trigger] self.waiters.keys().contains(
                        k,
                    ),
                infos@.len() == i,
                forall|j: int|
                    0 <= j < i ==> (#[trigger] infos@[j])@ == self.waiters@[keys[j]].info@
                        && infos@[j]@.id == keys[j],
            decreases n - i,
        {
            let (_, waiter) = self.waiters.entry(i);
            infos.push(waiter.info.clone());
            i += 1;
        }
        proof {
            assert forall|j: int| 0 <= j < infos@.len() implies self@.dom().contains(
                (#[trigger] infos@[j])@.id,
            ) && self@[infos@[j]@.id].info == infos@[j]@ by {
                assert(keys.contains(keys[j]));
            }
            assert(self@.dom() =~= self.waiters@.dom());
        }
        infos
    }

    /// Decides on a call that waits: it waits no longer, and the decision is to
    /// be delivered through its sender. Nothing where no such call waits.
    pub fn decide(&mut self, id: &str, decision: Decision) -> (r: Option<Delivery<S>>)
        ensures
            final(self)@ == old(self)@.remove(id@),
            match r {
                Some(d) => d.decision == decision && sender_for(old(self)@, id@) == Some(d.sender),
                None => sender_for(old(self)@, id@) is None,
            },
    {
        match self.take(id) {
            Some(waiter) => Some(Delivery { sender: waiter.sender, decision }),
            None => None,
        }
    }

    /// Forgets a call that waits. No decision is delivered to it.
    pub fn purge(&mut self, id: &str)
        ensures
            final(self)@ == old(self)@.remove(id@),
    {
        let _ = self.take(id);
    }

    fn take(&mut self, id: &str) -> (r: Option<Waiter<S>>)
        ensures
            final(self)@ == old(self)@.remove(id@),
            match r {
                Some(w) => sender_for(old(self)@, id@) == Some(w.sender),
                None => sender_for(old(self)@, id@) is None,
            },
    {
        proof {
            use_type_invariant(&*self);
        }
        let mut waiters: Table<Waiter<S>> = Table::new();
        std::mem::swap(&mut waiters, &mut self.waiters);
        let r = waiters.remove(id);
        self.waiters = waiters;
        assert(self@ =~= old(self)@.remove(id@));
        r
    }

    /// Denies every call that waits: a denial is to be delivered through the
    /// sender of each, and none waits any longer. The calls are returned too, in
    /// the order of the deliveries.
    pub fn shutdown_drain(&mut self) -> (r: (Vec<Pending>, Vec<Delivery<S>>))
        ensures
            final(self)@ == Map::<Seq<char>, Awaited<S>>::empty(),
            lists(r.0@, old(self)@),
            r.1@.len() == r.0@.len(),
            forall|i: int|
                0 <= i < r.1@.len() ==> (#[trigger] r.1@[i]).decision == Decision::Denied
                    && sender_for(old(self)@, r.0@[i]@.id) == Some(r.1@[i].sender),
    {
        proof {
            use_type_invariant(&*self);
        }
        let ghost before = *self;
        let mut waiters: Table<Waiter<S>> = Table::new();
        std::mem::swap(&mut waiters, &mut self.waiters);
        assert(self@ =~= Map::empty());
        let ghost keys = waiters.keys();
        let mut drained = waiters.drain();
        let ghost all = drained@;
        let mut infos: Vec<Pending> = Vec::new();
        let mut deliveries: Vec<Delivery<S>> = Vec::new();
        while drained.len() > 0
            invariant
                infos@.len() + drained@.len() == all.len(),
                deliveries@.len() == infos@.len(),
                drained@ == all.skip(infos@.len() as int),
                forall|i: int| 0 <= i < infos@.len() ==> #[trigger] infos@[i] == all[i].info,
                forall|i: int|
                    0 <= i < infos@.len() ==> (#[trigger] deliveries@[i]).decision
                        == Decision::Denied && deliveries@[i].sender == all[i].sender,
            decreases drained@.len(),
        {
            let waiter = drained.remove(0);
            infos.push(waiter.info);
            deliveries.push(Delivery { sender: waiter.sender, decision: Decision::Denied });
        }
        proof {
            assert(before@.dom() =~= before.waiters@.dom());
            assert forall|i: int| 0 <= i < infos@.len() implies {
                &&& before@.dom().contains((#[trigger] infos@[i])@.id)
                &&& infos@[i]@.id == keys[i]
                &&& before@[keys[i]].info == infos@[i]@
                &&& before@[keys[i]].sender == all[i].sender
            } by {
                assert(keys.contains(keys[i]));
                assert(all[i] == before.waiters@[keys[i]]);
            }
        }
        (infos, deliveries)
    }
}

/// A decision on a registered call is told through the sender that it was
/// registered with.
pub proof fn law_decision_reaches_its_waiter<S>(
    waiting: Map<Seq<char>, Awaited<S>>,
    info: Asked,
    sender: S,
)
    ensures
        sender_for(registered(waiting, info, sender), info.id) == Some(sender),
{
}

/// A call is decided once: after a decision or a purge, none is told of a
/// further decision on the same id.
pub proof fn law_decided_once<S>(waiting: Map<Seq<char>, Awaited<S>>, id: Seq<char>)
    ensures
        sender_for(waiting.remove(id), id) is None,
        waiting.remove(id).remove(id) == waiting.remove(id),
{
    assert(waiting.remove(id).remove(id) =~= waiting.remove(id));
}

/// Registering, deciding or purging one call leaves every other waiting as it
/// was.
pub proof fn law_other_calls_keep_waiting<S>(
    waiting: Map<Seq<char>, Awaited<S>>,
    info: Asked,
    sender: S,
    other: Seq<char>,
)
    requires
        other != info.id,
    ensures
        sender_for(registered(waiting, info, sender), other) == sender_for(waiting, other),
        sender_for(waiting.remove(info.id), other) == sender_for(waiting, other),
        registered(waiting, info, sender).dom().contains(other) == waiting.dom().contains(other),
        waiting.remove(info.id).dom().contains(other) == waiting.dom().contains(other),
        waiting.dom().contains(other) ==> registered(waiting, info, sender)[other]
            == waiting[other] && waiting.remove(info.id)[other] == waiting[other],
{
}

/// Deciding a freshly registered call leaves what waited before it, and nothing
/// of a call whose place it took.
pub proof fn law_decide_undoes_register<S>(
    waiting: Map<Seq<char>, Awaited<S>>,
    info: Asked,
    sender: S,
)
    ensures
        registered(waiting, info, sender).remove(info.id) == waiting.remove(info.id),
{
    assert(registered(waiting, info, sender).remove(info.id) =~= waiting.remove(info.id));
}

/// A listing leaves out no call that waits.
pub proof fn law_listing_is_complete<S>(
    infos: Seq<Pending>,
    waiting: Map<Seq<char>, Awaited<S>>,
    id: Seq<char>,
)
    requires
        lists(infos, waiting),
        waiting.dom().contains(id),
    ensures
        exists|i: int| 0 <= i < infos.len() && (#[trigger] infos[i])@.id == id,
{
    let ids = infos.map_values(|p: Pending| p@.id);
    assert(ids.no_duplicates());
    ids.unique_seq_to_set();
    assert forall|k: Seq<char>| ids.to_set().contains(k) implies waiting.dom().contains(k) by {
        let i = ids.index_of(k);
        assert(infos[i]@.id == k);
    }
    vstd::set_lib::lemma_subset_equality(ids.to_set(), waiting.dom());
    assert(ids.contains(id));
    let i = ids.index_of(id);
    assert(infos[i]@.id == id);
}

/// A call that waits says what its fields hold.
pub proof fn law_pending_says_what_it_holds(p: Pending)
    ensures
        p@.id == p.id@,
        p@.session_id == p.session_id@,
        p@.rule_id == p.rule_id@,
        p@.tool_name == p.tool_name@,
        p@.arguments == crate::json::json_of(p.arguments),
        p@.upstream == p.upstream@,
        p@.created_ms == p.created_ms,
{
}

/// A registered call waits under its id, as it was described and with its sender,
/// beside all that waited under other ids.
pub proof fn law_registered_calls_wait<S>(
    waiting: Map<Seq<char>, Awaited<S>>,
    info: Asked,
    sender: S,
    other: Seq<char>,
)
    ensures
        registered(waiting, info, sender).dom() == waiting.dom().insert(info.id),
        registered(waiting, info, sender)[info.id].info == info,
        registered(waiting, info, sender)[info.id].sender == sender,
        other != info.id ==> registered(waiting, info, sender)[other] == waiting[other],
{
    assert(registered(waiting, info, sender).dom() =~= waiting.dom().insert(info.id));
}

/// A decision has a sender if and only if its call waits, and it is the sender of
/// that call.
pub proof fn law_who_is_told<S>(waiting: Map<Seq<char>, Awaited<S>>, id: Seq<char>)
    ensures
        waiting.contains_key(id) ==> sender_for(waiting, id) == Some(waiting[id].sender),
        !waiting.contains_key(id) ==> sender_for(waiting, id) is None,
{
}

/// A listing holds each call that waits in exactly one place, as it was
/// described, and nothing else.
pub proof fn law_listing_is_exact<S>(
    infos: Seq<Pending>,
    waiting: Map<Seq<char>, Awaited<S>>,
    i: int,
    j: int,
)
    requires
        lists(infos, waiting),
        0 <= i < infos.len(),
        0 <= j < infos.len(),
    ensures
        infos.len() == waiting.dom().len(),
        waiting.contains_key(infos[i]@.id),
        waiting[infos[i]@.id].info == infos[i]@,
        infos[i]@.id == infos[j]@.id ==> i == j,
{
    assert(waiting.dom().contains(infos[i]@.id));
    if i < j {
        assert(infos[i]@.id != infos[j]@.id);
    }
    if j < i {
        assert(infos[j]@.id != infos[i]@.id);
    }
}

/// A listing of nothing that waits is empty.
pub proof fn law_nothing_waits_nothing_is_listed<S>(infos: Seq<Pending>)
    requires
        lists(infos, Map::<Seq<char>, Awaited<S>>::empty()),
    ensures
        infos.len() == 0,
{
    if infos.len() > 0 {
        assert(!Map::<Seq<char>, Awaited<S>>::empty().dom().contains(infos[0]@.id));
    }
}

} // verus!
