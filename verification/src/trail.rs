//! The audit trail of a session: what holds of the records that a run of
//! messages leaves, whatever the messages are.

use crate::books::{Books, Call, Reply, Step};
use crate::json::Json;
use crate::proxy::Action;
use crate::receipts::Entry;
use vstd::prelude::*;

verus! {

/// A document that passes through the proxy at a time.
pub enum Passing {
    FromClient { doc: Option<Json>, ts: u64 },
    FromUpstream { doc: Option<Json>, ts: u64 },
}

impl Passing {
    /// The steps that this document makes.
    pub open spec fn steps(self) -> Seq<Step> {
        match self {
            Passing::FromClient { doc, ts } => crate::books::client_steps(doc, ts),
            Passing::FromUpstream { doc, ts } => crate::books::upstream_steps(doc, ts),
        }
    }

    /// What is recorded of this document.
    pub open spec fn entries(self, books: Books) -> Seq<Entry> {
        match self {
            Passing::FromClient { doc, ts } => books.client_entries(doc, ts),
            Passing::FromUpstream { doc, ts } => books.upstream_entries(doc, ts),
        }
    }

    /// The books after this document.
    pub open spec fn after(self, books: Books) -> Books {
        match self {
            Passing::FromClient { doc, ts } => books.after_client(doc, ts),
            Passing::FromUpstream { doc, ts } => books.after_upstream(doc, ts),
        }
    }
}

/// The steps that a traffic of documents makes. What holds of every run of steps
/// holds of these.
pub open spec fn steps_of(traffic: Seq<Passing>) -> Seq<Step>
    decreases traffic.len(),
{
    if traffic.len() == 0 {
        Seq::empty()
    } else {
        steps_of(traffic.drop_last()) + traffic.last().steps()
    }
}

/// Two runs of steps, one after the other, leave the books and the records that
/// the second leaves when it starts from where the first ends.
pub proof fn law_runs_join(books: Books, first: Seq<Step>, second: Seq<Step>)
    ensures
        crate::books::books_after(books, first + second) == crate::books::books_after(
            crate::books::books_after(books, first),
            second,
        ),
        crate::books::trail_of(books, first + second) == crate::books::trail_of(books, first)
            + crate::books::trail_of(crate::books::books_after(books, first), second),
    decreases second.len(),
{
    if second.len() == 0 {
        assert(first + second =~= first);
        assert(crate::books::trail_of(books, first) + Seq::<Entry>::empty()
            =~= crate::books::trail_of(books, first));
    } else {
        law_runs_join(books, first, second.drop_last());
        assert((first + second).drop_last() =~= first + second.drop_last());
        let was = crate::books::books_after(books, first);
        let head = crate::books::trail_of(books, first);
        let tail = crate::books::trail_of(was, second.drop_last());
        match second.last().entry(crate::books::books_after(was, second.drop_last())) {
            Some(entry) => {
                assert((head + tail).push(entry) =~= head + tail.push(entry));
            },
            None => {},
        }
    }
}

/// A further document adds its records to the trail of the traffic before it.
pub proof fn law_documents_add_up(books: Books, traffic: Seq<Passing>, passing: Passing)
    ensures
        crate::books::books_after(books, steps_of(traffic.push(passing))) == passing.after(
            crate::books::books_after(books, steps_of(traffic)),
        ),
        crate::books::trail_of(books, steps_of(traffic.push(passing))) == crate::books::trail_of(
            books,
            steps_of(traffic),
        ) + passing.entries(crate::books::books_after(books, steps_of(traffic))),
{
    assert(traffic.push(passing).drop_last() =~= traffic);
    law_runs_join(books, steps_of(traffic), passing.steps());
}

/// The trail only grows: what passes later leaves the records that stand in it
/// as they are.
pub proof fn law_trail_is_append_only(books: Books, steps: Seq<Step>, later: Seq<Step>)
    ensures
        crate::books::trail_of(books, steps).is_prefix_of(
            crate::books::trail_of(books, steps + later),
        ),
{
    law_runs_join(books, steps, later);
    let head = crate::books::trail_of(books, steps);
    let tail = crate::books::trail_of(crate::books::books_after(books, steps), later);
    assert(head =~= (head + tail).subrange(0, head.len() as int));
}

/// Every governed call gets a permit: the document that makes calls, one or a
/// batch of them, leaves the permit of each, in order, and nothing else.
pub proof fn law_every_call_has_a_permit(books: Books, doc: Json, ts: u64)
    ensures
        books.client_entries(Some(doc), ts) == crate::books::calls_of(doc).map_values(
            |call: Call| call.permit(books, ts),
        ),
{
    lemma_permits_of_calls(books, crate::books::calls_of(doc), ts);
}

proof fn lemma_permits_of_calls(books: Books, calls: Seq<Call>, ts: u64)
    ensures
        crate::books::trail_of(books, crate::books::asked_at(calls, ts)) == calls.map_values(
            |call: Call| call.permit(books, ts),
        ),
    decreases calls.len(),
{
    let steps = crate::books::asked_at(calls, ts);
    let permits = calls.map_values(|call: Call| call.permit(books, ts));
    if calls.len() == 0 {
        assert(permits =~= Seq::empty());
    } else {
        let earlier = calls.drop_last();
        lemma_permits_of_calls(books, earlier, ts);
        assert(steps.drop_last() =~= crate::books::asked_at(earlier, ts));
        lemma_same_session(books, steps.drop_last());
        assert(permits =~= earlier.map_values(|call: Call| call.permit(books, ts)).push(
            calls.last().permit(books, ts),
        ));
    }
}

/// A batch makes the calls and carries the responses that its messages do, each
/// in its order.
pub proof fn law_batches_join(first: Seq<Json>, second: Seq<Json>)
    ensures
        crate::books::calls_of(Json::List(first + second)) == crate::books::calls_of(
            Json::List(first),
        ) + crate::books::calls_of(Json::List(second)),
        crate::books::replies_of(Json::List(first + second)) == crate::books::replies_of(
            Json::List(first),
        ) + crate::books::replies_of(Json::List(second)),
    decreases second.len(),
{
    let calls = crate::books::calls_among(first);
    let replies = crate::books::replies_among(first);
    if second.len() == 0 {
        assert(first + second =~= first);
        assert(calls + Seq::<Call>::empty() =~= calls);
        assert(replies + Seq::<Reply>::empty() =~= replies);
    } else {
        let earlier = second.drop_last();
        law_batches_join(first, earlier);
        assert((first + second).drop_last() =~= first + earlier);
        if let Some(call) = crate::books::call_of(second.last()) {
            let more = crate::books::calls_among(earlier);
            assert((calls + more).push(call) =~= calls + more.push(call));
        }
        if let Some(reply) = crate::books::reply_of(second.last()) {
            let more = crate::books::replies_among(earlier);
            assert((replies + more).push(reply) =~= replies + more.push(reply));
        }
    }
}

/// No call of a batch is left out: the call that any of its messages makes is
/// among the calls of the batch, and its permit among what is recorded of it.
pub proof fn law_no_batched_call_is_left_out(books: Books, messages: Seq<Json>, i: int, ts: u64)
    requires
        0 <= i < messages.len(),
        crate::books::call_of(messages[i]) is Some,
    ensures
        crate::books::calls_of(Json::List(messages)).contains(
            crate::books::call_of(messages[i])->0,
        ),
        books.client_entries(Some(Json::List(messages)), ts).contains(
            crate::books::call_of(messages[i])->0.permit(books, ts),
        ),
{
    let call = crate::books::call_of(messages[i])->0;
    let doc = Json::List(messages);
    let calls = crate::books::calls_of(doc);
    lemma_call_is_among(messages, i);
    law_every_call_has_a_permit(books, doc, ts);
    let j = calls.index_of(call);
    assert(calls[j] == call);
    assert(books.client_entries(Some(doc), ts)[j] == call.permit(books, ts));
}

proof fn lemma_call_is_among(messages: Seq<Json>, i: int)
    requires
        0 <= i < messages.len(),
        crate::books::call_of(messages[i]) is Some,
    ensures
        crate::books::calls_among(messages).contains(crate::books::call_of(messages[i])->0),
    decreases messages.len(),
{
    let call = crate::books::call_of(messages[i])->0;
    let calls = crate::books::calls_among(messages);
    if i == messages.len() - 1 {
        assert(calls[calls.len() - 1] == call);
    } else {
        let earlier = crate::books::calls_among(messages.drop_last());
        lemma_call_is_among(messages.drop_last(), i);
        let j = earlier.index_of(call);
        assert(calls[j] == call);
    }
}

/// A batch of one message is that message, unless the message is itself a list.
pub proof fn law_batch_of_one(msg: Json)
    requires
        !(msg is List),
    ensures
        crate::books::calls_of(Json::List(seq![msg])) == crate::books::calls_of(msg),
        crate::books::replies_of(Json::List(seq![msg])) == crate::books::replies_of(msg),
        crate::books::calls_of(msg) == match crate::books::call_of(msg) {
            Some(call) => seq![call],
            None => Seq::empty(),
        },
        crate::books::replies_of(msg) == match crate::books::reply_of(msg) {
            Some(reply) => seq![reply],
            None => Seq::empty(),
        },
{
    let none = Seq::<Json>::empty();
    assert(seq![msg] =~= none.push(msg));
    crate::books::lemma_one_more_call(none, msg, 0);
    crate::books::lemma_one_more_reply(none, msg, 0);
    if let Some(call) = crate::books::call_of(msg) {
        assert(Seq::<Call>::empty().push(call) =~= seq![call]);
    }
    if let Some(reply) = crate::books::reply_of(msg) {
        assert(Seq::<Reply>::empty().push(reply) =~= seq![reply]);
    }
}

/// No step of the run carries the key.
pub open spec fn silent_on(steps: Seq<Step>, key: Seq<char>) -> bool {
    forall|i: int| 0 <= i < steps.len() ==> (#[trigger] steps[i]).key() != key
}

/// Steps that do not carry a key change nothing of what waits under it, nor
/// whose session it is.
pub proof fn law_other_keys_are_left_alone(books: Books, steps: Seq<Step>, key: Seq<char>)
    requires
        silent_on(steps, key),
    ensures
        crate::books::books_after(books, steps).session_id == books.session_id,
        crate::books::books_after(books, steps).upstream == books.upstream,
        crate::books::books_after(books, steps).pending.dom().contains(key)
            == books.pending.dom().contains(key),
        books.pending.dom().contains(key) ==> crate::books::books_after(books, steps).pending[key]
            == books.pending[key],
    decreases steps.len(),
{
    if steps.len() > 0 {
        let before = steps.drop_last();
        assert forall|i: int| 0 <= i < before.len() implies (#[trigger] before[i]).key() != key by {
            assert(before[i] == steps[i]);
        }
        law_other_keys_are_left_alone(books, before, key);
        assert(steps[steps.len() - 1].key() != key);
    }
}

/// A response that echoes the id of a call answers that call.
pub proof fn law_echoed_id_answers(call: Call, reply: Reply)
    requires
        reply.id == call.id,
    ensures
        reply.key() == call.key(),
{
}

/// A response with another id than that of a call does not answer it: it leaves
/// the call waiting and no receipt that it would not leave without the call.
pub proof fn law_another_id_does_not_answer(
    books: Books,
    call: Call,
    asked_ms: u64,
    reply: Reply,
    ts: u64,
)
    requires
        crate::receipts::is_scalar(call.id),
        crate::receipts::is_scalar(reply.id),
        reply.id != call.id,
    ensures
        ({
            let asked = (Step::Asked { call, ts: asked_ms }).after(books);
            let answer = Step::Answered { reply, ts };
            &&& answer.entry(asked) == answer.entry(books)
            &&& answer.after(asked).pending.dom().contains(call.key())
            &&& answer.after(asked).pending[call.key()] == asked.pending[call.key()]
        }),
{
    if reply.key() == call.key() {
        crate::receipts::law_ids_have_their_own_keys(reply.id, call.id);
    }
}

/// Every answered call is chained to its permit: after a governed call, and
/// whatever passes meanwhile under other keys, the response with the call's id
/// leaves a receipt that carries the permit's id, the session, the response's
/// status and the time that has passed.
pub proof fn law_receipt_carries_the_permit(
    books: Books,
    call: Call,
    asked_ms: u64,
    between: Seq<Step>,
    reply: Reply,
    answered_ms: u64,
)
    requires
        reply.id == call.id,
        silent_on(between, call.key()),
    ensures
        ({
            let ask = Step::Asked { call, ts: asked_ms };
            let answer = Step::Answered { reply, ts: answered_ms };
            let permit = call.permit(books, asked_ms);
            let entry = answer.entry(crate::books::books_after(ask.after(books), between));
            &&& ask.entry(books) == Some(permit)
            &&& entry is Some
            &&& entry->0 is Receipt
            &&& entry->0->Receipt_permit_id == permit->Permit_id
            &&& entry->0->Receipt_session_id == permit->Permit_session_id
            &&& entry->0->Receipt_status == reply.status
            &&& entry->0->Receipt_result_hash == crate::receipts::content_address(reply.payload)
            &&& entry->0->Receipt_timestamp_ms == answered_ms
            &&& entry->0->Receipt_duration_ms == if answered_ms >= asked_ms {
                answered_ms - asked_ms
            } else {
                0
            }
        }),
{
    let ask = Step::Asked { call, ts: asked_ms };
    law_other_keys_are_left_alone(ask.after(books), between, call.key());
}

/// No step of the run is a governed call with the key.
pub open spec fn not_asked(steps: Seq<Step>, key: Seq<char>) -> bool {
    forall|i: int|
        0 <= i < steps.len() && (#[trigger] steps[i]) is Asked ==> steps[i].key() != key
}

/// Nothing comes to wait under a key that no governed call takes.
proof fn lemma_nothing_waits_unasked(books: Books, steps: Seq<Step>, key: Seq<char>)
    requires
        not_asked(steps, key),
        !books.pending.dom().contains(key),
    ensures
        !crate::books::books_after(books, steps).pending.dom().contains(key),
    decreases steps.len(),
{
    if steps.len() > 0 {
        let before = steps.drop_last();
        assert forall|i: int|
            0 <= i < before.len() && (#[trigger] before[i]) is Asked implies before[i].key()
            != key by {
            assert(before[i] == steps[i]);
        }
        lemma_nothing_waits_unasked(books, before, key);
        let last = steps[steps.len() - 1];
        assert(last is Asked ==> last.key() != key);
    }
}

/// A call is answered once: after a response, no further response with the same
/// key leaves a receipt until a governed call takes the key again.
pub proof fn law_one_receipt_per_call(
    books: Books,
    reply: Reply,
    answered_ms: u64,
    between: Seq<Step>,
    again: Reply,
    ts: u64,
)
    requires
        again.key() == reply.key(),
        not_asked(between, reply.key()),
    ensures
        (Step::Answered { reply: again, ts }).entry(
            crate::books::books_after(
                (Step::Answered { reply, ts: answered_ms }).after(books),
                between,
            ),
        ) is None,
{
    lemma_nothing_waits_unasked(
        (Step::Answered { reply, ts: answered_ms }).after(books),
        between,
        reply.key(),
    );
}

/// A response that nothing waits for leaves no receipt and changes nothing.
pub proof fn law_unasked_response_leaves_no_trace(books: Books, reply: Reply, ts: u64)
    requires
        !books.pending.dom().contains(reply.key()),
    ensures
        (Step::Answered { reply, ts }).entry(books) is None,
        (Step::Answered { reply, ts }).after(books) == books,
{
    assert(books.pending.remove(reply.key()) =~= books.pending);
}

/// The line that an action carries.
pub open spec fn line_in(action: Action) -> Option<Seq<u8>> {
    match action {
        Action::Record { line, .. } => Some(line@),
        Action::Forward { line } => Some(line@),
        _ => None,
    }
}

/// The wire is never changed: whatever bytes a line holds, and whatever is
/// recorded of it, what goes on is the line as it came.
pub proof fn law_lines_go_on_verbatim(action: Action, entries: Seq<Entry>, line: Seq<u8>)
    requires
        crate::proxy::passes_on(action, entries, line),
    ensures
        line_in(action) == Some(line),
{
}

/// Governed calls get their permits before they run: the step that reads them
/// asks for the permit of each to be recorded, and does not yet forward the
/// line.
pub proof fn law_permits_come_first(
    books: Books,
    line: Seq<u8>,
    doc: Json,
    ts: u64,
    action: Action,
)
    requires
        crate::books::message_of(line) == Some(doc),
        crate::books::calls_of(doc).len() > 0,
        crate::proxy::passes_on(
            action,
            books.client_entries(crate::books::message_of(line), ts),
            line,
        ),
    ensures
        action matches Action::Record { records, line: held } && crate::proxy::entries_of(records@)
            == crate::books::calls_of(doc).map_values(|call: Call| call.permit(books, ts))
            && held@ == line,
{
    law_every_call_has_a_permit(books, doc, ts);
}

/// A line that cannot be inspected, because it is not UTF-8 or for any other
/// reason, goes on, and leaves no record and no change.
pub proof fn law_unreadable_lines_go_on(books: Books, line: Seq<u8>, ts: u64, action: Action)
    requires
        crate::books::message_of(line) is None || !vstd::utf8::valid_utf8(line),
        crate::proxy::passes_on(
            action,
            books.client_entries(crate::books::message_of(line), ts),
            line,
        ) || crate::proxy::passes_on(
            action,
            books.upstream_entries(crate::books::message_of(line), ts),
            line,
        ),
    ensures
        action matches Action::Forward { line: out } && out@ == line,
        books.after_client(crate::books::message_of(line), ts) == books,
        books.after_upstream(crate::books::message_of(line), ts) == books,
{
}

/// `permit` is a permit of the session with the given id.
pub open spec fn is_permit(permit: Entry, session_id: Seq<char>, id: Seq<char>) -> bool {
    permit matches Entry::Permit { id: i, session_id: s, .. } && i == id && s == session_id
}

/// Every call that waits has its permit in the trail.
proof fn lemma_waiting_calls_have_permits(books: Books, steps: Seq<Step>, key: Seq<char>)
    requires
        books.pending == Map::<Seq<char>, crate::books::Waiting>::empty(),
        crate::books::books_after(books, steps).pending.dom().contains(key),
    ensures
        crate::books::books_after(books, steps).session_id == books.session_id,
        exists|j: int|
            0 <= j < crate::books::trail_of(books, steps).len() && is_permit(
                #[trigger] crate::books::trail_of(books, steps)[j],
                books.session_id,
                crate::books::books_after(books, steps).pending[key].permit_id,
            ),
    decreases steps.len(),
{
    lemma_same_session(books, steps);
    if steps.len() > 0 {
        let earlier = steps.drop_last();
        let was = crate::books::books_after(books, earlier);
        let trail = crate::books::trail_of(books, steps);
        lemma_same_session(books, earlier);
        if steps.last() is Asked && steps.last().key() == key {
            assert(is_permit(
                trail[trail.len() - 1],
                books.session_id,
                crate::books::books_after(books, steps).pending[key].permit_id,
            ));
        } else {
            assert(was.pending.dom().contains(key));
            assert(was.pending[key] == crate::books::books_after(books, steps).pending[key]);
            lemma_waiting_calls_have_permits(books, earlier, key);
            let j = choose|j: int|
                0 <= j < crate::books::trail_of(books, earlier).len() && is_permit(
                    #[trigger] crate::books::trail_of(books, earlier)[j],
                    books.session_id,
                    was.pending[key].permit_id,
                );
            assert(trail[j] == crate::books::trail_of(books, earlier)[j]);
        }
    }
}

proof fn lemma_same_session(books: Books, steps: Seq<Step>)
    ensures
        crate::books::books_after(books, steps).session_id == books.session_id,
        crate::books::books_after(books, steps).upstream == books.upstream,
    decreases steps.len(),
{
    if steps.len() > 0 {
        lemma_same_session(books, steps.drop_last());
    }
}

/// The trail is a chain: of a session that starts with nothing pending, every
/// receipt carries the id of a permit that stands before it in the trail and is
/// of the same session.
pub proof fn law_receipts_point_back(books: Books, steps: Seq<Step>, i: int)
    requires
        books.pending == Map::<Seq<char>, crate::books::Waiting>::empty(),
        0 <= i < crate::books::trail_of(books, steps).len(),
        crate::books::trail_of(books, steps)[i] is Receipt,
    ensures
        crate::books::trail_of(books, steps)[i]->Receipt_session_id == books.session_id,
        exists|j: int|
            0 <= j < i && is_permit(
                #[trigger] crate::books::trail_of(books, steps)[j],
                books.session_id,
                crate::books::trail_of(books, steps)[i]->Receipt_permit_id,
            ),
    decreases steps.len(),
{
    let earlier = steps.drop_last();
    let trail = crate::books::trail_of(books, steps);
    let head = crate::books::trail_of(books, earlier);
    if i < head.len() {
        assert(trail[i] == head[i]);
        law_receipts_point_back(books, earlier, i);
        let j = choose|j: int|
            0 <= j < i && is_permit(
                #[trigger] head[j],
                books.session_id,
                head[i]->Receipt_permit_id,
            );
        assert(trail[j] == head[j]);
    } else {
        let was = crate::books::books_after(books, earlier);
        lemma_same_session(books, earlier);
        let key = steps.last().key();
        assert(was.pending.dom().contains(key));
        lemma_waiting_calls_have_permits(books, earlier, key);
        let j = choose|j: int|
            0 <= j < head.len() && is_permit(
                #[trigger] head[j],
                books.session_id,
                was.pending[key].permit_id,
            );
        assert(trail[j] == head[j]);
    }
}

/// How many permits of a trail have the id.
pub open spec fn permits_with(trail: Seq<Entry>, id: Seq<char>) -> nat
    decreases trail.len(),
{
    if trail.len() == 0 {
        0
    } else {
        permits_with(trail.drop_last(), id) + if trail.last() matches Entry::Permit { id: i, .. }
            && i == id {
            1nat
        } else {
            0nat
        }
    }
}

/// How many receipts of a trail carry the permit id.
pub open spec fn receipts_with(trail: Seq<Entry>, id: Seq<char>) -> nat
    decreases trail.len(),
{
    if trail.len() == 0 {
        0
    } else {
        receipts_with(trail.drop_last(), id) + if trail.last() matches Entry::Receipt {
            permit_id,
            ..
        } && permit_id == id {
            1nat
        } else {
            0nat
        }
    }
}

/// The keys under which a permit waits.
spec fn waiting_with(books: Books, id: Seq<char>) -> Set<Seq<char>> {
    books.pending.dom().filter(|k: Seq<char>| books.pending[k].permit_id == id)
}

proof fn lemma_permits_cover_receipts(books: Books, steps: Seq<Step>, id: Seq<char>)
    requires
        books.pending == Map::<Seq<char>, crate::books::Waiting>::empty(),
    ensures
        crate::books::books_after(books, steps).pending.dom().finite(),
        waiting_with(crate::books::books_after(books, steps), id).finite(),
        receipts_with(crate::books::trail_of(books, steps), id) + waiting_with(
            crate::books::books_after(books, steps),
            id,
        ).len() <= permits_with(crate::books::trail_of(books, steps), id),
    decreases steps.len(),
{
    if steps.len() == 0 {
        assert(waiting_with(books, id) =~= Set::empty());
    } else {
        let earlier = steps.drop_last();
        let was = crate::books::books_after(books, earlier);
        let now = crate::books::books_after(books, steps);
        let head = crate::books::trail_of(books, earlier);
        let trail = crate::books::trail_of(books, steps);
        lemma_permits_cover_receipts(books, earlier, id);
        let w = waiting_with(was, id);
        match steps.last().entry(was) {
            Some(entry) => {
                assert(trail.drop_last() =~= head);
                let key = steps.last().key();
                if steps.last() is Asked {
                    if now.pending[key].permit_id == id {
                        assert(waiting_with(now, id) =~= w.insert(key));
                    } else {
                        assert(waiting_with(now, id) =~= w.remove(key));
                    }
                } else {
                    assert(waiting_with(now, id) =~= w.remove(key));
                }
            },
            None => {
                assert(waiting_with(now, id) =~= w) by {
                    assert(now.pending =~= was.pending);
                }
            },
        }
    }
}

/// A permit is used up by one receipt: of a session that starts with nothing
/// pending, no permit id is carried by more receipts than there are permits
/// with that id.
pub proof fn law_permits_cover_receipts(books: Books, steps: Seq<Step>, id: Seq<char>)
    requires
        books.pending == Map::<Seq<char>, crate::books::Waiting>::empty(),
    ensures
        receipts_with(crate::books::trail_of(books, steps), id) <= permits_with(
            crate::books::trail_of(books, steps),
            id,
        ),
{
    lemma_permits_cover_receipts(books, steps, id);
}

/// A `tools/call` from the client gets its permit, whatever its line is: of any
/// length, with any line ends, and with any further members. The permit names the
/// session, the upstream, the tool, the addressed arguments, the id as text and
/// the time, and the call then waits under the key of its id.
pub proof fn law_call_on_a_line_gets_its_permit(
    books: Books,
    t: Seq<char>,
    ends: Seq<char>,
    m: Map<Seq<char>, Json>,
    ts: u64,
)
    requires
        t.len() > 0,
        t.last() != '\r',
        t.last() != '\n',
        forall|i: int| 0 <= i < ends.len() ==> #[trigger] ends[i] == '\r' || ends[i] == '\n',
        crate::json::json_parse(t) == Some(Json::Object(m)),
        m.contains_key("id"@),
        m.contains_key("params"@),
        m.contains_key("method"@),
        m["method"@] == Json::Text("tools/call"@),
    ensures
        ({
            let doc = crate::books::message_of(vstd::utf8::encode_utf8(t + ends));
            let tool_name = match m["params"@] {
                Json::Object(p) => if p.contains_key("name"@) && p["name"@] is Text {
                    p["name"@]->Text_0
                } else {
                    "<unknown>"@
                },
                _ => "<unknown>"@,
            };
            let arguments = match m["params"@] {
                Json::Object(p) => if p.contains_key("arguments"@) {
                    p["arguments"@]
                } else {
                    Json::Null
                },
                _ => Json::Null,
            };
            let args_hash = crate::receipts::content_address(arguments);
            let request_id = crate::receipts::request_text(m["id"@]);
            let id = crate::receipts::content_address(
                crate::receipts::permit_json(
                    books.session_id,
                    tool_name,
                    args_hash,
                    request_id,
                    ts,
                ),
            );
            &&& books.client_entries(doc, ts) == seq![
                Entry::Permit {
                    id,
                    session_id: books.session_id,
                    upstream: books.upstream,
                    tool_name,
                    args_hash,
                    request_id,
                    timestamp_ms: ts,
                },
            ]
            &&& books.after_client(doc, ts).session_id == books.session_id
            &&& books.after_client(doc, ts).upstream == books.upstream
            &&& books.after_client(doc, ts).pending == books.pending.insert(
                crate::receipts::pairing_key(m["id"@]),
                crate::books::Waiting { permit_id: id, tool_name, started_ms: ts },
            )
        }),
{
    let msg = Json::Object(m);
    crate::books::law_line_is_read_as_its_text(t, ends);
    crate::books::law_what_makes_a_call(m);
    let call = crate::books::call_of(msg)->0;
    law_batch_of_one(msg);
    let steps = crate::books::asked_at(seq![call], ts);
    assert(steps =~= seq![Step::Asked { call, ts }]);
    crate::books::law_shortest_runs(books, Step::Asked { call, ts });
    crate::books::law_asking_leaves_a_permit(books, call, ts);
}

/// A response from upstream to a call that waits gets its receipt, whatever its
/// line is: of any length, with any line ends, and with any further members, and
/// whatever further members its result has. A response to no call that waits gets
/// none. Either way nothing waits for that id afterwards.
pub proof fn law_response_on_a_line_gets_its_receipt(
    books: Books,
    t: Seq<char>,
    ends: Seq<char>,
    m: Map<Seq<char>, Json>,
    ts: u64,
)
    requires
        t.len() > 0,
        t.last() != '\r',
        t.last() != '\n',
        forall|i: int| 0 <= i < ends.len() ==> #[trigger] ends[i] == '\r' || ends[i] == '\n',
        crate::json::json_parse(t) == Some(Json::Object(m)),
        m.contains_key("id"@),
        m.contains_key("result"@) || m.contains_key("error"@),
        !(m.contains_key("method"@) && m["method"@] is Text),
    ensures
        ({
            let doc = crate::books::message_of(vstd::utf8::encode_utf8(t + ends));
            let key = crate::receipts::pairing_key(m["id"@]);
            let waiting = books.pending[key];
            let payload = if m.contains_key("error"@) {
                m["error"@]
            } else {
                m["result"@]
            };
            let status = if m.contains_key("error"@) {
                "error"@
            } else if m["result"@] matches Json::Object(r) && r.contains_key("isError"@)
                && r["isError"@] == Json::Bool(true) {
                "tool_error"@
            } else {
                "ok"@
            };
            let result_hash = crate::receipts::content_address(payload);
            &&& books.pending.contains_key(key) ==> books.upstream_entries(doc, ts) == seq![
                Entry::Receipt {
                    id: crate::receipts::content_address(
                        crate::receipts::receipt_json(waiting.permit_id, result_hash, status, ts),
                    ),
                    permit_id: waiting.permit_id,
                    session_id: books.session_id,
                    status,
                    result_hash,
                    duration_ms: if waiting.started_ms <= ts {
                        (ts - waiting.started_ms) as u64
                    } else {
                        0
                    },
                    timestamp_ms: ts,
                },
            ]
            &&& !books.pending.contains_key(key) ==> books.upstream_entries(doc, ts) == Seq::<
                Entry,
            >::empty()
            &&& books.after_upstream(doc, ts).session_id == books.session_id
            &&& books.after_upstream(doc, ts).upstream == books.upstream
            &&& books.after_upstream(doc, ts).pending == books.pending.remove(key)
        }),
{
    let msg = Json::Object(m);
    crate::books::law_line_is_read_as_its_text(t, ends);
    crate::books::law_what_makes_a_response(m);
    let reply = crate::books::reply_of(msg)->0;
    law_batch_of_one(msg);
    let steps = crate::books::answered_at(seq![reply], ts);
    assert(steps =~= seq![Step::Answered { reply, ts }]);
    crate::books::law_shortest_runs(books, Step::Answered { reply, ts });
    crate::books::law_answering_leaves_a_receipt(books, reply, ts);
}

/// Nothing but calls leaves a trace on its way from the client, and nothing but
/// responses on its way from upstream: no document at all, and none that is
/// neither a batch nor one of these.
pub proof fn law_nothing_else_leaves_a_trace(books: Books, doc: Json, ts: u64)
    requires
        !(doc is List),
    ensures
        books.client_entries(None, ts) == Seq::<Entry>::empty(),
        books.after_client(None, ts) == books,
        books.upstream_entries(None, ts) == Seq::<Entry>::empty(),
        books.after_upstream(None, ts) == books,
        !(doc matches Json::Object(m) && m.contains_key("id"@) && m.contains_key("params"@)
            && m.contains_key("method"@) && m["method"@] == Json::Text("tools/call"@)) ==> {
            &&& books.client_entries(Some(doc), ts) == Seq::<Entry>::empty()
            &&& books.after_client(Some(doc), ts) == books
        },
        !(doc matches Json::Object(m) && m.contains_key("id"@) && (m.contains_key("result"@)
            || m.contains_key("error"@)) && !(m.contains_key("method"@) && m["method"@] is Text))
            ==> {
            &&& books.upstream_entries(Some(doc), ts) == Seq::<Entry>::empty()
            &&& books.after_upstream(Some(doc), ts) == books
        },
{
    law_batch_of_one(doc);
    if let Json::Object(m) = doc {
        crate::books::law_what_makes_a_call(m);
        crate::books::law_what_makes_a_response(m);
    } else {
        crate::books::law_only_objects_are_messages(doc);
    }
    assert(crate::books::asked_at(Seq::empty(), ts) =~= Seq::empty());
    assert(crate::books::answered_at(Seq::empty(), ts) =~= Seq::empty());
}

/// A batch leaves what its messages leave, one after the other: a batch in two
/// parts what the first part leaves, and then the second.
pub proof fn law_batch_goes_message_by_message(
    books: Books,
    first: Seq<Json>,
    second: Seq<Json>,
    ts: u64,
)
    ensures
        ({
            let whole = Some(Json::List(first + second));
            let a = Some(Json::List(first));
            let b = Some(Json::List(second));
            &&& books.client_entries(whole, ts) == books.client_entries(a, ts)
                + books.after_client(a, ts).client_entries(b, ts)
            &&& books.after_client(whole, ts) == books.after_client(a, ts).after_client(b, ts)
            &&& books.upstream_entries(whole, ts) == books.upstream_entries(a, ts)
                + books.after_upstream(a, ts).upstream_entries(b, ts)
            &&& books.after_upstream(whole, ts) == books.after_upstream(a, ts).after_upstream(b, ts)
        }),
{
    law_batches_join(first, second);
    let a = Json::List(first);
    let b = Json::List(second);
    let calls = crate::books::calls_of(a) + crate::books::calls_of(b);
    let replies = crate::books::replies_of(a) + crate::books::replies_of(b);
    assert(crate::books::asked_at(calls, ts) =~= crate::books::client_steps(Some(a), ts)
        + crate::books::client_steps(Some(b), ts));
    assert(crate::books::answered_at(replies, ts) =~= crate::books::upstream_steps(Some(a), ts)
        + crate::books::upstream_steps(Some(b), ts));
    law_runs_join(
        books,
        crate::books::client_steps(Some(a), ts),
        crate::books::client_steps(Some(b), ts),
    );
    law_runs_join(
        books,
        crate::books::upstream_steps(Some(a), ts),
        crate::books::upstream_steps(Some(b), ts),
    );
}

/// A batch of one message leaves what the message leaves by itself. A list within
/// a batch is no message, and a batch of none leaves nothing.
pub proof fn law_batch_of_one_leaves_what_it_holds(books: Books, msg: Json, ts: u64)
    ensures
        ({
            let batch = Some(Json::List(seq![msg]));
            let alone = if msg is List {
                None
            } else {
                Some(msg)
            };
            &&& books.client_entries(batch, ts) == books.client_entries(alone, ts)
            &&& books.after_client(batch, ts) == books.after_client(alone, ts)
            &&& books.upstream_entries(batch, ts) == books.upstream_entries(alone, ts)
            &&& books.after_upstream(batch, ts) == books.after_upstream(alone, ts)
        }),
        ({
            let batch = Some(Json::List(Seq::empty()));
            &&& books.client_entries(batch, ts) == Seq::<Entry>::empty()
            &&& books.after_client(batch, ts) == books
            &&& books.upstream_entries(batch, ts) == Seq::<Entry>::empty()
            &&& books.after_upstream(batch, ts) == books
        }),
{
    assert(crate::books::asked_at(Seq::empty(), ts) =~= Seq::empty());
    assert(crate::books::answered_at(Seq::empty(), ts) =~= Seq::empty());
    assert(crate::books::calls_of(Json::List(Seq::empty())) =~= Seq::empty());
    assert(crate::books::replies_of(Json::List(Seq::empty())) =~= Seq::empty());
    if msg is List {
        let none = Seq::<Json>::empty();
        crate::books::law_only_objects_are_messages(msg);
        assert(seq![msg] =~= none.push(msg));
        crate::books::lemma_one_more_call(none, msg, ts);
        crate::books::lemma_one_more_reply(none, msg, ts);
    } else {
        law_batch_of_one(msg);
    }
}

} // verus!
