//! What a session records: the model that the proxy keeps to.

use crate::json::Json;
use crate::jsonrpc::Parts;
use crate::receipts::Entry;
use vstd::prelude::*;

verus! {

/// What is known of an unanswered call.
pub struct Waiting {
    pub permit_id: Seq<char>,
    pub tool_name: Seq<char>,
    pub started_ms: u64,
}

/// The books of one session: whose calls they are, and which wait for their
/// answer, each under the key of its request id.
#[verifier::ext_equal]
pub struct Books {
    pub session_id: Seq<char>,
    pub upstream: Seq<char>,
    pub pending: Map<Seq<char>, Waiting>,
}

/// A governed call, as it is read from a message.
pub struct Call {
    pub id: Json,
    pub tool_name: Seq<char>,
    pub arguments: Json,
}

/// A response, as it is read from a message.
pub struct Reply {
    pub id: Json,
    pub status: Seq<char>,
    pub payload: Json,
}

/// The governed call that a message makes: a `tools/call` request, that is one
/// with an id, with parameters. A call that names no tool is one of `<unknown>`,
/// a call without arguments has null.
pub open spec fn call_of(msg: Json) -> Option<Call> {
    let parts = crate::jsonrpc::parts_of(msg);
    if parts.is_tools_call() && parts.id is Some {
        let params = parts.params->0;
        Some(
            Call {
                id: parts.id->0,
                tool_name: match crate::jsonrpc::tool_name_of(params) {
                    Some(name) => name,
                    None => "<unknown>"@,
                },
                arguments: match params.member("arguments"@) {
                    Some(arguments) => arguments,
                    None => Json::Null,
                },
            },
        )
    } else {
        None
    }
}

/// How a call went: an error is told before a result, and a result may itself
/// tell of an error of the tool.
pub open spec fn status_of(parts: Parts) -> Seq<char> {
    if parts.error is Some {
        "error"@
    } else if parts.result is Some {
        if tool_failed(parts.result->0) {
            "tool_error"@
        } else {
            "ok"@
        }
    } else {
        "unknown"@
    }
}

/// A tool result that carries `isError` with the value true.
pub open spec fn tool_failed(result: Json) -> bool {
    result.member("isError"@) == Some(Json::Bool(true))
}

/// What a call brought back: the error, the result, or null.
pub open spec fn payload_of(parts: Parts) -> Json {
    match (parts.error, parts.result) {
        (Some(error), _) => error,
        (None, Some(result)) => result,
        (None, None) => Json::Null,
    }
}

/// The response that a message is, if it is one.
pub open spec fn reply_of(msg: Json) -> Option<Reply> {
    let parts = crate::jsonrpc::parts_of(msg);
    if parts.is_response() {
        Some(Reply { id: parts.id->0, status: status_of(parts), payload: payload_of(parts) })
    } else {
        None
    }
}

/// The messages that a document carries: those of a batch, in order, or the
/// document itself.
pub open spec fn messages_of(doc: Json) -> Seq<Json> {
    match doc {
        Json::List(messages) => messages,
        other => seq![other],
    }
}

/// The governed calls among messages, in order.
pub open spec fn calls_among(messages: Seq<Json>) -> Seq<Call>
    decreases messages.len(),
{
    if messages.len() == 0 {
        Seq::empty()
    } else {
        match call_of(messages.last()) {
            Some(call) => calls_among(messages.drop_last()).push(call),
            None => calls_among(messages.drop_last()),
        }
    }
}

/// The responses among messages, in order.
pub open spec fn replies_among(messages: Seq<Json>) -> Seq<Reply>
    decreases messages.len(),
{
    if messages.len() == 0 {
        Seq::empty()
    } else {
        match reply_of(messages.last()) {
            Some(reply) => replies_among(messages.drop_last()).push(reply),
            None => replies_among(messages.drop_last()),
        }
    }
}

/// The governed calls that a document makes, alone or in a batch.
pub open spec fn calls_of(doc: Json) -> Seq<Call> {
    calls_among(messages_of(doc))
}

/// The responses that a document carries, alone or in a batch.
pub open spec fn replies_of(doc: Json) -> Seq<Reply> {
    replies_among(messages_of(doc))
}

/// The document that a text holds. The line ends that may follow it do not
/// count, and an empty line holds none.
pub open spec fn message_in(line: Seq<char>) -> Option<Json> {
    let text = crate::text::trim_end(line, '\r', '\n');
    if text.len() == 0 {
        None
    } else {
        crate::json::json_parse(text)
    }
}

/// The document that the bytes of a line hold: none where they are not UTF-8.
pub open spec fn message_of(line: Seq<u8>) -> Option<Json> {
    if vstd::utf8::valid_utf8(line) {
        message_in(vstd::utf8::decode_utf8(line))
    } else {
        None
    }
}

impl Call {
    /// The key under which this call waits for its answer.
    pub open spec fn key(self) -> Seq<char> {
        crate::receipts::pairing_key(self.id)
    }

    /// The id of the permit for this call, given at `ts` in a session.
    pub open spec fn permit_id(self, session_id: Seq<char>, ts: u64) -> Seq<char> {
        crate::receipts::content_address(
            crate::receipts::permit_json(
                session_id,
                self.tool_name,
                crate::receipts::content_address(self.arguments),
                crate::receipts::request_text(self.id),
                ts,
            ),
        )
    }

    /// The permit for this call, given at `ts`.
    pub open spec fn permit(self, books: Books, ts: u64) -> Entry {
        Entry::Permit {
            id: self.permit_id(books.session_id, ts),
            session_id: books.session_id,
            upstream: books.upstream,
            tool_name: self.tool_name,
            args_hash: crate::receipts::content_address(self.arguments),
            request_id: crate::receipts::request_text(self.id),
            timestamp_ms: ts,
        }
    }
}

impl Reply {
    /// The key of the call that this response answers.
    pub open spec fn key(self) -> Seq<char> {
        crate::receipts::pairing_key(self.id)
    }

    /// The receipt for the unanswered call `waiting`, given at `ts`.
    pub open spec fn receipt(self, books: Books, waiting: Waiting, ts: u64) -> Entry {
        let result_hash = crate::receipts::content_address(self.payload);
        Entry::Receipt {
            id: crate::receipts::content_address(
                crate::receipts::receipt_json(waiting.permit_id, result_hash, self.status, ts),
            ),
            permit_id: waiting.permit_id,
            session_id: books.session_id,
            status: self.status,
            result_hash,
            duration_ms: if ts >= waiting.started_ms {
                (ts - waiting.started_ms) as u64
            } else {
                0
            },
            timestamp_ms: ts,
        }
    }
}

/// What can happen to the books: a governed call is asked for, or a response
/// comes.
pub enum Step {
    Asked { call: Call, ts: u64 },
    Answered { reply: Reply, ts: u64 },
}

impl Step {
    /// The key of the call or the response.
    pub open spec fn key(self) -> Seq<char> {
        match self {
            Step::Asked { call, .. } => call.key(),
            Step::Answered { reply, .. } => reply.key(),
        }
    }

    /// What is recorded of this step: the permit of a call, and the receipt of a
    /// response that a call waits for.
    pub open spec fn entry(self, books: Books) -> Option<Entry> {
        match self {
            Step::Asked { call, ts } => Some(call.permit(books, ts)),
            Step::Answered { reply, ts } => if books.pending.dom().contains(reply.key()) {
                Some(reply.receipt(books, books.pending[reply.key()], ts))
            } else {
                None
            },
        }
    }

    /// The books after this step: a call waits, in place of one with its id, and
    /// an answered call waits no longer.
    pub open spec fn after(self, books: Books) -> Books {
        match self {
            Step::Asked { call, ts } => Books {
                pending: books.pending.insert(
                    call.key(),
                    Waiting {
                        permit_id: call.permit_id(books.session_id, ts),
                        tool_name: call.tool_name,
                        started_ms: ts,
                    },
                ),
                ..books
            },
            Step::Answered { reply, .. } => Books {
                pending: books.pending.remove(reply.key()),
                ..books
            },
        }
    }
}

/// The books after a run of steps.
pub open spec fn books_after(books: Books, steps: Seq<Step>) -> Books
    decreases steps.len(),
{
    if steps.len() == 0 {
        books
    } else {
        steps.last().after(books_after(books, steps.drop_last()))
    }
}

/// The records that a run of steps leaves, in order.
pub open spec fn trail_of(books: Books, steps: Seq<Step>) -> Seq<Entry>
    decreases steps.len(),
{
    if steps.len() == 0 {
        Seq::empty()
    } else {
        let before = steps.drop_last();
        match steps.last().entry(books_after(books, before)) {
            Some(entry) => trail_of(books, before).push(entry),
            None => trail_of(books, before),
        }
    }
}

/// The steps that calls make at `ts`.
pub open spec fn asked_at(calls: Seq<Call>, ts: u64) -> Seq<Step> {
    calls.map_values(|call: Call| Step::Asked { call, ts })
}

/// The steps that responses make at `ts`.
pub open spec fn answered_at(replies: Seq<Reply>, ts: u64) -> Seq<Step> {
    replies.map_values(|reply: Reply| Step::Answered { reply, ts })
}

/// The steps that a document from the client makes at `ts`: its calls.
pub open spec fn client_steps(doc: Option<Json>, ts: u64) -> Seq<Step> {
    match doc {
        Some(d) => asked_at(calls_of(d), ts),
        None => Seq::empty(),
    }
}

/// The steps that a document from upstream makes at `ts`: its responses.
pub open spec fn upstream_steps(doc: Option<Json>, ts: u64) -> Seq<Step> {
    match doc {
        Some(d) => answered_at(replies_of(d), ts),
        None => Seq::empty(),
    }
}

impl Books {
    /// What is recorded of a document from the client that comes at `ts`.
    pub open spec fn client_entries(self, doc: Option<Json>, ts: u64) -> Seq<Entry> {
        trail_of(self, client_steps(doc, ts))
    }

    /// The books after a document from the client that comes at `ts`.
    pub open spec fn after_client(self, doc: Option<Json>, ts: u64) -> Books {
        books_after(self, client_steps(doc, ts))
    }

    /// What is recorded of a document from upstream that comes at `ts`.
    pub open spec fn upstream_entries(self, doc: Option<Json>, ts: u64) -> Seq<Entry> {
        trail_of(self, upstream_steps(doc, ts))
    }

    /// The books after a document from upstream that comes at `ts`.
    pub open spec fn after_upstream(self, doc: Option<Json>, ts: u64) -> Books {
        books_after(self, upstream_steps(doc, ts))
    }
}

/// A step at the end of a run comes after all the others.
pub proof fn lemma_one_more_step(books: Books, steps: Seq<Step>, step: Step)
    ensures
        books_after(books, steps.push(step)) == step.after(books_after(books, steps)),
        trail_of(books, steps.push(step)) == match step.entry(books_after(books, steps)) {
            Some(entry) => trail_of(books, steps).push(entry),
            None => trail_of(books, steps),
        },
{
    assert(steps.push(step).drop_last() =~= steps);
}

/// A message at the end of a batch adds its call, if it makes one.
pub proof fn lemma_one_more_call(messages: Seq<Json>, msg: Json, ts: u64)
    ensures
        calls_among(messages.push(msg)) == match call_of(msg) {
            Some(call) => calls_among(messages).push(call),
            None => calls_among(messages),
        },
        asked_at(calls_among(messages.push(msg)), ts) == match call_of(msg) {
            Some(call) => asked_at(calls_among(messages), ts).push(Step::Asked { call, ts }),
            None => asked_at(calls_among(messages), ts),
        },
{
    assert(messages.push(msg).drop_last() =~= messages);
    match call_of(msg) {
        Some(call) => {
            assert(asked_at(calls_among(messages).push(call), ts) =~= asked_at(
                calls_among(messages),
                ts,
            ).push(Step::Asked { call, ts }));
        },
        None => {},
    }
}

/// A message at the end of a batch adds its response, if it is one.
pub proof fn lemma_one_more_reply(messages: Seq<Json>, msg: Json, ts: u64)
    ensures
        replies_among(messages.push(msg)) == match reply_of(msg) {
            Some(reply) => replies_among(messages).push(reply),
            None => replies_among(messages),
        },
        answered_at(replies_among(messages.push(msg)), ts) == match reply_of(msg) {
            Some(reply) => answered_at(replies_among(messages), ts).push(
                Step::Answered { reply, ts },
            ),
            None => answered_at(replies_among(messages), ts),
        },
{
    assert(messages.push(msg).drop_last() =~= messages);
    match reply_of(msg) {
        Some(reply) => {
            assert(answered_at(replies_among(messages).push(reply), ts) =~= answered_at(
                replies_among(messages),
                ts,
            ).push(Step::Answered { reply, ts }));
        },
        None => {},
    }
}

/// A line is read as its text without the line ends that follow it, however long
/// it is and however many they are: the line of a text that is no JSON, or of
/// none, holds no document, and any other holds what the text spells.
pub proof fn law_line_is_read_as_its_text(t: Seq<char>, ends: Seq<char>)
    requires
        t.len() > 0 ==> t.last() != '\r' && t.last() != '\n',
        forall|i: int| 0 <= i < ends.len() ==> #[trigger] ends[i] == '\r' || ends[i] == '\n',
    ensures
        t.len() > 0 ==> message_of(vstd::utf8::encode_utf8(t + ends)) == crate::json::json_parse(t),
        t.len() == 0 ==> message_of(vstd::utf8::encode_utf8(t + ends)) is None,
{
    crate::text::law_ends_are_trimmed(t, ends, '\r', '\n');
    vstd::utf8::encode_utf8_valid_utf8(t + ends);
    vstd::utf8::encode_utf8_decode_utf8(t + ends);
}

/// Bytes that are not UTF-8 hold no document.
pub proof fn law_no_document_without_text(line: Seq<u8>)
    requires
        !vstd::utf8::valid_utf8(line),
    ensures
        message_of(line) is None,
{
}

/// A response with an error has the status `error`; one without has the status
/// `tool_error` where its result is an object whose member `isError` is true,
/// whatever else the result holds, and otherwise `ok`.
pub proof fn law_status_is_told_by_error_and_is_error(
    parts: Parts,
    r: Map<Seq<char>, Json>,
)
    ensures
        parts.error is Some ==> status_of(parts) == "error"@,
        parts.error is None && parts.result == Some(Json::Object(r)) && r.contains_key("isError"@)
            && r["isError"@] == Json::Bool(true) ==> status_of(parts) == "tool_error"@,
        parts.error is None && parts.result == Some(Json::Object(r)) && !(r.contains_key(
            "isError"@,
        ) && r["isError"@] == Json::Bool(true)) ==> status_of(parts) == "ok"@,
        parts.error is None && parts.result is Some && !(parts.result->0 is Object) ==> status_of(
            parts,
        ) == "ok"@,
        parts.error is None && parts.result is None ==> status_of(parts) == "unknown"@,
{
}

/// The status rests on no other member of a result than `isError`: adding,
/// changing or removing any other leaves it.
pub proof fn law_other_members_leave_the_status(
    parts: Parts,
    r: Map<Seq<char>, Json>,
    key: Seq<char>,
    value: Json,
)
    requires
        key != "isError"@,
    ensures
        status_of(Parts { result: Some(Json::Object(r.insert(key, value))), ..parts }) == status_of(
            Parts { result: Some(Json::Object(r)), ..parts },
        ),
        status_of(Parts { result: Some(Json::Object(r.remove(key))), ..parts }) == status_of(
            Parts { result: Some(Json::Object(r)), ..parts },
        ),
{
}

/// A response brings back its error where it has one, else its result, whole, and
/// null where it has neither.
pub proof fn law_payload_is_error_or_result(parts: Parts, value: Json)
    ensures
        parts.error == Some(value) ==> payload_of(parts) == value,
        parts.error is None && parts.result == Some(value) ==> payload_of(parts) == value,
        parts.error is None && parts.result is None ==> payload_of(parts) == Json::Null,
{
}

/// An object makes a governed call if and only if its method is `tools/call` and
/// it has an id and parameters, whatever else it holds. The call has that id,
/// the tool and the arguments that the parameters give, and without them the
/// tool `<unknown>` and null.
pub proof fn law_what_makes_a_call(m: Map<Seq<char>, Json>)
    ensures
        call_of(Json::Object(m)) is Some <==> m.contains_key("id"@) && m.contains_key("params"@)
            && m.contains_key("method"@) && m["method"@] == Json::Text("tools/call"@),
        call_of(Json::Object(m)) matches Some(call) ==> {
            &&& call.id == m["id"@]
            &&& call.tool_name == match m["params"@] {
                Json::Object(p) => if p.contains_key("name"@) && p["name"@] is Text {
                    p["name"@]->Text_0
                } else {
                    "<unknown>"@
                },
                _ => "<unknown>"@,
            }
            &&& call.arguments == match m["params"@] {
                Json::Object(p) => if p.contains_key("arguments"@) {
                    p["arguments"@]
                } else {
                    Json::Null
                },
                _ => Json::Null,
            }
        },
{
    if m.contains_key("params"@) && m["params"@] is Object {
        let p = m["params"@]->Object_0;
        if p.contains_key("name"@) {
            assert(p["name"@] is Text || p["name"@].text() is None);
        }
    }
}

/// An object is a response if and only if it has an id and a result or an error,
/// and no method that is a string, whatever else it holds. The response has that
/// id, and the status and the payload that error and result give.
pub proof fn law_what_makes_a_response(m: Map<Seq<char>, Json>)
    ensures
        reply_of(Json::Object(m)) is Some <==> m.contains_key("id"@) && (m.contains_key("result"@)
            || m.contains_key("error"@)) && !(m.contains_key("method"@) && m["method"@] is Text),
        reply_of(Json::Object(m)) matches Some(reply) ==> {
            &&& reply.id == m["id"@]
            &&& reply.payload == if m.contains_key("error"@) {
                m["error"@]
            } else {
                m["result"@]
            }
            &&& reply.status == if m.contains_key("error"@) {
                "error"@
            } else if m["result"@] matches Json::Object(r) && r.contains_key("isError"@)
                && r["isError"@] == Json::Bool(true) {
                "tool_error"@
            } else {
                "ok"@
            }
        },
{
    if m.contains_key("method"@) {
        assert(m["method"@] is Text || m["method"@].text() is None);
    }
}

/// What is no object makes no call and is no response.
pub proof fn law_only_objects_are_messages(doc: Json)
    requires
        !(doc is Object),
    ensures
        call_of(doc) is None,
        reply_of(doc) is None,
{
}

/// A call is read from its id, method and parameters alone, and a response from
/// its id, method, result and error alone: any other member may be added,
/// changed or removed.
pub proof fn law_other_members_do_not_matter(
    m: Map<Seq<char>, Json>,
    key: Seq<char>,
    value: Json,
)
    requires
        key != "id"@,
        key != "method"@,
    ensures
        key != "params"@ ==> call_of(Json::Object(m.insert(key, value))) == call_of(Json::Object(m))
            && call_of(Json::Object(m.remove(key))) == call_of(Json::Object(m)),
        key != "result"@ && key != "error"@ ==> reply_of(Json::Object(m.insert(key, value)))
            == reply_of(Json::Object(m)) && reply_of(Json::Object(m.remove(key))) == reply_of(
            Json::Object(m),
        ),
{
    let a = Json::Object(m);
    let b = Json::Object(m.insert(key, value));
    let c = Json::Object(m.remove(key));
    assert forall|k: Seq<char>| k != key implies #[trigger] b.member(k) == a.member(k) by {}
    assert forall|k: Seq<char>| k != key implies #[trigger] c.member(k) == a.member(k) by {}
}

/// A governed call leaves a permit with its tool, the addresses and the text of
/// what it carries, its session and its time, and then waits under the key of its
/// id; what else waits is left.
pub proof fn law_asking_leaves_a_permit(books: Books, call: Call, ts: u64)
    ensures
        ({
            let ask = Step::Asked { call, ts };
            let key = crate::receipts::pairing_key(call.id);
            let args_hash = crate::receipts::content_address(call.arguments);
            let request_id = crate::receipts::request_text(call.id);
            let permit_id = crate::receipts::content_address(
                crate::receipts::permit_json(
                    books.session_id,
                    call.tool_name,
                    args_hash,
                    request_id,
                    ts,
                ),
            );
            &&& ask.entry(books) == Some(
                Entry::Permit {
                    id: permit_id,
                    session_id: books.session_id,
                    upstream: books.upstream,
                    tool_name: call.tool_name,
                    args_hash,
                    request_id,
                    timestamp_ms: ts,
                },
            )
            &&& ask.after(books).session_id == books.session_id
            &&& ask.after(books).upstream == books.upstream
            &&& ask.after(books).pending.dom() == books.pending.dom().insert(key)
            &&& ask.after(books).pending[key].permit_id == permit_id
            &&& ask.after(books).pending[key].tool_name == call.tool_name
            &&& ask.after(books).pending[key].started_ms == ts
            &&& forall|other: Seq<char>|
                other != key ==> #[trigger] ask.after(books).pending[other] == books.pending[other]
        }),
{
    let ask = Step::Asked { call, ts };
    let key = crate::receipts::pairing_key(call.id);
    assert(ask.after(books).pending.dom() =~= books.pending.dom().insert(key));
}

/// A response to a call that waits leaves a receipt with the permit of that call,
/// its own status, the address of what it brings back and the time that has
/// passed, and the call waits no longer; a response to none leaves nothing. What
/// else waits is left.
pub proof fn law_answering_leaves_a_receipt(books: Books, reply: Reply, ts: u64)
    ensures
        ({
            let answer = Step::Answered { reply, ts };
            let key = crate::receipts::pairing_key(reply.id);
            let result_hash = crate::receipts::content_address(reply.payload);
            let waiting = books.pending[key];
            &&& books.pending.contains_key(key) ==> answer.entry(books) == Some(
                Entry::Receipt {
                    id: crate::receipts::content_address(
                        crate::receipts::receipt_json(
                            waiting.permit_id,
                            result_hash,
                            reply.status,
                            ts,
                        ),
                    ),
                    permit_id: waiting.permit_id,
                    session_id: books.session_id,
                    status: reply.status,
                    result_hash,
                    duration_ms: if waiting.started_ms <= ts {
                        (ts - waiting.started_ms) as u64
                    } else {
                        0
                    },
                    timestamp_ms: ts,
                },
            )
            &&& !books.pending.contains_key(key) ==> answer.entry(books) is None
            &&& answer.after(books).session_id == books.session_id
            &&& answer.after(books).upstream == books.upstream
            &&& answer.after(books).pending.dom() == books.pending.dom().remove(key)
            &&& forall|other: Seq<char>|
                other != key ==> #[trigger] answer.after(books).pending[other]
                    == books.pending[other]
        }),
{
    let answer = Step::Answered { reply, ts };
    let key = crate::receipts::pairing_key(reply.id);
    assert(answer.after(books).pending.dom() =~= books.pending.dom().remove(key));
}

/// A run of no step leaves nothing, and a run of one what that step leaves.
pub proof fn law_shortest_runs(books: Books, step: Step)
    ensures
        trail_of(books, Seq::empty()) == Seq::<Entry>::empty(),
        books_after(books, Seq::empty()) == books,
        trail_of(books, seq![step]) == match step.entry(books) {
            Some(entry) => seq![entry],
            None => Seq::empty(),
        },
        books_after(books, seq![step]) == step.after(books),
{
    let none = Seq::<Step>::empty();
    assert(seq![step] =~= none.push(step));
    lemma_one_more_step(books, none, step);
    assert(trail_of(books, none) =~= Seq::empty());
    if let Some(entry) = step.entry(books) {
        assert(Seq::<Entry>::empty().push(entry) =~= seq![entry]);
    }
}

} // verus!
