//! The proxy between a client and an upstream server: what it records about the
//! lines that pass through it.

use crate::books::{Books, Call, Step, Waiting};
use crate::json::{
    null_value, parse_value, value_clone, value_items, value_member, value_truth, Json,
};
use crate::jsonrpc::{inspect, is_response, is_tools_call, tool_arguments, tool_name, Inspected};
use crate::receipts::{
    hash_value, now_ms, pairing_key_of, permit_id, receipt_id, request_id_string, Entry, Record,
};
use crate::table::Table;
use crate::text::{utf8_text, without_trailing};
use serde_json::Value;
use vstd::prelude::*;

verus! {

/// A permit whose call has not been answered yet.
pub struct PendingPermit {
    pub permit_id: String,
    pub tool_name: String,
    pub started_ms: u64,
}

impl View for PendingPermit {
    type V = Waiting;

    open spec fn view(&self) -> Waiting {
        Waiting {
            permit_id: self.permit_id@,
            tool_name: self.tool_name@,
            started_ms: self.started_ms,
        }
    }
}

/// The books of one session: whose calls they are and which wait for their
/// answer.
pub struct Ledger {
    session_id: String,
    upstream: String,
    pending: Table<PendingPermit>,
}

impl View for Ledger {
    type V = Books;

    closed spec fn view(&self) -> Books {
        Books {
            session_id: self.session_id@,
            upstream: self.upstream@,
            pending: self.pending@.map_values(|p: PendingPermit| p@),
        }
    }
}

/// What an optional record says.
pub open spec fn entry_of(record: Option<Record>) -> Option<Entry> {
    match record {
        Some(r) => Some(r@),
        None => None,
    }
}

/// What records say.
pub open spec fn entries_of(records: Seq<Record>) -> Seq<Entry> {
    records.map_values(|r: Record| r@)
}

/// How a call went and what it brought back, given the parts of its response.
pub fn outcome(inspected: &Inspected) -> (r: (&'static str, Value))
    ensures
        r.0@ == crate::books::status_of(inspected@),
        crate::json::json_of(r.1) == crate::books::payload_of(inspected@),
{
    match inspected.error {
        Some(error) => ("error", value_clone(error)),
        None => match inspected.result {
            Some(result) => {
                let failed = match value_member(result, "isError") {
                    Some(flag) => match value_truth(flag) {
                        Some(b) => b,
                        None => false,
                    },
                    None => false,
                };
                (if failed { "tool_error" } else { "ok" }, value_clone(result))
            },
            None => ("unknown", null_value()),
        },
    }
}

/// Reads the document that a line holds, if it holds one.
pub fn read_message(line: &[u8]) -> (r: Option<Value>)
    ensures
        match r {
            Some(v) => crate::books::message_of(line@) == Some(crate::json::json_of(v)),
            None => crate::books::message_of(line@) is None,
        },
{
    match utf8_text(line) {
        Some(text) => {
            let trimmed = without_trailing(text, '\r', '\n');
            if trimmed.is_empty() {
                None
            } else {
                parse_value(trimmed)
            }
        },
        None => None,
    }
}

impl Ledger {
    /// The books of a session in which nothing has happened.
    pub fn new(session_id: String, upstream: String) -> (r: Self)
        ensures
            r@ == (Books {
                session_id: session_id@,
                upstream: upstream@,
                pending: Map::empty(),
            }),
    {
        let r = Ledger { session_id, upstream, pending: Table::new() };
        assert(r@.pending =~= Map::empty());
        r
    }

    /// Gives the permit for a governed call and notes under `key` that the call
    /// waits for its answer.
    pub fn open_permit(
        &mut self,
        key: String,
        tool: &str,
        args_hash: String,
        request_id: String,
        permit_id: String,
        ts: u64,
    ) -> (r: Record)
        ensures
            r@ == (Entry::Permit {
                id: permit_id@,
                session_id: old(self)@.session_id,
                upstream: old(self)@.upstream,
                tool_name: tool@,
                args_hash: args_hash@,
                request_id: request_id@,
                timestamp_ms: ts,
            }),
            final(self)@ == (Books {
                pending: old(self)@.pending.insert(
                    key@,
                    Waiting { permit_id: permit_id@, tool_name: tool@, started_ms: ts },
                ),
                ..old(self)@
            }),
    {
        let record = Record::Permit {
            id: permit_id.clone(),
            session_id: self.session_id.clone(),
            upstream: self.upstream.clone(),
            tool_name: tool.to_owned(),
            args_hash,
            request_id,
            timestamp_ms: ts,
        };
        let ghost before = self.pending@;
        let waiting = PendingPermit { permit_id, tool_name: tool.to_owned(), started_ms: ts };
        let ghost w = waiting;
        self.pending.insert(key, waiting);
        assert(before.insert(key@, w).map_values(|p: PendingPermit| p@) =~= before.map_values(
            |p: PendingPermit| p@,
        ).insert(key@, w@));
        record
    }

    /// The receipt for a call that waited, from what its response came to.
    pub fn close_receipt(
        &self,
        waiting: PendingPermit,
        status: &str,
        result_hash: String,
        receipt_id: String,
        ts: u64,
    ) -> (r: Record)
        ensures
            r@ == (Entry::Receipt {
                id: receipt_id@,
                permit_id: waiting.permit_id@,
                session_id: self@.session_id,
                status: status@,
                result_hash: result_hash@,
                duration_ms: if ts >= waiting.started_ms {
                    (ts - waiting.started_ms) as u64
                } else {
                    0
                },
                timestamp_ms: ts,
            }),
    {
        Record::Receipt {
            id: receipt_id,
            permit_id: waiting.permit_id,
            session_id: self.session_id.clone(),
            status: status.to_owned(),
            result_hash,
            duration_ms: ts.saturating_sub(waiting.started_ms),
            timestamp_ms: ts,
        }
    }

    /// Takes note of one message from the client that comes at `ts`: a governed
    /// call gets its permit, anything else leaves no trace.
    pub fn note_call(&mut self, msg: &Value, ts: u64) -> (r: Option<Record>)
        ensures
            match crate::books::call_of(crate::json::json_of(*msg)) {
                Some(call) => {
                    &&& entry_of(r) == (Step::Asked { call, ts }).entry(old(self)@)
                    &&& final(self)@ == (Step::Asked { call, ts }).after(old(self)@)
                },
                None => r is None && final(self)@ == old(self)@,
            },
    {
        let inspected = inspect(msg);
        if !is_tools_call(&inspected) {
            return None;
        }
        match (inspected.params, inspected.id.as_ref()) {
            (Some(params), Some(id)) => {
                let tool = match tool_name(params) {
                    Some(name) => name,
                    None => "<unknown>",
                };
                let args_hash = match tool_arguments(params) {
                    Some(arguments) => hash_value(arguments),
                    None => hash_value(&null_value()),
                };
                let req_id = request_id_string(id);
                let pid = permit_id(
                    self.session_id.as_str(),
                    tool,
                    args_hash.as_str(),
                    req_id.as_str(),
                    ts,
                );
                Some(self.open_permit(pairing_key_of(id), tool, args_hash, req_id, pid, ts))
            },
            _ => None,
        }
    }

    /// Takes note of one message from upstream that comes at `ts`: the response
    /// to a call that waits gets its receipt, anything else leaves no trace.
    pub fn note_reply(&mut self, msg: &Value, ts: u64) -> (r: Option<Record>)
        ensures
            match crate::books::reply_of(crate::json::json_of(*msg)) {
                Some(reply) => {
                    &&& entry_of(r) == (Step::Answered { reply, ts }).entry(old(self)@)
                    &&& final(self)@ == (Step::Answered { reply, ts }).after(old(self)@)
                },
                None => r is None && final(self)@ == old(self)@,
            },
    {
        let ghost before = self@;
        let inspected = inspect(msg);
        if !is_response(&inspected) {
            return None;
        }
        match inspected.id.as_ref() {
            Some(id) => {
                let key = pairing_key_of(id);
                let waiting = self.pending.remove(key.as_str());
                assert(self@.pending =~= before.pending.remove(key@));
                match waiting {
                    Some(waiting) => {
                        let (status, payload) = outcome(&inspected);
                        let result_hash = hash_value(&payload);
                        let rid = receipt_id(
                            waiting.permit_id.as_str(),
                            result_hash.as_str(),
                            status,
                            ts,
                        );
                        Some(self.close_receipt(waiting, status, result_hash, rid, ts))
                    },
                    None => None,
                }
            },
            None => None,
        }
    }

    /// Takes note of a document from the client that comes at `ts`: each
    /// governed call in it, alone or in a batch, gets its permit.
    pub fn client_message(&mut self, doc: &Value, ts: u64) -> (r: Vec<Record>)
        ensures
            entries_of(r@) == crate::books::calls_of(crate::json::json_of(*doc)).map_values(
                |call: Call| call.permit(old(self)@, ts),
            ),
            entries_of(r@) == old(self)@.client_entries(Some(crate::json::json_of(*doc)), ts),
            final(self)@ == old(self)@.after_client(Some(crate::json::json_of(*doc)), ts),
    {
        let ghost before = self@;
        let ghost messages = crate::books::messages_of(crate::json::json_of(*doc));
        let mut records: Vec<Record> = Vec::new();
        match value_items(doc) {
            Some(items) => {
                assert(messages.take(0) =~= Seq::empty());
                assert(crate::books::asked_at(Seq::empty(), ts) =~= Seq::empty());
                assert(entries_of(records@) =~= Seq::empty());
                let mut i: usize = 0;
                while i < items.len()
                    invariant
                        i <= items@.len(),
                        messages == items@.map_values(|v: Value| crate::json::json_of(v)),
                        self@ == crate::books::books_after(
                            before,
                            crate::books::asked_at(
                                crate::books::calls_among(messages.take(i as int)),
                                ts,
                            ),
                        ),
                        entries_of(records@) == crate::books::trail_of(
                            before,
                            crate::books::asked_at(
                                crate::books::calls_among(messages.take(i as int)),
                                ts,
                            ),
                        ),
                    decreases items@.len() - i,
                {
                    proof {
                        Self::lemma_next_call(before, messages, i as int, ts);
                    }
                    let record = self.note_call(&items[i], ts);
                    push_some(&mut records, record);
                    i += 1;
                }
                assert(messages.take(i as int) =~= messages);
            },
            None => {
                proof {
                    assert(messages.take(0) =~= Seq::empty());
                    assert(messages.take(1) =~= messages);
                    assert(crate::books::asked_at(Seq::empty(), ts) =~= Seq::empty());
                    assert(entries_of(records@) =~= Seq::empty());
                    Self::lemma_next_call(before, messages, 0, ts);
                }
                let record = self.note_call(doc, ts);
                push_some(&mut records, record);
            },
        }
        proof {
            crate::trail::law_every_call_has_a_permit(before, crate::json::json_of(*doc), ts);
        }
        records
    }

    /// Takes note of a document from upstream that comes at `ts`: each response
    /// in it, alone or in a batch, to a call that waits gets its receipt.
    pub fn upstream_message(&mut self, doc: &Value, ts: u64) -> (r: Vec<Record>)
        ensures
            entries_of(r@) == old(self)@.upstream_entries(Some(crate::json::json_of(*doc)), ts),
            final(self)@ == old(self)@.after_upstream(Some(crate::json::json_of(*doc)), ts),
    {
        let ghost before = self@;
        let ghost messages = crate::books::messages_of(crate::json::json_of(*doc));
        let mut records: Vec<Record> = Vec::new();
        match value_items(doc) {
            Some(items) => {
                assert(messages.take(0) =~= Seq::empty());
                assert(crate::books::answered_at(Seq::empty(), ts) =~= Seq::empty());
                assert(entries_of(records@) =~= Seq::empty());
                let mut i: usize = 0;
                while i < items.len()
                    invariant
                        i <= items@.len(),
                        messages == items@.map_values(|v: Value| crate::json::json_of(v)),
                        self@ == crate::books::books_after(
                            before,
                            crate::books::answered_at(
                                crate::books::replies_among(messages.take(i as int)),
                                ts,
                            ),
                        ),
                        entries_of(records@) == crate::books::trail_of(
                            before,
                            crate::books::answered_at(
                                crate::books::replies_among(messages.take(i as int)),
                                ts,
                            ),
                        ),
                    decreases items@.len() - i,
                {
                    proof {
                        Self::lemma_next_reply(before, messages, i as int, ts);
                    }
                    let record = self.note_reply(&items[i], ts);
                    push_some(&mut records, record);
                    i += 1;
                }
                assert(messages.take(i as int) =~= messages);
            },
            None => {
                proof {
                    assert(messages.take(0) =~= Seq::empty());
                    assert(messages.take(1) =~= messages);
                    assert(crate::books::answered_at(Seq::empty(), ts) =~= Seq::empty());
                    assert(entries_of(records@) =~= Seq::empty());
                    Self::lemma_next_reply(before, messages, 0, ts);
                }
                let record = self.note_reply(doc, ts);
                push_some(&mut records, record);
            },
        }
        records
    }

    /// What the message at place `i` of a batch from the client adds.
    proof fn lemma_next_call(books: Books, messages: Seq<Json>, i: int, ts: u64)
        requires
            0 <= i < messages.len(),
        ensures
            ({
                let done = crate::books::asked_at(crate::books::calls_among(messages.take(i)), ts);
                let next = crate::books::asked_at(
                    crate::books::calls_among(messages.take(i + 1)),
                    ts,
                );
                let was = crate::books::books_after(books, done);
                match crate::books::call_of(messages[i]) {
                    Some(call) => {
                        let step = Step::Asked { call, ts };
                        &&& crate::books::books_after(books, next) == step.after(was)
                        &&& crate::books::trail_of(books, next) == extended(
                            crate::books::trail_of(books, done),
                            step.entry(was),
                        )
                    },
                    None => next == done,
                }
            }),
    {
        assert(messages.take(i + 1) =~= messages.take(i).push(messages[i]));
        crate::books::lemma_one_more_call(messages.take(i), messages[i], ts);
        if let Some(call) = crate::books::call_of(messages[i]) {
            crate::books::lemma_one_more_step(
                books,
                crate::books::asked_at(crate::books::calls_among(messages.take(i)), ts),
                Step::Asked { call, ts },
            );
        }
    }

    /// What the message at place `i` of a batch from upstream adds.
    proof fn lemma_next_reply(books: Books, messages: Seq<Json>, i: int, ts: u64)
        requires
            0 <= i < messages.len(),
        ensures
            ({
                let done = crate::books::answered_at(
                    crate::books::replies_among(messages.take(i)),
                    ts,
                );
                let next = crate::books::answered_at(
                    crate::books::replies_among(messages.take(i + 1)),
                    ts,
                );
                let was = crate::books::books_after(books, done);
                match crate::books::reply_of(messages[i]) {
                    Some(reply) => {
                        let step = Step::Answered { reply, ts };
                        &&& crate::books::books_after(books, next) == step.after(was)
                        &&& crate::books::trail_of(books, next) == extended(
                            crate::books::trail_of(books, done),
                            step.entry(was),
                        )
                    },
                    None => next == done,
                }
            }),
    {
        assert(messages.take(i + 1) =~= messages.take(i).push(messages[i]));
        crate::books::lemma_one_more_reply(messages.take(i), messages[i], ts);
        if let Some(reply) = crate::books::reply_of(messages[i]) {
            crate::books::lemma_one_more_step(
                books,
                crate::books::answered_at(crate::books::replies_among(messages.take(i)), ts),
                Step::Answered { reply, ts },
            );
        }
    }

    /// Takes note of a line from the client, at the time that the clock shows.
    pub fn client_line(&mut self, line: &[u8]) -> (r: Vec<Record>)
        ensures
            exists|ts: u64|
                entries_of(r@) == #[trigger] old(self)@.client_entries(
                    crate::books::message_of(line@),
                    ts,
                ) && final(self)@ == old(self)@.after_client(crate::books::message_of(line@), ts)
                    && (r@.len() > 0 ==> crate::receipts::is_clock_time(ts)),
    {
        let ghost before = self@;
        match read_message(line) {
            Some(doc) => {
                let ts = now_ms();
                let r = self.client_message(&doc, ts);
                assert(entries_of(r@) == before.client_entries(
                    crate::books::message_of(line@),
                    ts,
                ));
                r
            },
            None => {
                let r: Vec<Record> = Vec::new();
                assert(entries_of(r@) =~= before.client_entries(
                    crate::books::message_of(line@),
                    0,
                ));
                r
            },
        }
    }

    /// Takes note of a line from upstream, at the time that the clock shows.
    pub fn upstream_line(&mut self, line: &[u8]) -> (r: Vec<Record>)
        ensures
            exists|ts: u64|
                entries_of(r@) == #[trigger] old(self)@.upstream_entries(
                    crate::books::message_of(line@),
                    ts,
                ) && final(self)@ == old(self)@.after_upstream(crate::books::message_of(line@), ts)
                    && (r@.len() > 0 ==> crate::receipts::is_clock_time(ts)),
    {
        let ghost before = self@;
        match read_message(line) {
            Some(doc) => {
                let ts = now_ms();
                let r = self.upstream_message(&doc, ts);
                assert(entries_of(r@) == before.upstream_entries(
                    crate::books::message_of(line@),
                    ts,
                ));
                r
            },
            None => {
                let r: Vec<Record> = Vec::new();
                assert(entries_of(r@) =~= before.upstream_entries(
                    crate::books::message_of(line@),
                    0,
                ));
                r
            },
        }
    }
}

/// A trail with one more entry, where there is one.
pub open spec fn extended(trail: Seq<Entry>, entry: Option<Entry>) -> Seq<Entry> {
    match entry {
        Some(e) => trail.push(e),
        None => trail,
    }
}

/// Puts a record behind others, where there is one.
fn push_some(records: &mut Vec<Record>, record: Option<Record>)
    ensures
        entries_of(final(records)@) == extended(entries_of(old(records)@), entry_of(record)),
{
    if let Some(r) = record {
        let ghost before = records@;
        records.push(r);
        assert(entries_of(before.push(r)) =~= entries_of(before).push(r@));
    }
}

/// What happened to one direction of the traffic.
pub enum Event {
    /// A read brought `line`, with its line end. It is empty at the end of the
    /// input alone.
    Read { line: Vec<u8> },
    /// A read failed.
    ReadFailed,
    /// The records of `line` have been handed to the audit trail.
    Recorded { line: Vec<u8> },
    /// A line has been written and flushed.
    Forwarded,
    /// A write failed.
    WriteFailed,
    /// A flush failed.
    FlushFailed,
}

/// What to do next in one direction of the traffic.
pub enum Action {
    /// Read the next line.
    ReadLine,
    /// Hand the records to the audit trail, in order. `line` waits meanwhile.
    Record { records: Vec<Record>, line: Vec<u8> },
    /// Write the line to the other side and flush it.
    Forward { line: Vec<u8> },
    /// Stop.
    Close,
}

/// A line that leaves `entries` in the audit trail goes on its way: the entries
/// are recorded first where there are any, and the line is passed on as it came.
pub open spec fn passes_on(action: Action, entries: Seq<Entry>, line: Seq<u8>) -> bool {
    if entries.len() == 0 {
        action matches Action::Forward { line: out } && out@ == line
    } else {
        action matches Action::Record { records, line: out } && entries_of(records@) == entries
            && out@ == line
    }
}

/// What follows a line that has been noted.
fn pass_on(records: Vec<Record>, line: Vec<u8>) -> (r: Action)
    ensures
        passes_on(r, entries_of(records@), line@),
        r is Record <==> records@.len() > 0,
{
    if records.len() == 0 {
        Action::Forward { line }
    } else {
        Action::Record { records, line }
    }
}

/// The line that an event brings: none at the end of the input, and none where
/// nothing has been read.
pub open spec fn line_read(event: Event) -> Option<Seq<u8>> {
    match event {
        Event::Read { line } if line@.len() > 0 => Some(line@),
        _ => None,
    }
}

/// What follows an event that brings no line: a line whose records are out is
/// forwarded, a line that is out makes room for the next, and the end of the
/// input and every failure end the traffic.
pub open spec fn goes_on(event: Event, action: Action) -> bool {
    match event {
        Event::Recorded { line } => action matches Action::Forward { line: out } && out@ == line@,
        Event::Forwarded => action is ReadLine,
        _ => action is Close,
    }
}

/// A step of the traffic from the client to upstream, at `ts`. Every line is
/// passed on as it came, whatever bytes it holds, and governed calls only once
/// their permits have been recorded.
pub open spec fn client_turn(
    before: Books,
    event: Event,
    action: Action,
    after: Books,
    ts: u64,
) -> bool {
    match line_read(event) {
        Some(line) => {
            let doc = crate::books::message_of(line);
            &&& passes_on(action, before.client_entries(doc, ts), line)
            &&& after == before.after_client(doc, ts)
            &&& action is Record ==> crate::receipts::is_clock_time(ts)
        },
        None => goes_on(event, action) && after == before,
    }
}

/// A step of the traffic from upstream to the client, at `ts`. Every line is
/// passed on as it came, whatever bytes it holds, and responses only once their
/// receipts have been recorded.
pub open spec fn upstream_turn(
    before: Books,
    event: Event,
    action: Action,
    after: Books,
    ts: u64,
) -> bool {
    match line_read(event) {
        Some(line) => {
            let doc = crate::books::message_of(line);
            &&& passes_on(action, before.upstream_entries(doc, ts), line)
            &&& after == before.after_upstream(doc, ts)
            &&& action is Record ==> crate::receipts::is_clock_time(ts)
        },
        None => goes_on(event, action) && after == before,
    }
}

impl Ledger {
    /// One step of the traffic from the client to upstream.
    pub fn client_event(&mut self, event: Event) -> (r: Action)
        ensures
            exists|ts: u64| #[trigger] client_turn(old(self)@, event, r, final(self)@, ts),
    {
        let ghost before = self@;
        let ghost mut time: u64 = 0;
        let action = match event {
            Event::Read { line } => {
                if line.len() == 0 {
                    Action::Close
                } else {
                    let records = self.client_line(line.as_slice());
                    proof {
                        let doc = crate::books::message_of(line@);
                        time = choose|ts: u64|
                            entries_of(records@) == #[trigger] before.client_entries(doc, ts)
                                && self@ == before.after_client(doc, ts) && (records@.len() > 0
                                ==> crate::receipts::is_clock_time(ts));
                    }
                    pass_on(records, line)
                }
            },
            Event::Recorded { line } => Action::Forward { line },
            Event::Forwarded => Action::ReadLine,
            Event::ReadFailed => Action::Close,
            Event::WriteFailed => Action::Close,
            Event::FlushFailed => Action::Close,
        };
        assert(client_turn(before, event, action, self@, time));
        action
    }

    /// One step of the traffic from upstream to the client.
    pub fn upstream_event(&mut self, event: Event) -> (r: Action)
        ensures
            exists|ts: u64| #[trigger] upstream_turn(old(self)@, event, r, final(self)@, ts),
    {
        let ghost before = self@;
        let ghost mut time: u64 = 0;
        let action = match event {
            Event::Read { line } => {
                if line.len() == 0 {
                    Action::Close
                } else {
                    let records = self.upstream_line(line.as_slice());
                    proof {
                        let doc = crate::books::message_of(line@);
                        time = choose|ts: u64|
                            entries_of(records@) == #[trigger] before.upstream_entries(doc, ts)
                                && self@ == before.after_upstream(doc, ts) && (records@.len() > 0
                                ==> crate::receipts::is_clock_time(ts));
                    }
                    pass_on(records, line)
                }
            },
            Event::Recorded { line } => Action::Forward { line },
            Event::Forwarded => Action::ReadLine,
            Event::ReadFailed => Action::Close,
            Event::WriteFailed => Action::Close,
            Event::FlushFailed => Action::Close,
        };
        assert(upstream_turn(before, event, action, self@, time));
        action
    }
}

/// A call that waits says what its fields hold.
pub proof fn law_pending_permit_says_what_it_holds(p: PendingPermit)
    ensures
        p@.permit_id == p.permit_id@,
        p@.tool_name == p.tool_name@,
        p@.started_ms == p.started_ms,
{
}

/// Records say what each of them says, in order, and none of them is passed
/// over.
pub proof fn law_records_say_what_each_says(records: Seq<Record>, one: Record)
    ensures
        entries_of(records).len() == records.len(),
        forall|i: int| 0 <= i < records.len() ==> #[trigger] entries_of(records)[i] == records[i]@,
        entry_of(Some(one)) == Some(one@),
        entry_of(None) is None,
{
}

/// The action is to hand out just these entries and then to go on with the line,
/// or to go on with it at once where there are none. The line is as it came.
proof fn lemma_passing_on(action: Action, entries: Seq<Entry>, line: Seq<u8>)
    requires
        passes_on(action, entries, line),
    ensures
        entries.len() == 0 ==> (action matches Action::Forward { line: out } && out@ == line),
        entries.len() > 0 ==> (action matches Action::Record { records, line: out } && out@ == line
            && records@.len() == entries.len() && forall|i: int|
            0 <= i < entries.len() ==> (#[trigger] records@[i])@ == entries[i]),
{
    if let Action::Record { records, line: out } = action {
        law_records_say_what_each_says(records@, records@[0]);
        assert forall|i: int| 0 <= i < entries.len() implies (#[trigger] records@[i])@
            == entries[i] by {
            assert(entries_of(records@)[i] == records@[i]@);
        }
    }
}

/// A line of any length from the client is inspected by its text: what is
/// recorded of what the text spells is handed out, one record for each entry,
/// and the line goes on as it came.
pub proof fn law_every_line_from_the_client_is_inspected(
    before: Books,
    line: Vec<u8>,
    action: Action,
    after: Books,
    ts: u64,
    t: Seq<char>,
    ends: Seq<char>,
)
    requires
        client_turn(before, Event::Read { line }, action, after, ts),
        line@.len() > 0,
        line@ == vstd::utf8::encode_utf8(t + ends),
        t.len() > 0 ==> t.last() != '\r' && t.last() != '\n',
        forall|i: int| 0 <= i < ends.len() ==> #[trigger] ends[i] == '\r' || ends[i] == '\n',
    ensures
        ({
            let doc = if t.len() == 0 {
                None
            } else {
                crate::json::json_parse(t)
            };
            let entries = before.client_entries(doc, ts);
            &&& entries.len() == 0 ==> (action matches Action::Forward { line: out } && out@
                == line@)
            &&& entries.len() > 0 ==> (action matches Action::Record { records, line: out } && out@
                == line@ && records@.len() == entries.len() && forall|i: int|
                0 <= i < entries.len() ==> (#[trigger] records@[i])@ == entries[i])
            &&& entries.len() > 0 ==> crate::receipts::is_clock_time(ts)
            &&& after == before.after_client(doc, ts)
        }),
{
    crate::books::law_line_is_read_as_its_text(t, ends);
    lemma_passing_on(
        action,
        before.client_entries(crate::books::message_of(line@), ts),
        line@,
    );
}

/// A line of any length from upstream is inspected by its text, as one from the
/// client is.
pub proof fn law_every_line_from_upstream_is_inspected(
    before: Books,
    line: Vec<u8>,
    action: Action,
    after: Books,
    ts: u64,
    t: Seq<char>,
    ends: Seq<char>,
)
    requires
        upstream_turn(before, Event::Read { line }, action, after, ts),
        line@.len() > 0,
        line@ == vstd::utf8::encode_utf8(t + ends),
        t.len() > 0 ==> t.last() != '\r' && t.last() != '\n',
        forall|i: int| 0 <= i < ends.len() ==> #[trigger] ends[i] == '\r' || ends[i] == '\n',
    ensures
        ({
            let doc = if t.len() == 0 {
                None
            } else {
                crate::json::json_parse(t)
            };
            let entries = before.upstream_entries(doc, ts);
            &&& entries.len() == 0 ==> (action matches Action::Forward { line: out } && out@
                == line@)
            &&& entries.len() > 0 ==> (action matches Action::Record { records, line: out } && out@
                == line@ && records@.len() == entries.len() && forall|i: int|
                0 <= i < entries.len() ==> (#[trigger] records@[i])@ == entries[i])
            &&& entries.len() > 0 ==> crate::receipts::is_clock_time(ts)
            &&& after == before.after_upstream(doc, ts)
        }),
{
    crate::books::law_line_is_read_as_its_text(t, ends);
    lemma_passing_on(
        action,
        before.upstream_entries(crate::books::message_of(line@), ts),
        line@,
    );
}

/// Bytes that are no text go on at once and as they came, and change nothing.
pub proof fn law_bytes_that_are_no_text_go_on(
    before: Books,
    line: Vec<u8>,
    action: Action,
    after: Books,
    ts: u64,
)
    requires
        client_turn(before, Event::Read { line }, action, after, ts) || upstream_turn(
            before,
            Event::Read { line },
            action,
            after,
            ts,
        ),
        !vstd::utf8::valid_utf8(line@),
    ensures
        action matches Action::Forward { line: out } && out@ == line@,
        after == before,
{
}

/// The traffic goes on after every line and ends with its input or a failure, and
/// never otherwise: a line whose records are out is forwarded as it came, and a
/// line that is out makes room for the next.
pub proof fn law_only_the_end_and_failures_close(
    before: Books,
    event: Event,
    action: Action,
    after: Books,
    ts: u64,
)
    requires
        client_turn(before, event, action, after, ts) || upstream_turn(
            before,
            event,
            action,
            after,
            ts,
        ),
    ensures
        match event {
            Event::Read { line } => if line@.len() == 0 {
                action is Close && after == before
            } else {
                action is Forward || action is Record
            },
            Event::Recorded { line } => (action matches Action::Forward { line: out } && out@
                == line@) && after == before,
            Event::Forwarded => action is ReadLine && after == before,
            Event::ReadFailed => action is Close && after == before,
            Event::WriteFailed => action is Close && after == before,
            Event::FlushFailed => action is Close && after == before,
        },
{
}

} // verus!
