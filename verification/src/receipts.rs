//! Permits and receipts: the records of the audit trail and their content
//! addresses.

use crate::clock::since_epoch;
use crate::json::{
    empty_object, integer_value, set_member, text_value, value_bytes, value_display,
    value_float_bits, value_is_float, value_text, Json, Numeral,
};
use serde_json::Value;
use vstd::prelude::*;

verus! {

/// One record of the audit trail.
#[derive(Debug, Clone)]
pub enum Record {
    /// Written before a governed call runs.
    Permit {
        id: String,
        session_id: String,
        upstream: String,
        tool_name: String,
        args_hash: String,
        request_id: String,
        timestamp_ms: u64,
    },
    /// Written after the call's response, with the id of the call's permit.
    Receipt {
        id: String,
        permit_id: String,
        session_id: String,
        status: String,
        result_hash: String,
        duration_ms: u64,
        timestamp_ms: u64,
    },
}

/// What a record says.
pub enum Entry {
    Permit {
        id: Seq<char>,
        session_id: Seq<char>,
        upstream: Seq<char>,
        tool_name: Seq<char>,
        args_hash: Seq<char>,
        request_id: Seq<char>,
        timestamp_ms: u64,
    },
    Receipt {
        id: Seq<char>,
        permit_id: Seq<char>,
        session_id: Seq<char>,
        status: Seq<char>,
        result_hash: Seq<char>,
        duration_ms: u64,
        timestamp_ms: u64,
    },
}

impl View for Record {
    type V = Entry;

    open spec fn view(&self) -> Entry {
        match *self {
            Record::Permit {
                id,
                session_id,
                upstream,
                tool_name,
                args_hash,
                request_id,
                timestamp_ms,
            } => Entry::Permit {
                id: id@,
                session_id: session_id@,
                upstream: upstream@,
                tool_name: tool_name@,
                args_hash: args_hash@,
                request_id: request_id@,
                timestamp_ms,
            },
            Record::Receipt {
                id,
                permit_id,
                session_id,
                status,
                result_hash,
                duration_ms,
                timestamp_ms,
            } => Entry::Receipt {
                id: id@,
                permit_id: permit_id@,
                session_id: session_id@,
                status: status@,
                result_hash: result_hash@,
                duration_ms,
                timestamp_ms,
            },
        }
    }
}

/// The BLAKE3 digest of `bytes`.
pub uninterp spec fn blake3_digest(bytes: Seq<u8>) -> Seq<u8>;

/// `blake3::hash`: the digest, 32 bytes, named by `blake3_digest`.
#[verifier::external_body]
fn digest(bytes: &[u8]) -> (r: [u8; 32])
    ensures
        r@ == blake3_digest(bytes@),
{
    *blake3::hash(bytes).as_bytes()
}

/// `blake3::Hash::to_hex`: a digest as lowercase hexadecimal.
#[verifier::external_body]
fn digest_hex(digest: [u8; 32]) -> (r: String)
    ensures
        r@ == crate::text::lower_hex(digest@),
{
    blake3::Hash::from_bytes(digest).to_hex().to_string()
}

/// The milliseconds since the Unix epoch as they are recorded of a moment:
/// whole, modulo 2^64, and 0 before the epoch.
pub open spec fn recorded_ms(nanos: int) -> int {
    if nanos < 0 {
        0
    } else {
        nanos / 1_000_000 % 0x1_0000_0000_0000_0000
    }
}

/// `ts` is what is recorded of some moment.
pub open spec fn is_clock_time(ts: u64) -> bool {
    exists|t: std::time::SystemTime| ts == recorded_ms(#[trigger] crate::clock::epoch_nanos(t))
}

/// The milliseconds that are recorded of a clock reading, given its whole
/// milliseconds since the Unix epoch: nothing where it lies before the epoch.
pub fn timestamp_of(elapsed_ms: Option<u128>) -> (r: u64)
    ensures
        r == match elapsed_ms {
            Some(ms) => ms as int % 0x1_0000_0000_0000_0000,
            None => 0,
        },
{
    match elapsed_ms {
        Some(ms) => {
            assert(ms as u64 == ms % 0x1_0000_0000_0000_0000u128) by (bit_vector);
            #[verifier::truncate]
            (ms as u64)
        },
        None => 0,
    }
}

/// A moment in milliseconds since the Unix epoch, as it is recorded.
pub fn ms_of(t: std::time::SystemTime) -> (r: u64)
    ensures
        r == recorded_ms(crate::clock::epoch_nanos(t)),
{
    match since_epoch(t) {
        Some(d) => timestamp_of(Some(d.as_millis())),
        None => timestamp_of(None),
    }
}

/// The wall clock in milliseconds since the Unix epoch: what is recorded of the
/// moment that the clock shows.
pub fn now_ms() -> (r: u64)
    ensures
        is_clock_time(r),
{
    ms_of(std::time::SystemTime::now())
}

/// The bytes that are hashed for a document: its serialisation, and none where
/// it has none.
pub open spec fn hashed_bytes(j: Json) -> Seq<u8> {
    match crate::json::json_bytes(j) {
        Some(b) => b,
        None => Seq::empty(),
    }
}

/// The content address of `bytes`: their BLAKE3 digest in hexadecimal.
pub open spec fn address_of(bytes: Seq<u8>) -> Seq<char> {
    crate::text::lower_hex(blake3_digest(bytes))
}

/// The content address of a document.
pub open spec fn content_address(j: Json) -> Seq<char> {
    address_of(hashed_bytes(j))
}

/// 64 small hexadecimal digits.
pub open spec fn is_address(s: Seq<char>) -> bool {
    &&& s.len() == 64
    &&& forall|i: int| 0 <= i < s.len() ==> ('0' <= #[trigger] s[i] <= '9' || 'a' <= s[i] <= 'f')
}

/// The content address of `bytes`.
pub fn hash_bytes(bytes: &[u8]) -> (r: String)
    ensures
        r@ == address_of(bytes@),
        is_address(r@),
{
    digest_hex(digest(bytes))
}

/// The content address of a document. The bytes that are hashed of a flat object
/// read back as the same object.
pub fn hash_value(v: &Value) -> (r: String)
    ensures
        r@ == content_address(crate::json::json_of(*v)),
        match crate::json::json_bytes(crate::json::json_of(*v)) {
            Some(bytes) => r@ == crate::text::lower_hex(blake3_digest(bytes)),
            None => r@ == crate::text::lower_hex(blake3_digest(Seq::empty())),
        },
        is_address(r@),
        crate::json::json_of(*v).is_flat() ==> crate::json::reads_back(
            hashed_bytes(crate::json::json_of(*v)),
            crate::json::json_of(*v),
        ),
{
    match value_bytes(v) {
        Some(bytes) => hash_bytes(bytes.as_slice()),
        None => {
            let none: Vec<u8> = Vec::new();
            hash_bytes(none.as_slice())
        },
    }
}

/// What a permit binds: the object that its id is the content address of.
pub open spec fn permit_json(
    session_id: Seq<char>,
    tool_name: Seq<char>,
    args_hash: Seq<char>,
    request_id: Seq<char>,
    ts: u64,
) -> Json {
    Json::Object(
        map![
            "session_id"@ => Json::Text(session_id),
            "tool_name"@ => Json::Text(tool_name),
            "args_hash"@ => Json::Text(args_hash),
            "request_id"@ => Json::Text(request_id),
            "timestamp_ms"@ => Json::Number(Numeral::Int(ts as int)),
        ],
    )
}

/// What a receipt binds: the object that its id is the content address of.
pub open spec fn receipt_json(
    permit_id: Seq<char>,
    result_hash: Seq<char>,
    status: Seq<char>,
    ts: u64,
) -> Json {
    Json::Object(
        map![
            "permit_id"@ => Json::Text(permit_id),
            "result_hash"@ => Json::Text(result_hash),
            "status"@ => Json::Text(status),
            "timestamp_ms"@ => Json::Number(Numeral::Int(ts as int)),
        ],
    )
}

/// The id of a permit: the content address of all that it binds. The bytes that
/// are hashed read back as exactly that.
pub fn permit_id(
    session_id: &str,
    tool_name: &str,
    args_hash: &str,
    request_id: &str,
    ts: u64,
) -> (r: String)
    ensures
        r@ == content_address(
            permit_json(session_id@, tool_name@, args_hash@, request_id@, ts),
        ),
        is_address(r@),
        crate::json::reads_back(
            hashed_bytes(permit_json(session_id@, tool_name@, args_hash@, request_id@, ts)),
            permit_json(session_id@, tool_name@, args_hash@, request_id@, ts),
        ),
{
    proof {
        lemma_member_names_differ();
    }
    let mut canon = empty_object();
    set_member(&mut canon, "session_id", text_value(session_id));
    set_member(&mut canon, "tool_name", text_value(tool_name));
    set_member(&mut canon, "args_hash", text_value(args_hash));
    set_member(&mut canon, "request_id", text_value(request_id));
    set_member(&mut canon, "timestamp_ms", integer_value(ts));
    hash_value(&canon)
}

/// The id of a receipt: the content address of all that it binds. The bytes
/// that are hashed read back as exactly that.
pub fn receipt_id(permit_id: &str, result_hash: &str, status: &str, ts: u64) -> (r: String)
    ensures
        r@ == content_address(receipt_json(permit_id@, result_hash@, status@, ts)),
        is_address(r@),
        crate::json::reads_back(
            hashed_bytes(receipt_json(permit_id@, result_hash@, status@, ts)),
            receipt_json(permit_id@, result_hash@, status@, ts),
        ),
{
    proof {
        lemma_member_names_differ();
    }
    let mut canon = empty_object();
    set_member(&mut canon, "permit_id", text_value(permit_id));
    set_member(&mut canon, "result_hash", text_value(result_hash));
    set_member(&mut canon, "status", text_value(status));
    set_member(&mut canon, "timestamp_ms", integer_value(ts));
    hash_value(&canon)
}

/// One byte string is the serialisation of at most one document.
proof fn lemma_one_document(bytes: Seq<u8>, a: Json, b: Json)
    requires
        crate::json::reads_back(bytes, a),
        crate::json::reads_back(bytes, b),
    ensures
        a == b,
{
    let s = choose|text: Seq<char>|
        #![trigger crate::json::json_parse(text)]
        bytes == vstd::utf8::encode_utf8(text) && crate::json::json_parse(text) == Some(a);
    let t = choose|text: Seq<char>|
        #![trigger crate::json::json_parse(text)]
        bytes == vstd::utf8::encode_utf8(text) && crate::json::json_parse(text) == Some(b);
    crate::text::lemma_bytes_tell_texts_apart(s, t);
}

proof fn lemma_member_names_differ()
    ensures
        "session_id"@ != "tool_name"@,
        "session_id"@ != "args_hash"@,
        "session_id"@ != "request_id"@,
        "session_id"@ != "timestamp_ms"@,
        "tool_name"@ != "args_hash"@,
        "tool_name"@ != "request_id"@,
        "tool_name"@ != "timestamp_ms"@,
        "args_hash"@ != "request_id"@,
        "args_hash"@ != "timestamp_ms"@,
        "request_id"@ != "timestamp_ms"@,
        "session_id"@ != "permit_id"@,
        "session_id"@ != "result_hash"@,
        "session_id"@ != "status"@,
        "permit_id"@ != "result_hash"@,
        "permit_id"@ != "status"@,
        "permit_id"@ != "timestamp_ms"@,
        "result_hash"@ != "status"@,
        "result_hash"@ != "timestamp_ms"@,
        "status"@ != "timestamp_ms"@,
        "session_id"@ != crate::json::raw_value_name(),
        "tool_name"@ != crate::json::raw_value_name(),
        "args_hash"@ != crate::json::raw_value_name(),
        "request_id"@ != crate::json::raw_value_name(),
        "permit_id"@ != crate::json::raw_value_name(),
        "result_hash"@ != crate::json::raw_value_name(),
        "status"@ != crate::json::raw_value_name(),
        "timestamp_ms"@ != crate::json::raw_value_name(),
{
    reveal_strlit("$serde_json::private::RawValue");
    reveal_strlit("session_id");
    reveal_strlit("tool_name");
    reveal_strlit("args_hash");
    reveal_strlit("request_id");
    reveal_strlit("timestamp_ms");
    reveal_strlit("permit_id");
    reveal_strlit("result_hash");
    reveal_strlit("status");
    assert(crate::json::raw_value_name().len() == 30);
    assert("session_id"@.len() == 10 && "request_id"@.len() == 10);
    assert("session_id"@[0] == 's' && "request_id"@[0] == 'r');
    assert("tool_name"@.len() == 9 && "args_hash"@.len() == 9 && "permit_id"@.len() == 9);
    assert("tool_name"@[0] == 't' && "args_hash"@[0] == 'a');
    assert("timestamp_ms"@.len() == 12 && "result_hash"@.len() == 11 && "status"@.len() == 6);
}

/// No byte string is hashed for two permits that differ in session, tool,
/// arguments, request id or time.
pub proof fn law_permit_bytes_bind_its_fields(
    bytes: Seq<u8>,
    session_id: Seq<char>,
    tool_name: Seq<char>,
    args_hash: Seq<char>,
    request_id: Seq<char>,
    ts: u64,
    session_id2: Seq<char>,
    tool_name2: Seq<char>,
    args_hash2: Seq<char>,
    request_id2: Seq<char>,
    ts2: u64,
)
    requires
        crate::json::reads_back(
            bytes,
            permit_json(session_id, tool_name, args_hash, request_id, ts),
        ),
        crate::json::reads_back(
            bytes,
            permit_json(session_id2, tool_name2, args_hash2, request_id2, ts2),
        ),
    ensures
        session_id == session_id2,
        tool_name == tool_name2,
        args_hash == args_hash2,
        request_id == request_id2,
        ts == ts2,
{
    let a = permit_json(session_id, tool_name, args_hash, request_id, ts);
    let b = permit_json(session_id2, tool_name2, args_hash2, request_id2, ts2);
    lemma_one_document(bytes, a, b);
    lemma_member_names_differ();
    assert(a.member("session_id"@) == Some(Json::Text(session_id)));
    assert(b.member("session_id"@) == Some(Json::Text(session_id2)));
    assert(a.member("tool_name"@) == Some(Json::Text(tool_name)));
    assert(b.member("tool_name"@) == Some(Json::Text(tool_name2)));
    assert(a.member("args_hash"@) == Some(Json::Text(args_hash)));
    assert(b.member("args_hash"@) == Some(Json::Text(args_hash2)));
    assert(a.member("request_id"@) == Some(Json::Text(request_id)));
    assert(b.member("request_id"@) == Some(Json::Text(request_id2)));
    assert(a.member("timestamp_ms"@) == Some(Json::Number(Numeral::Int(ts as int))));
    assert(b.member("timestamp_ms"@) == Some(Json::Number(Numeral::Int(ts2 as int))));
}

/// No byte string is hashed for two receipts that differ in permit, result,
/// status or time.
pub proof fn law_receipt_bytes_bind_its_fields(
    bytes: Seq<u8>,
    permit_id: Seq<char>,
    result_hash: Seq<char>,
    status: Seq<char>,
    ts: u64,
    permit_id2: Seq<char>,
    result_hash2: Seq<char>,
    status2: Seq<char>,
    ts2: u64,
)
    requires
        crate::json::reads_back(bytes, receipt_json(permit_id, result_hash, status, ts)),
        crate::json::reads_back(bytes, receipt_json(permit_id2, result_hash2, status2, ts2)),
    ensures
        permit_id == permit_id2,
        result_hash == result_hash2,
        status == status2,
        ts == ts2,
{
    let a = receipt_json(permit_id, result_hash, status, ts);
    let b = receipt_json(permit_id2, result_hash2, status2, ts2);
    lemma_one_document(bytes, a, b);
    lemma_member_names_differ();
    assert(a.member("permit_id"@) == Some(Json::Text(permit_id)));
    assert(b.member("permit_id"@) == Some(Json::Text(permit_id2)));
    assert(a.member("result_hash"@) == Some(Json::Text(result_hash)));
    assert(b.member("result_hash"@) == Some(Json::Text(result_hash2)));
    assert(a.member("status"@) == Some(Json::Text(status)));
    assert(b.member("status"@) == Some(Json::Text(status2)));
    assert(a.member("timestamp_ms"@) == Some(Json::Number(Numeral::Int(ts as int))));
    assert(b.member("timestamp_ms"@) == Some(Json::Number(Numeral::Int(ts2 as int))));
}

/// No byte string is hashed both for a permit and for a receipt.
pub proof fn law_no_bytes_of_both_kinds(
    bytes: Seq<u8>,
    session_id: Seq<char>,
    tool_name: Seq<char>,
    args_hash: Seq<char>,
    request_id: Seq<char>,
    ts: u64,
    permit_id: Seq<char>,
    result_hash: Seq<char>,
    status: Seq<char>,
    ts2: u64,
)
    requires
        crate::json::reads_back(
            bytes,
            permit_json(session_id, tool_name, args_hash, request_id, ts),
        ),
    ensures
        !crate::json::reads_back(bytes, receipt_json(permit_id, result_hash, status, ts2)),
{
    let a = permit_json(session_id, tool_name, args_hash, request_id, ts);
    let b = receipt_json(permit_id, result_hash, status, ts2);
    if crate::json::reads_back(bytes, b) {
        lemma_one_document(bytes, a, b);
        lemma_member_names_differ();
        assert(a->Object_0.dom().contains("session_id"@));
        assert(!b->Object_0.dom().contains("session_id"@));
    }
}

/// The two byte strings have the same digest only if they are the same. That no
/// two byte strings in use fail this is what BLAKE3 is relied on for; nothing
/// here claims it.
pub open spec fn no_collision(a: Seq<u8>, b: Seq<u8>) -> bool {
    blake3_digest(a) == blake3_digest(b) ==> a == b
}

/// The bytes that are hashed for `j` read back as `j`, as those of every permit
/// and every receipt do.
pub open spec fn hashed_faithfully(j: Json) -> bool {
    crate::json::reads_back(hashed_bytes(j), j)
}

/// Documents with equal content addresses are equal, where they are hashed
/// faithfully and what is hashed of them does not collide.
pub proof fn law_equal_addresses_of_equal_documents(a: Json, b: Json)
    requires
        hashed_faithfully(a),
        hashed_faithfully(b),
        no_collision(hashed_bytes(a), hashed_bytes(b)),
        content_address(a) == content_address(b),
    ensures
        a == b,
{
    crate::text::lemma_hex_tells_bytes_apart(
        blake3_digest(hashed_bytes(a)),
        blake3_digest(hashed_bytes(b)),
    );
    lemma_one_document(hashed_bytes(a), a, b);
}

/// A permit's id binds its session, tool, arguments, request id and time: two
/// permits with one id agree in all of them, unless what is hashed of them
/// collides.
pub proof fn law_permit_id_binds_its_fields(
    session_id: Seq<char>,
    tool_name: Seq<char>,
    args_hash: Seq<char>,
    request_id: Seq<char>,
    ts: u64,
    session_id2: Seq<char>,
    tool_name2: Seq<char>,
    args_hash2: Seq<char>,
    request_id2: Seq<char>,
    ts2: u64,
)
    requires
        ({
            let a = permit_json(session_id, tool_name, args_hash, request_id, ts);
            let b = permit_json(session_id2, tool_name2, args_hash2, request_id2, ts2);
            &&& hashed_faithfully(a)
            &&& hashed_faithfully(b)
            &&& no_collision(hashed_bytes(a), hashed_bytes(b))
            &&& content_address(a) == content_address(b)
        }),
    ensures
        session_id == session_id2,
        tool_name == tool_name2,
        args_hash == args_hash2,
        request_id == request_id2,
        ts == ts2,
{
    let a = permit_json(session_id, tool_name, args_hash, request_id, ts);
    let b = permit_json(session_id2, tool_name2, args_hash2, request_id2, ts2);
    law_equal_addresses_of_equal_documents(a, b);
    law_permit_bytes_bind_its_fields(
        hashed_bytes(a),
        session_id,
        tool_name,
        args_hash,
        request_id,
        ts,
        session_id2,
        tool_name2,
        args_hash2,
        request_id2,
        ts2,
    );
}

/// A receipt's id binds its permit, result, status and time: two receipts with
/// one id agree in all of them, unless what is hashed of them collides.
pub proof fn law_receipt_id_binds_its_fields(
    permit_id: Seq<char>,
    result_hash: Seq<char>,
    status: Seq<char>,
    ts: u64,
    permit_id2: Seq<char>,
    result_hash2: Seq<char>,
    status2: Seq<char>,
    ts2: u64,
)
    requires
        ({
            let a = receipt_json(permit_id, result_hash, status, ts);
            let b = receipt_json(permit_id2, result_hash2, status2, ts2);
            &&& hashed_faithfully(a)
            &&& hashed_faithfully(b)
            &&& no_collision(hashed_bytes(a), hashed_bytes(b))
            &&& content_address(a) == content_address(b)
        }),
    ensures
        permit_id == permit_id2,
        result_hash == result_hash2,
        status == status2,
        ts == ts2,
{
    let a = receipt_json(permit_id, result_hash, status, ts);
    let b = receipt_json(permit_id2, result_hash2, status2, ts2);
    law_equal_addresses_of_equal_documents(a, b);
    law_receipt_bytes_bind_its_fields(
        hashed_bytes(a),
        permit_id,
        result_hash,
        status,
        ts,
        permit_id2,
        result_hash2,
        status2,
        ts2,
    );
}

/// No permit and no receipt have the same id, unless what is hashed of them
/// collides.
pub proof fn law_permit_and_receipt_ids_differ(
    session_id: Seq<char>,
    tool_name: Seq<char>,
    args_hash: Seq<char>,
    request_id: Seq<char>,
    ts: u64,
    permit_id: Seq<char>,
    result_hash: Seq<char>,
    status: Seq<char>,
    ts2: u64,
)
    requires
        ({
            let a = permit_json(session_id, tool_name, args_hash, request_id, ts);
            let b = receipt_json(permit_id, result_hash, status, ts2);
            &&& hashed_faithfully(a)
            &&& hashed_faithfully(b)
            &&& no_collision(hashed_bytes(a), hashed_bytes(b))
        }),
    ensures
        content_address(permit_json(session_id, tool_name, args_hash, request_id, ts))
            != content_address(receipt_json(permit_id, result_hash, status, ts2)),
{
    let a = permit_json(session_id, tool_name, args_hash, request_id, ts);
    let b = receipt_json(permit_id, result_hash, status, ts2);
    if content_address(a) == content_address(b) {
        law_equal_addresses_of_equal_documents(a, b);
        law_no_bytes_of_both_kinds(
            hashed_bytes(a),
            session_id,
            tool_name,
            args_hash,
            request_id,
            ts,
            permit_id,
            result_hash,
            status,
            ts2,
        );
    }
}

/// A request id as it is recorded: a string as it is, anything else as it is
/// displayed.
pub open spec fn request_text(id: Json) -> Seq<char> {
    match id {
        Json::Text(s) => s,
        other => crate::json::displayed(other),
    }
}

/// The text of a request id.
pub fn request_id_string(id: &Value) -> (r: String)
    ensures
        r@ == request_text(crate::json::json_of(*id)),
{
    match value_text(id) {
        Some(s) => s.to_owned(),
        None => value_display(id),
    }
}

/// The key by which a response is paired with its request. It keeps apart what
/// the recorded text does not: a string from a document that is displayed like
/// it. A float stands by its bits.
pub open spec fn pairing_key(id: Json) -> Seq<char> {
    match id {
        Json::Text(s) => seq!['t'] + s,
        Json::Number(Numeral::Float(bits)) => seq!['f'] + crate::text::decimal(bits as int),
        other => seq!['d'] + crate::json::displayed(other),
    }
}

/// The key by which a response with this id is paired with its request.
pub fn pairing_key_of(id: &Value) -> (r: String)
    ensures
        r@ == pairing_key(crate::json::json_of(*id)),
{
    proof {
        reveal_strlit("t");
        reveal_strlit("f");
        reveal_strlit("d");
    }
    let mut key = String::new();
    match value_text(id) {
        Some(s) => {
            key.append("t");
            key.append(s);
        },
        None => {
            if value_is_float(id) {
                key.append("f");
                if let Some(bits) = value_float_bits(id) {
                    key.append(value_display(&integer_value(bits)).as_str());
                }
            } else {
                key.append("d");
                key.append(value_display(id).as_str());
            }
        },
    }
    assert(key@ =~= pairing_key(crate::json::json_of(*id)));
    key
}

/// What can stand as the id of a JSON-RPC request: a string, a number or null.
/// The booleans are told apart like these.
pub open spec fn is_scalar(id: Json) -> bool {
    !(id is List) && !(id is Object)
}

/// Different ids have different keys, whether they are strings, numbers, null or
/// booleans.
pub proof fn law_ids_have_their_own_keys(a: Json, b: Json)
    requires
        is_scalar(a),
        is_scalar(b),
        pairing_key(a) == pairing_key(b),
    ensures
        a == b,
{
    lemma_key_parts(a);
    lemma_key_parts(b);
    reveal_strlit("null");
    reveal_strlit("true");
    reveal_strlit("false");
    match (a, b) {
        (Json::Number(Numeral::Float(x)), Json::Number(Numeral::Float(y))) => {
            crate::text::lemma_decimal_tells_integers_apart(x as int, y as int);
        },
        (Json::Number(Numeral::Int(m)), Json::Number(Numeral::Int(n))) => {
            crate::text::lemma_decimal_tells_integers_apart(m, n);
        },
        _ => {},
    }
    if let Json::Number(Numeral::Int(n)) = a {
        crate::text::lemma_decimal_begins(n);
    }
    if let Json::Number(Numeral::Int(n)) = b {
        crate::text::lemma_decimal_begins(n);
    }
    assert("null"@[0] == 'n' && "true"@[0] == 't' && "false"@[0] == 'f');
}

/// A key is its tag and what follows it.
proof fn lemma_key_parts(id: Json)
    ensures
        match id {
            Json::Text(s) => pairing_key(id)[0] == 't' && pairing_key(id).skip(1) == s,
            Json::Number(Numeral::Float(bits)) => pairing_key(id)[0] == 'f' && pairing_key(
                id,
            ).skip(1) == crate::text::decimal(bits as int),
            other => pairing_key(id)[0] == 'd' && pairing_key(id).skip(1)
                == crate::json::displayed(other),
        },
{
    match id {
        Json::Text(s) => assert(pairing_key(id).skip(1) =~= s),
        Json::Number(Numeral::Float(bits)) => assert(pairing_key(id).skip(1)
            =~= crate::text::decimal(bits as int)),
        other => assert(pairing_key(id).skip(1) =~= crate::json::displayed(other)),
    }
}

/// A serialised record as one line of the audit trail.
pub fn jsonl_line(record: Vec<u8>) -> (line: Vec<u8>)
    ensures
        line@ == record@.push(0x0au8),
{
    let mut line = record;
    line.push(0x0au8);
    line
}

/// The content address of a document is the hexadecimal digest of its whole
/// serialisation, whatever the document is.
pub proof fn law_address_is_of_the_whole_document(j: Json, bytes: Seq<u8>)
    requires
        crate::json::json_bytes(j) == Some(bytes),
    ensures
        hashed_bytes(j) == bytes,
        address_of(bytes) == crate::text::lower_hex(blake3_digest(bytes)),
        content_address(j) == crate::text::lower_hex(blake3_digest(bytes)),
{
}

/// A document that has no serialisation has the address of no bytes.
pub proof fn law_address_without_serialisation(j: Json)
    requires
        crate::json::json_bytes(j) is None,
    ensures
        content_address(j) == crate::text::lower_hex(blake3_digest(Seq::empty())),
{
}

/// Documents that are serialised differently are hashed over different bytes,
/// and share a content address only where the digests of their serialisations
/// collide.
pub proof fn law_different_serialisations_are_hashed_differently(
    a: Json,
    b: Json,
    bytes_a: Seq<u8>,
    bytes_b: Seq<u8>,
)
    requires
        crate::json::json_bytes(a) == Some(bytes_a),
        crate::json::json_bytes(b) == Some(bytes_b),
        bytes_a != bytes_b,
    ensures
        hashed_bytes(a) != hashed_bytes(b),
        content_address(a) == content_address(b) ==> blake3_digest(bytes_a) == blake3_digest(
            bytes_b,
        ),
{
    if content_address(a) == content_address(b) {
        crate::text::lemma_hex_tells_bytes_apart(blake3_digest(bytes_a), blake3_digest(bytes_b));
    }
}

/// An object that differs from another in any member is hashed differently,
/// unless the two are serialised alike.
pub proof fn law_every_member_is_hashed(
    m: Map<Seq<char>, Json>,
    n: Map<Seq<char>, Json>,
)
    requires
        crate::json::json_bytes(Json::Object(m)) is Some,
        crate::json::json_bytes(Json::Object(n)) is Some,
    ensures
        hashed_bytes(Json::Object(m)) == hashed_bytes(Json::Object(n)) <==> crate::json::json_bytes(
            Json::Object(m),
        ) == crate::json::json_bytes(Json::Object(n)),
{
}

/// What a permit binds is an object of its five fields under their names and of
/// nothing else.
pub proof fn law_permit_object(
    session_id: Seq<char>,
    tool_name: Seq<char>,
    args_hash: Seq<char>,
    request_id: Seq<char>,
    ts: u64,
)
    ensures
        permit_json(session_id, tool_name, args_hash, request_id, ts) matches Json::Object(m)
            && m.dom() == set![
            "session_id"@,
            "tool_name"@,
            "args_hash"@,
            "request_id"@,
            "timestamp_ms"@,
        ] && m["session_id"@] == Json::Text(session_id) && m["tool_name"@] == Json::Text(tool_name)
            && m["args_hash"@] == Json::Text(args_hash) && m["request_id"@] == Json::Text(
            request_id,
        ) && m["timestamp_ms"@] == Json::Number(Numeral::Int(ts as int)),
{
    lemma_member_names_differ();
    let m = permit_json(session_id, tool_name, args_hash, request_id, ts)->Object_0;
    assert(m.dom() =~= set![
        "session_id"@,
        "tool_name"@,
        "args_hash"@,
        "request_id"@,
        "timestamp_ms"@,
    ]);
}

/// What a receipt binds is an object of its four fields under their names and of
/// nothing else.
pub proof fn law_receipt_object(
    permit_id: Seq<char>,
    result_hash: Seq<char>,
    status: Seq<char>,
    ts: u64,
)
    ensures
        receipt_json(permit_id, result_hash, status, ts) matches Json::Object(m) && m.dom() == set![
            "permit_id"@,
            "result_hash"@,
            "status"@,
            "timestamp_ms"@,
        ] && m["permit_id"@] == Json::Text(permit_id) && m["result_hash"@] == Json::Text(
            result_hash,
        ) && m["status"@] == Json::Text(status) && m["timestamp_ms"@] == Json::Number(
            Numeral::Int(ts as int),
        ),
{
    lemma_member_names_differ();
    let m = receipt_json(permit_id, result_hash, status, ts)->Object_0;
    assert(m.dom() =~= set!["permit_id"@, "result_hash"@, "status"@, "timestamp_ms"@]);
}

/// A string id is recorded as it is, an integer in decimal, null and the
/// booleans as their words, and any other id as `serde_json` displays it.
pub proof fn law_ids_are_recorded_as_text(s: Seq<char>, n: int, bits: u64, other: Json)
    ensures
        request_text(Json::Text(s)) == s,
        request_text(Json::Number(Numeral::Int(n))) == crate::text::decimal(n),
        request_text(Json::Number(Numeral::Float(bits))) == crate::json::json_display(
            Json::Number(Numeral::Float(bits)),
        ),
        request_text(Json::Null) == "null"@,
        request_text(Json::Bool(true)) == "true"@,
        request_text(Json::Bool(false)) == "false"@,
        other is List || other is Object ==> request_text(other) == crate::json::json_display(
            other,
        ),
{
}

/// Two different ids that are neither lists nor objects never share a key, and
/// two that are one or the other share it only where they are displayed alike.
pub proof fn law_different_ids_share_no_key(a: Json, b: Json)
    requires
        a != b,
    ensures
        !(a is List || a is Object || b is List || b is Object) ==> pairing_key(a) != pairing_key(
            b,
        ),
        (a is List || a is Object) && (b is List || b is Object) ==> (pairing_key(a) == pairing_key(
            b,
        ) <==> crate::json::json_display(a) == crate::json::json_display(b)),
{
    lemma_key_parts(a);
    lemma_key_parts(b);
    if !(a is List || a is Object || b is List || b is Object) && pairing_key(a) == pairing_key(b) {
        law_ids_have_their_own_keys(a, b);
    }
}

/// A moment is recorded as the millisecond that it lies in, as long as that fits
/// 64 bits, and beyond that over again from 0; a moment before the epoch as 0.
pub proof fn law_moments_lie_in_their_millisecond(nanos: int)
    ensures
        nanos < 0 ==> recorded_ms(nanos) == 0,
        0 <= nanos < 0x1_0000_0000_0000_0000 * 1_000_000 ==> recorded_ms(nanos) * 1_000_000 <= nanos
            < (recorded_ms(nanos) + 1) * 1_000_000,
        nanos >= 0 ==> recorded_ms(nanos + 0x1_0000_0000_0000_0000 * 1_000_000) == recorded_ms(
            nanos,
        ),
{
    if nanos >= 0 {
        let ms = nanos / 1_000_000;
        assert((nanos + 0x1_0000_0000_0000_0000 * 1_000_000) / 1_000_000 == ms
            + 0x1_0000_0000_0000_0000);
        assert((ms + 0x1_0000_0000_0000_0000) % 0x1_0000_0000_0000_0000 == ms
            % 0x1_0000_0000_0000_0000);
    }
}

/// A time of the clock is what is recorded of some moment, to the millisecond.
pub proof fn law_clock_times_are_of_moments(ts: u64)
    ensures
        is_clock_time(ts) <==> exists|t: std::time::SystemTime|
            ts == recorded_ms(#[trigger] crate::clock::epoch_nanos(t)),
{
}

/// A record says what its fields hold.
pub proof fn law_record_says_what_it_holds(r: Record)
    ensures
        r matches Record::Permit {
            id,
            session_id,
            upstream,
            tool_name,
            args_hash,
            request_id,
            timestamp_ms,
        } ==> r@ is Permit && r@->Permit_id == id@ && r@->Permit_session_id == session_id@
            && r@->upstream == upstream@ && r@->tool_name == tool_name@ && r@->args_hash
            == args_hash@ && r@->request_id == request_id@ && r@->Permit_timestamp_ms
            == timestamp_ms,
        r matches Record::Receipt {
            id,
            permit_id,
            session_id,
            status,
            result_hash,
            duration_ms,
            timestamp_ms,
        } ==> r@ is Receipt && r@->Receipt_id == id@ && r@->permit_id == permit_id@
            && r@->Receipt_session_id == session_id@ && r@->status == status@ && r@->result_hash
            == result_hash@ && r@->duration_ms == duration_ms && r@->Receipt_timestamp_ms
            == timestamp_ms,
{
}

} // verus!
