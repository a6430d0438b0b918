use deos_mcpd::jsonrpc::inspect;
use deos_mcpd::proxy::{outcome, read_message, Action, Event, Ledger};
use deos_mcpd::receipts::{hash_value, permit_id, receipt_id, Record};
use serde_json::Value;

const CALL: &str = "{\"jsonrpc\":\"2.0\",\"id\":7,\"method\":\"tools/call\",\
                    \"params\":{\"name\":\"read_file\",\"arguments\":{\"path\":\"/tmp\"}}}";
const ANSWER: &str = "{\"jsonrpc\":\"2.0\",\"id\":7,\"result\":{\"content\":[]}}";

fn json(text: &str) -> Value {
    serde_json::from_str(text).unwrap()
}

fn ledger() -> Ledger {
    Ledger::new("d3a1".to_string(), "npx -y server".to_string())
}

/// The only record, if there is one.
fn one(mut records: Vec<Record>) -> Option<Record> {
    assert!(records.len() <= 1);
    records.pop()
}

fn permit_ids(records: &[Record]) -> Vec<String> {
    records
        .iter()
        .map(|r| match r {
            Record::Permit { id, .. } => id.clone(),
            Record::Receipt { permit_id, .. } => permit_id.clone(),
        })
        .collect()
}

fn status_of(record: Option<Record>) -> String {
    match record {
        Some(Record::Receipt { status, .. }) => status,
        _ => panic!("no receipt"),
    }
}

#[test]
fn a_call_gets_its_permit() {
    let mut l = ledger();
    let args = hash_value(&json("{\"path\":\"/tmp\"}"));
    match one(l.client_message(&json(CALL), 1000)) {
        Some(Record::Permit {
            id,
            session_id,
            upstream,
            tool_name,
            args_hash,
            request_id,
            timestamp_ms,
        }) => {
            assert_eq!(id, permit_id("d3a1", "read_file", &args, "7", 1000));
            assert_eq!(session_id, "d3a1");
            assert_eq!(upstream, "npx -y server");
            assert_eq!(tool_name, "read_file");
            assert_eq!(args_hash, args);
            assert_eq!(request_id, "7");
            assert_eq!(timestamp_ms, 1000);
        }
        _ => panic!("no permit"),
    }
}

#[test]
fn an_answer_gets_its_receipt() {
    let mut l = ledger();
    let args = hash_value(&json("{\"path\":\"/tmp\"}"));
    l.client_message(&json(CALL), 1000);
    let result = hash_value(&json("{\"content\":[]}"));
    let permit = permit_id("d3a1", "read_file", &args, "7", 1000);
    match one(l.upstream_message(&json(ANSWER), 1004)) {
        Some(Record::Receipt {
            id,
            permit_id,
            session_id,
            status,
            result_hash,
            duration_ms,
            timestamp_ms,
        }) => {
            assert_eq!(id, receipt_id(&permit, &result, "ok", 1004));
            assert_eq!(permit_id, permit);
            assert_eq!(session_id, "d3a1");
            assert_eq!(status, "ok");
            assert_eq!(result_hash, result);
            assert_eq!(duration_ms, 4);
            assert_eq!(timestamp_ms, 1004);
        }
        _ => panic!("no receipt"),
    }
}

#[test]
fn a_clock_that_runs_back_gives_no_duration() {
    let mut l = ledger();
    l.client_message(&json(CALL), 1000);
    match one(l.upstream_message(&json(ANSWER), 10)) {
        Some(Record::Receipt { duration_ms, .. }) => assert_eq!(duration_ms, 0),
        _ => panic!("no receipt"),
    }
}

#[test]
fn a_call_is_answered_once() {
    let mut l = ledger();
    l.client_message(&json(CALL), 1);
    assert_eq!(l.upstream_message(&json(ANSWER), 2).len(), 1);
    assert!(l.upstream_message(&json(ANSWER), 3).is_empty());
    l.client_message(&json(CALL), 4);
    assert_eq!(l.upstream_message(&json(ANSWER), 5).len(), 1);
}

#[test]
fn an_unasked_answer_leaves_no_receipt() {
    let mut l = ledger();
    assert!(l.upstream_message(&json(ANSWER), 1).is_empty());
    l.client_message(&json(CALL), 2);
    assert!(l
        .upstream_message(&json("{\"id\":8,\"result\":1}"), 3)
        .is_empty());
    assert_eq!(l.upstream_message(&json(ANSWER), 4).len(), 1);
}

#[test]
fn answers_come_in_any_order() {
    let mut l = ledger();
    let first = one(l.client_message(&json(CALL), 1));
    let second = one(l.client_message(
        &json("{\"id\":\"b\",\"method\":\"tools/call\",\"params\":{\"name\":\"write_file\"}}"),
        2,
    ));
    let answered = one(l.upstream_message(&json("{\"id\":\"b\",\"result\":1}"), 3));
    match (second, answered) {
        (Some(Record::Permit { id, .. }), Some(Record::Receipt { permit_id, .. })) => {
            assert_eq!(id, permit_id)
        }
        _ => panic!("no pair"),
    }
    let answered = one(l.upstream_message(&json(ANSWER), 4));
    match (first, answered) {
        (Some(Record::Permit { id, .. }), Some(Record::Receipt { permit_id, .. })) => {
            assert_eq!(id, permit_id)
        }
        _ => panic!("no pair"),
    }
}

#[test]
fn a_later_call_takes_the_place_of_one_with_its_id() {
    let mut l = ledger();
    l.client_message(&json(CALL), 1);
    let second = one(l.client_message(&json(CALL), 2));
    let answered = one(l.upstream_message(&json(ANSWER), 3));
    match (second, answered) {
        (Some(Record::Permit { id, .. }), Some(Record::Receipt { permit_id, .. })) => {
            assert_eq!(id, permit_id)
        }
        _ => panic!("no pair"),
    }
    assert!(l.upstream_message(&json(ANSWER), 4).is_empty());
}

#[test]
fn a_call_without_name_and_arguments() {
    let mut l = ledger();
    let msg = json("{\"id\":1,\"method\":\"tools/call\",\"params\":{}}");
    match one(l.client_message(&msg, 1)) {
        Some(Record::Permit {
            tool_name,
            args_hash,
            ..
        }) => {
            assert_eq!(tool_name, "<unknown>");
            assert_eq!(args_hash, blake3::hash(b"null").to_hex().to_string());
        }
        _ => panic!("no permit"),
    }
}

#[test]
fn what_is_not_governed_leaves_no_permit() {
    let mut l = ledger();
    for text in [
        "{\"id\":1,\"method\":\"tools/list\",\"params\":{}}",
        "{\"method\":\"tools/call\",\"params\":{}}",
        "{\"id\":1,\"method\":\"tools/call\"}",
        "{\"id\":1,\"result\":{}}",
        "[]",
    ] {
        assert!(l.client_message(&json(text), 1).is_empty());
    }
    assert!(l.upstream_message(&json("{\"id\":1,\"result\":1}"), 2).is_empty());
}

#[test]
fn statuses() {
    let cases = [
        ("{\"id\":7,\"error\":{\"code\":1}}", "error"),
        ("{\"id\":7,\"error\":null,\"result\":1}", "error"),
        ("{\"id\":7,\"result\":{\"isError\":true}}", "tool_error"),
        ("{\"id\":7,\"result\":{\"isError\":false}}", "ok"),
        ("{\"id\":7,\"result\":{\"isError\":\"true\"}}", "ok"),
        ("{\"id\":7,\"result\":null}", "ok"),
    ];
    for (text, status) in cases {
        let mut l = ledger();
        l.client_message(&json(CALL), 1);
        assert_eq!(status_of(one(l.upstream_message(&json(text), 2))), status);
    }
}

#[test]
fn outcomes() {
    let msg = json("{\"id\":1,\"error\":{\"code\":1},\"result\":2}");
    assert_eq!(outcome(&inspect(&msg)), ("error", json("{\"code\":1}")));
    let msg = json("{\"id\":1,\"result\":[2]}");
    assert_eq!(outcome(&inspect(&msg)), ("ok", json("[2]")));
    let msg = json("{\"id\":1}");
    assert_eq!(outcome(&inspect(&msg)), ("unknown", Value::Null));
}

#[test]
fn lines_are_read_without_their_ends() {
    assert_eq!(read_message(b"7\r\n"), Some(json("7")));
    assert_eq!(read_message(b"{\"a\":1}\n"), Some(json("{\"a\":1}")));
    assert_eq!(read_message(b"[1]"), Some(json("[1]")));
    assert_eq!(read_message(b"\r\n\r\n"), None);
    assert_eq!(read_message(b""), None);
    assert_eq!(read_message(b"{\"a\":"), None);
    assert_eq!(read_message(b"   \n"), None);
    assert_eq!(read_message("\"\u{e9}\"\n".as_bytes()), Some(json("\"\u{e9}\"")));
    assert_eq!(read_message(b"\"\xe9\"\n"), None);
    assert_eq!(read_message(b"\xff\n"), None);
}

#[test]
fn lines_are_noted_at_the_time_of_the_clock() {
    let mut l = ledger();
    let permit = one(l.client_line(format!("{}\n", CALL).as_bytes()));
    let receipt = one(l.upstream_line(format!("{}\r\n", ANSWER).as_bytes()));
    match (permit, receipt) {
        (
            Some(Record::Permit {
                id,
                timestamp_ms: asked,
                ..
            }),
            Some(Record::Receipt {
                permit_id,
                timestamp_ms: answered,
                ..
            }),
        ) => {
            assert_eq!(id, permit_id);
            assert!(asked > 1_600_000_000_000);
            assert!(answered > 1_600_000_000_000);
        }
        _ => panic!("no pair"),
    }
    assert!(l.client_line(b"not json\n").is_empty());
    assert!(l.upstream_line(b"\n").is_empty());
}

fn read(line: &[u8]) -> Event {
    Event::Read {
        line: line.to_vec(),
    }
}

#[test]
fn a_governed_line_is_recorded_then_forwarded() {
    let mut l = ledger();
    let line = format!("{}\r\n", CALL).into_bytes();
    let held = match l.client_event(read(&line)) {
        Action::Record { records, line } => {
            match one(records) {
                Some(Record::Permit { tool_name, .. }) => assert_eq!(tool_name, "read_file"),
                _ => panic!("no permit"),
            }
            line
        }
        _ => panic!("not recorded"),
    };
    assert_eq!(held, line);
    match l.client_event(Event::Recorded { line: held }) {
        Action::Forward { line: out } => assert_eq!(out, line),
        _ => panic!("not forwarded"),
    }
    assert!(matches!(l.client_event(Event::Forwarded), Action::ReadLine));
    let answer = format!("{}\n", ANSWER).into_bytes();
    match l.upstream_event(read(&answer)) {
        Action::Record { records, line: out } => {
            assert_eq!(status_of(one(records)), "ok");
            assert_eq!(out, answer);
        }
        _ => panic!("not recorded"),
    }
}

#[test]
fn any_other_line_is_forwarded_verbatim() {
    let mut l = ledger();
    let lines: [&[u8]; 8] = [
        b"not json\n",
        b"\n",
        b"  {}  \r\n",
        b"{\"id\":1,\"result\":2}",
        "\u{e9}\n".as_bytes(),
        b"\xff\n",
        b"{\"a\":\"\xc3\x28\"}\n",
        b"{}\n",
    ];
    for line in lines {
        match l.client_event(read(line)) {
            Action::Forward { line: out } => assert_eq!(out, line),
            _ => panic!("not forwarded"),
        }
        assert!(matches!(l.client_event(Event::Forwarded), Action::ReadLine));
        match l.upstream_event(read(line)) {
            Action::Forward { line: out } => assert_eq!(out, line),
            _ => panic!("not forwarded"),
        }
        assert!(matches!(l.upstream_event(Event::Forwarded), Action::ReadLine));
    }
}

#[test]
fn every_call_of_a_batch_gets_its_permit() {
    let mut l = ledger();
    let one_call = "[{\"jsonrpc\":\"2.0\",\"id\":1,\"method\":\"tools/call\",\
                    \"params\":{\"name\":\"rm\",\"arguments\":{}}}]\n";
    match l.client_event(read(one_call.as_bytes())) {
        Action::Record { records, line } => {
            assert_eq!(line, one_call.as_bytes());
            match one(records) {
                Some(Record::Permit {
                    tool_name,
                    request_id,
                    ..
                }) => {
                    assert_eq!(tool_name, "rm");
                    assert_eq!(request_id, "1");
                }
                _ => panic!("no permit"),
            }
        }
        _ => panic!("not recorded"),
    }
    let batch = json(
        "[{\"id\":2,\"method\":\"tools/call\",\"params\":{\"name\":\"a\"}},7,\
         {\"id\":3,\"method\":\"tools/list\",\"params\":{}},\
         {\"id\":4,\"method\":\"tools/call\",\"params\":{\"name\":\"b\"}}]",
    );
    let permits = l.client_message(&batch, 5);
    let null = hash_value(&Value::Null);
    assert_eq!(
        permit_ids(&permits),
        [
            permit_id("d3a1", "a", &null, "2", 5),
            permit_id("d3a1", "b", &null, "4", 5)
        ]
    );
    let answers = json("[{\"id\":4,\"result\":0},{\"id\":9,\"result\":0},{\"id\":2,\"error\":0}]");
    let receipts = l.upstream_message(&answers, 6);
    assert_eq!(
        permit_ids(&receipts),
        [
            permit_id("d3a1", "b", &null, "4", 5),
            permit_id("d3a1", "a", &null, "2", 5)
        ]
    );
    assert!(l.upstream_message(&answers, 7).is_empty());
}

#[test]
fn an_answer_twice_in_a_batch_leaves_one_receipt() {
    let mut l = ledger();
    l.client_message(&json(CALL), 1);
    let answers = json("[{\"id\":7,\"result\":0},{\"id\":7,\"result\":1}]");
    assert_eq!(status_of(one(l.upstream_message(&answers, 2))), "ok");
}

#[test]
fn a_batch_of_one_is_its_message() {
    let mut a = ledger();
    let mut b = ledger();
    assert_eq!(
        permit_ids(&a.client_message(&json(CALL), 1)),
        permit_ids(&b.client_message(&json(&format!("[{}]", CALL)), 1))
    );
    assert!(a.client_message(&json(&format!("[[{}]]", CALL)), 1).is_empty());
}

#[test]
fn only_the_own_id_answers() {
    let ids = ["7", "\"7\"", "7.0", "null", "\"null\"", "0.0", "-0.0", "\"\"", "-7", "true"];
    for asked in ids {
        for answered in ids {
            let mut l = ledger();
            let call = format!(
                "{{\"id\":{},\"method\":\"tools/call\",\"params\":{{}}}}",
                asked
            );
            assert_eq!(l.client_message(&json(&call), 1).len(), 1);
            let answer = format!("{{\"id\":{},\"result\":0}}", answered);
            let receipts = l.upstream_message(&json(&answer), 2);
            assert_eq!(receipts.len(), if asked == answered { 1 } else { 0 });
            if asked != answered {
                let answer = format!("{{\"id\":{},\"result\":0}}", asked);
                assert_eq!(l.upstream_message(&json(&answer), 3).len(), 1);
            }
        }
    }
}

#[test]
fn the_end_of_input_and_failures_close() {
    let mut l = ledger();
    assert!(matches!(l.client_event(read(b"")), Action::Close));
    assert!(matches!(l.upstream_event(read(b"")), Action::Close));
    assert!(matches!(l.client_event(Event::ReadFailed), Action::Close));
    assert!(matches!(l.upstream_event(Event::ReadFailed), Action::Close));
    assert!(matches!(l.client_event(Event::WriteFailed), Action::Close));
    assert!(matches!(l.upstream_event(Event::WriteFailed), Action::Close));
    assert!(matches!(l.client_event(Event::FlushFailed), Action::Close));
    assert!(matches!(l.upstream_event(Event::FlushFailed), Action::Close));
}

#[test]
fn receipts_never_outnumber_permits() {
    let mut l = ledger();
    let mut permits = 0;
    let mut receipts = 0;
    for round in 0..20u64 {
        let id = round % 3;
        let call = format!("{{\"id\":{},\"method\":\"tools/call\",\"params\":{{}}}}", id);
        permits += l.client_message(&json(&call), round).len();
        for answered in 0..2u64 {
            let answer = format!("{{\"id\":{},\"result\":0}}", (round + answered) % 3);
            receipts += l.upstream_message(&json(&answer), round).len();
        }
        assert!(receipts <= permits);
    }
    assert_eq!(permits, 20);
    assert_eq!(receipts, 20);
}

#[derive(Debug, PartialEq)]
enum Deed {
    Read(Vec<u8>),
    HandedOut(usize),
    Forwarded(Vec<u8>),
}

/// Carries out what the ledger asks for on the lines of one direction.
fn carry_out(step: fn(&mut Ledger, Event) -> Action, l: &mut Ledger, lines: &[&[u8]]) -> Vec<Deed> {
    let mut done = Vec::new();
    let mut rest = lines.iter();
    let mut action = Action::ReadLine;
    loop {
        let event = match action {
            Action::Close => return done,
            Action::ReadLine => {
                let line = rest.next().map(|line| line.to_vec()).unwrap_or_default();
                if !line.is_empty() {
                    done.push(Deed::Read(line.clone()));
                }
                Event::Read { line }
            }
            Action::Record { records, line } => {
                done.push(Deed::HandedOut(records.len()));
                Event::Recorded { line }
            }
            Action::Forward { line } => {
                done.push(Deed::Forwarded(line));
                Event::Forwarded
            }
        };
        action = step(l, event);
    }
}

#[test]
fn traffic_goes_line_by_line() {
    let call = format!("{}\n", CALL).into_bytes();
    let batch = format!("[{},{}]\n", CALL, CALL).into_bytes();
    let answer = format!("{}\r\n", ANSWER).into_bytes();
    let odd = b"\xff\n".to_vec();
    let empty = b"{}\n".to_vec();
    let mut l = ledger();
    assert_eq!(
        carry_out(Ledger::client_event, &mut l, &[&odd, &call, &empty, &batch]),
        [
            Deed::Read(odd.clone()),
            Deed::Forwarded(odd.clone()),
            Deed::Read(call.clone()),
            Deed::HandedOut(1),
            Deed::Forwarded(call),
            Deed::Read(empty.clone()),
            Deed::Forwarded(empty),
            Deed::Read(batch.clone()),
            Deed::HandedOut(2),
            Deed::Forwarded(batch),
        ]
    );
    assert_eq!(
        carry_out(Ledger::upstream_event, &mut l, &[&answer, &answer, &odd]),
        [
            Deed::Read(answer.clone()),
            Deed::HandedOut(1),
            Deed::Forwarded(answer.clone()),
            Deed::Read(answer.clone()),
            Deed::Forwarded(answer),
            Deed::Read(odd.clone()),
            Deed::Forwarded(odd),
        ]
    );
}
