use deos_mcpd::receipts::{
    hash_bytes, hash_value, jsonl_line, ms_of, now_ms, pairing_key_of, permit_id, receipt_id,
    request_id_string, timestamp_of,
};
use serde_json::Value;
use std::time::{Duration, UNIX_EPOCH};

fn json(text: &str) -> Value {
    serde_json::from_str(text).unwrap()
}

fn blake3_hex(text: &str) -> String {
    blake3::hash(text.as_bytes()).to_hex().to_string()
}

#[test]
fn hash_of_nothing() {
    assert_eq!(
        hash_bytes(&[]),
        "af1349b9f5f9a1a6a0404dea36dcc9499bcb25c9adc112b7cc9a93cae41f3262"
    );
}

#[test]
fn hash_of_abc() {
    assert_eq!(
        hash_bytes(b"abc"),
        "6437b3ac38465133ffb63b75273a8db548c558465d79db03fd359c6cd5bd9d85"
    );
}

#[test]
fn hash_value_is_over_the_compact_serialisation() {
    let v = json("{ \"b\" : [1, 2.5, null], \"a\" : \"x\\ny\" }");
    assert_eq!(
        hash_value(&v),
        blake3_hex("{\"a\":\"x\\ny\",\"b\":[1,2.5,null]}")
    );
}

#[test]
fn hash_value_does_not_see_the_order_of_members() {
    assert_eq!(
        hash_value(&json("{\"a\":1,\"b\":2}")),
        hash_value(&json("{\"b\":2,\"a\":1}"))
    );
}

#[test]
fn hash_value_tells_the_zeros_apart() {
    assert_ne!(hash_value(&json("0.0")), hash_value(&json("-0.0")));
}

#[test]
fn ids_are_lowercase_hexadecimal() {
    let id = permit_id("s", "t", "a", "r", 0);
    assert_eq!(id.len(), 64);
    assert!(id.chars().all(|c| c.is_ascii_digit() || ('a'..='f').contains(&c)));
}

#[test]
fn permit_id_hashes_its_fields() {
    let canon = "{\"args_hash\":\"c5d2\",\"request_id\":\"7\",\"session_id\":\"d3a1\",\
                 \"timestamp_ms\":1713570102331,\"tool_name\":\"read_file\"}";
    assert_eq!(
        permit_id("d3a1", "read_file", "c5d2", "7", 1713570102331),
        blake3_hex(canon)
    );
}

#[test]
fn permit_id_depends_on_every_field() {
    let base = permit_id("s", "t", "a", "r", 1);
    assert_ne!(base, permit_id("S", "t", "a", "r", 1));
    assert_ne!(base, permit_id("s", "T", "a", "r", 1));
    assert_ne!(base, permit_id("s", "t", "A", "r", 1));
    assert_ne!(base, permit_id("s", "t", "a", "R", 1));
    assert_ne!(base, permit_id("s", "t", "a", "r", 2));
}

#[test]
fn permit_id_escapes_what_it_hashes() {
    let a = permit_id("s", "t\",\"x\":\"", "a", "r", 1);
    let canon = "{\"args_hash\":\"a\",\"request_id\":\"r\",\"session_id\":\"s\",\
                 \"timestamp_ms\":1,\"tool_name\":\"t\\\",\\\"x\\\":\\\"\"}";
    assert_eq!(a, blake3_hex(canon));
}

#[test]
fn receipt_id_hashes_its_fields() {
    let canon = "{\"permit_id\":\"9f8c\",\"result_hash\":\"b804\",\"status\":\"ok\",\
                 \"timestamp_ms\":18446744073709551615}";
    assert_eq!(receipt_id("9f8c", "b804", "ok", u64::MAX), blake3_hex(canon));
}

#[test]
fn receipt_id_depends_on_every_field() {
    let base = receipt_id("p", "h", "ok", 1);
    assert_ne!(base, receipt_id("P", "h", "ok", 1));
    assert_ne!(base, receipt_id("p", "H", "ok", 1));
    assert_ne!(base, receipt_id("p", "h", "error", 1));
    assert_ne!(base, receipt_id("p", "h", "ok", 2));
}

#[test]
fn request_id_of_a_string_is_the_string() {
    assert_eq!(request_id_string(&json("\"ab\\\"c\"")), "ab\"c");
}

#[test]
fn request_id_of_an_integer_is_decimal() {
    assert_eq!(request_id_string(&json("7")), "7");
    assert_eq!(request_id_string(&json("-120")), "-120");
    assert_eq!(request_id_string(&json("0")), "0");
    assert_eq!(
        request_id_string(&json("18446744073709551615")),
        "18446744073709551615"
    );
}

#[test]
fn request_id_of_other_documents_is_their_text() {
    assert_eq!(request_id_string(&json("null")), "null");
    assert_eq!(request_id_string(&json("true")), "true");
    assert_eq!(request_id_string(&json("false")), "false");
    assert_eq!(request_id_string(&json("1.5")), "1.5");
    assert_eq!(request_id_string(&json("[1, {\"a\": \"b\"}]")), "[1,{\"a\":\"b\"}]");
}

#[test]
fn different_integers_have_different_request_ids() {
    assert_ne!(request_id_string(&json("1")), request_id_string(&json("-1")));
    assert_ne!(request_id_string(&json("10")), request_id_string(&json("1")));
}

#[test]
fn clock_readings() {
    assert_eq!(timestamp_of(None), 0);
    assert_eq!(timestamp_of(Some(1713570102331)), 1713570102331);
    assert_eq!(timestamp_of(Some(u64::MAX as u128)), u64::MAX);
    assert_eq!(timestamp_of(Some(u64::MAX as u128 + 6)), 5);
}

#[test]
fn moments_are_recorded_in_whole_milliseconds() {
    assert_eq!(ms_of(UNIX_EPOCH), 0);
    assert_eq!(ms_of(UNIX_EPOCH + Duration::from_nanos(1_999_999)), 1);
    assert_eq!(ms_of(UNIX_EPOCH + Duration::from_millis(1713570102331)), 1713570102331);
    assert_eq!(ms_of(UNIX_EPOCH - Duration::from_secs(5)), 0);
}

#[test]
fn the_clock_is_past_its_epoch() {
    let a = now_ms();
    assert!(a > 1_600_000_000_000);
    assert!(a < 100_000_000_000_000);
}

#[test]
fn a_line_ends_in_a_newline() {
    assert_eq!(jsonl_line(b"{}".to_vec()), b"{}\n".to_vec());
    assert_eq!(jsonl_line(Vec::new()), b"\n".to_vec());
}

#[test]
fn permits_and_receipts_have_different_ids() {
    assert_ne!(permit_id("p", "h", "ok", "", 1), receipt_id("p", "h", "ok", 1));
    assert_ne!(permit_id("", "", "", "", 0), receipt_id("", "", "", 0));
}

#[test]
fn pairing_keys() {
    assert_eq!(pairing_key_of(&json("7")), "d7");
    assert_eq!(pairing_key_of(&json("\"7\"")), "t7");
    assert_eq!(pairing_key_of(&json("\"\"")), "t");
    assert_eq!(pairing_key_of(&json("null")), "dnull");
    assert_eq!(pairing_key_of(&json("\"null\"")), "tnull");
    assert_eq!(pairing_key_of(&json("[1, 2]")), "d[1,2]");
    assert_eq!(
        pairing_key_of(&json("1.5")),
        format!("f{}", 1.5f64.to_bits())
    );
    assert_eq!(pairing_key_of(&json("0.0")), "f0");
    assert_eq!(pairing_key_of(&json("-0.0")), "f9223372036854775808");
}

#[test]
fn different_ids_have_different_keys() {
    let ids = [
        "null", "true", "false", "0", "-1", "1", "10", "1.0", "0.0", "-0.0", "\"\"", "\"0\"",
        "\"null\"", "\"d0\"", "\"1.0\"",
    ];
    for (i, a) in ids.iter().enumerate() {
        for b in &ids[..i] {
            assert_ne!(pairing_key_of(&json(a)), pairing_key_of(&json(b)));
        }
    }
}

#[test]
fn a_reserved_member_name_is_hashed_like_any_other() {
    let name = "$serde_json::private::RawValue";
    let text = format!("{{\"a\":1,\"{}\":\"x\"}}", name);
    let v = json(&text);
    assert!(v.is_object());
    assert_eq!(
        hash_value(&v),
        blake3_hex(&format!("{{\"{}\":\"x\",\"a\":1}}", name))
    );
}
