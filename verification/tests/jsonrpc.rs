use deos_mcpd::jsonrpc::{inspect, is_response, is_tools_call, tool_arguments, tool_name};
use serde_json::Value;

fn json(text: &str) -> Value {
    serde_json::from_str(text).unwrap()
}

#[test]
fn inspects_a_request() {
    let msg = json("{\"jsonrpc\":\"2.0\",\"id\":7,\"method\":\"tools/call\",\"params\":{\"a\":1}}");
    let i = inspect(&msg);
    assert_eq!(i.id, Some(json("7")));
    assert_eq!(i.method, Some("tools/call"));
    assert_eq!(i.params, Some(&json("{\"a\":1}")));
    assert_eq!(i.result, None);
    assert_eq!(i.error, None);
    assert!(is_tools_call(&i));
    assert!(!is_response(&i));
}

#[test]
fn inspects_a_response() {
    let msg = json("{\"id\":\"x\",\"result\":null,\"error\":{\"code\":1}}");
    let i = inspect(&msg);
    assert_eq!(i.id, Some(json("\"x\"")));
    assert_eq!(i.method, None);
    assert_eq!(i.result, Some(&Value::Null));
    assert_eq!(i.error, Some(&json("{\"code\":1}")));
    assert!(is_response(&i));
    assert!(!is_tools_call(&i));
}

#[test]
fn inspects_what_is_no_object() {
    for text in ["[1,2]", "7", "\"id\"", "null", "true"] {
        let msg = json(text);
        let i = inspect(&msg);
        assert_eq!(i.id, None);
        assert_eq!(i.method, None);
        assert_eq!(i.params, None);
        assert!(!is_tools_call(&i));
        assert!(!is_response(&i));
    }
}

#[test]
fn a_method_that_is_no_string_does_not_count() {
    let msg = json("{\"id\":1,\"method\":5,\"params\":{},\"result\":1}");
    let i = inspect(&msg);
    assert_eq!(i.method, None);
    assert!(is_response(&i));
    assert!(!is_tools_call(&i));
}

#[test]
fn a_null_id_is_an_id() {
    let msg = json("{\"id\":null,\"result\":1}");
    assert!(is_response(&inspect(&msg)));
}

#[test]
fn other_methods_are_not_governed() {
    for method in ["tools/list", "tools/call2", "tools/cal", "Tools/call", ""] {
        let msg = json(&format!("{{\"id\":1,\"method\":\"{}\",\"params\":{{}}}}", method));
        assert!(!is_tools_call(&inspect(&msg)));
    }
}

#[test]
fn a_call_without_params_is_not_governed() {
    let msg = json("{\"id\":1,\"method\":\"tools/call\"}");
    assert!(!is_tools_call(&inspect(&msg)));
}

#[test]
fn a_response_needs_a_result_or_an_error() {
    assert!(!is_response(&inspect(&json("{\"id\":1}"))));
    assert!(is_response(&inspect(&json("{\"id\":1,\"result\":{}}"))));
    assert!(is_response(&inspect(&json("{\"id\":1,\"error\":{}}"))));
    assert!(!is_response(&inspect(&json("{\"result\":{}}"))));
    assert!(!is_response(&inspect(&json("{\"id\":1,\"method\":\"m\",\"result\":{}}"))));
}

#[test]
fn reads_tool_and_arguments() {
    let params = json("{\"name\":\"read_file\",\"arguments\":{\"path\":\"/tmp\"}}");
    assert_eq!(tool_name(&params), Some("read_file"));
    assert_eq!(tool_arguments(&params), Some(&json("{\"path\":\"/tmp\"}")));
    assert_eq!(tool_name(&json("{\"name\":1}")), None);
    assert_eq!(tool_name(&json("{}")), None);
    assert_eq!(tool_arguments(&json("{}")), None);
    assert_eq!(tool_arguments(&json("[]")), None);
    assert_eq!(tool_arguments(&json("{\"arguments\":null}")), Some(&Value::Null));
}
