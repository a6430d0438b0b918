//! What the proxy reads from a JSON-RPC message.

use crate::json::{value_clone, value_member, value_text, Json};
use crate::text::same_text;
use serde_json::Value;
use vstd::prelude::*;

verus! {

/// The parts of a message that the proxy looks at.
pub struct Inspected<'a> {
    pub id: Option<Value>,
    pub method: Option<&'a str>,
    pub params: Option<&'a Value>,
    pub result: Option<&'a Value>,
    pub error: Option<&'a Value>,
}

/// What the parts of a message say.
pub struct Parts {
    pub id: Option<Json>,
    pub method: Option<Seq<char>>,
    pub params: Option<Json>,
    pub result: Option<Json>,
    pub error: Option<Json>,
}

/// The parts of the message `msg`. A method that is no string does not count.
pub open spec fn parts_of(msg: Json) -> Parts {
    Parts {
        id: msg.member("id"@),
        method: match msg.member("method"@) {
            Some(m) => m.text(),
            None => None,
        },
        params: msg.member("params"@),
        result: msg.member("result"@),
        error: msg.member("error"@),
    }
}

/// The document behind an optional reference to a value.
pub open spec fn document(v: Option<&Value>) -> Option<Json> {
    match v {
        Some(v) => Some(crate::json::json_of(*v)),
        None => None,
    }
}

impl<'a> View for Inspected<'a> {
    type V = Parts;

    open spec fn view(&self) -> Parts {
        Parts {
            id: match self.id {
                Some(v) => Some(crate::json::json_of(v)),
                None => None,
            },
            method: match self.method {
                Some(m) => Some(m@),
                None => None,
            },
            params: document(self.params),
            result: document(self.result),
            error: document(self.error),
        }
    }
}

impl Parts {
    /// A `tools/call` with parameters: the governed action.
    pub open spec fn is_tools_call(self) -> bool {
        self.method == Some("tools/call"@) && self.params is Some
    }

    /// A response: an id, a result or an error, and no method.
    pub open spec fn is_response(self) -> bool {
        self.id is Some && self.method is None && (self.result is Some || self.error is Some)
    }
}

/// The tool that a call's parameters name.
pub open spec fn tool_name_of(params: Json) -> Option<Seq<char>> {
    match params.member("name"@) {
        Some(name) => name.text(),
        None => None,
    }
}

/// The text of the member `key`, where there is one and it is a string.
fn member_text<'a>(v: &'a Value, key: &str) -> (r: Option<&'a str>)
    ensures
        match r {
            Some(s) => crate::json::json_of(*v).member(key@) == Some(Json::Text(s@)),
            None => match crate::json::json_of(*v).member(key@) {
                Some(m) => m.text() is None,
                None => true,
            },
        },
{
    match value_member(v, key) {
        Some(m) => value_text(m),
        None => None,
    }
}

/// Reads the parts of a message.
pub fn inspect(msg: &Value) -> (r: Inspected<'_>)
    ensures
        r@ == parts_of(crate::json::json_of(*msg)),
{
    let id = match value_member(msg, "id") {
        Some(v) => Some(value_clone(v)),
        None => None,
    };
    let r = Inspected {
        id,
        method: member_text(msg, "method"),
        params: value_member(msg, "params"),
        result: value_member(msg, "result"),
        error: value_member(msg, "error"),
    };
    assert(r@ =~= parts_of(crate::json::json_of(*msg)));
    r
}

/// True if the message is a `tools/call` request, the governed action.
pub fn is_tools_call(inspected: &Inspected) -> (r: bool)
    ensures
        r == inspected@.is_tools_call(),
{
    match inspected.method {
        Some(m) => same_text(m, "tools/call") && inspected.params.is_some(),
        None => false,
    }
}

/// True if the message is a response: it has an id, a result or an error, and
/// no method.
pub fn is_response(inspected: &Inspected) -> (r: bool)
    ensures
        r == inspected@.is_response(),
{
    inspected.id.is_some() && inspected.method.is_none() && (inspected.result.is_some()
        || inspected.error.is_some())
}

/// The tool that a call's parameters name, if they name one.
pub fn tool_name<'a>(params: &'a Value) -> (r: Option<&'a str>)
    ensures
        match r {
            Some(s) => tool_name_of(crate::json::json_of(*params)) == Some(s@),
            None => tool_name_of(crate::json::json_of(*params)) is None,
        },
{
    member_text(params, "name")
}

/// The arguments that a call's parameters carry, if they carry any.
pub fn tool_arguments<'a>(params: &'a Value) -> (r: Option<&'a Value>)
    ensures
        document(r) == crate::json::json_of(*params).member("arguments"@),
{
    value_member(params, "arguments")
}

/// The parts of a message are its members of these names, whatever else it
/// holds. Only a method that is a string counts.
pub proof fn law_parts_are_members(m: Map<Seq<char>, Json>, method: Seq<char>)
    ensures
        ({
            let parts = parts_of(Json::Object(m));
            &&& m.contains_key("id"@) ==> parts.id == Some(m["id"@])
            &&& !m.contains_key("id"@) ==> parts.id is None
            &&& m.contains_key("params"@) ==> parts.params == Some(m["params"@])
            &&& !m.contains_key("params"@) ==> parts.params is None
            &&& m.contains_key("result"@) ==> parts.result == Some(m["result"@])
            &&& !m.contains_key("result"@) ==> parts.result is None
            &&& m.contains_key("error"@) ==> parts.error == Some(m["error"@])
            &&& !m.contains_key("error"@) ==> parts.error is None
            &&& parts.method == Some(method) <==> m.contains_key("method"@) && m["method"@]
                == Json::Text(method)
        }),
{
}

/// A document that is no object has no parts.
pub proof fn law_only_objects_have_parts(doc: Json)
    requires
        !(doc is Object),
    ensures
        parts_of(doc) == (Parts {
            id: None,
            method: None,
            params: None,
            result: None,
            error: None,
        }),
{
}

/// Parameters name a tool where they have a member `name` that is a string,
/// whatever else they hold, and otherwise none.
pub proof fn law_tools_are_named_by_name(
    p: Map<Seq<char>, Json>,
    name: Seq<char>,
    other: Json,
)
    ensures
        tool_name_of(Json::Object(p)) == Some(name) <==> p.contains_key("name"@) && p["name"@]
            == Json::Text(name),
        !(other is Object) ==> tool_name_of(other) is None,
{
}

/// A `tools/call` is told by its method and by having parameters; a response by
/// having an id and a result or an error, but no method. What the parts say
/// otherwise does not matter.
pub proof fn law_messages_are_told_by_these_parts(
    id: Option<Json>,
    method: Option<Seq<char>>,
    params: Option<Json>,
    result: Option<Json>,
    error: Option<Json>,
)
    ensures
        (Parts { id, method, params, result, error }).is_tools_call() <==> method == Some(
            "tools/call"@,
        ) && params is Some,
        (Parts { id, method, params, result, error }).is_response() <==> id is Some
            && method is None && !(result is None && error is None),
{
}

/// What is inspected of a message says what its fields hold.
pub proof fn law_inspected_says_what_it_holds(i: Inspected)
    ensures
        i.id matches Some(v) ==> i@.id == Some(crate::json::json_of(v)),
        i.id is None ==> i@.id is None,
        i.method matches Some(s) ==> i@.method == Some(s@),
        i.method is None ==> i@.method is None,
        i.params matches Some(v) ==> i@.params == Some(crate::json::json_of(*v)),
        i.params is None ==> i@.params is None,
        i.result matches Some(v) ==> i@.result == Some(crate::json::json_of(*v)),
        i.result is None ==> i@.result is None,
        i.error matches Some(v) ==> i@.error == Some(crate::json::json_of(*v)),
        i.error is None ==> i@.error is None,
{
}

} // verus!
