//! JSON documents: the model that contracts speak of, and the operations that
//! the library uses on `serde_json::Value`.

use serde_json::Value;
use vstd::prelude::*;

verus! {

/// A JSON number. `serde_json` keeps integers from `i64::MIN` to `u64::MAX`
/// exactly and any other number as a finite `f64`, which stands here by its
/// IEEE 754 bits.
pub enum Numeral {
    Int(int),
    Float(u64),
}

/// What a JSON document says.
pub enum Json {
    Null,
    Bool(bool),
    Number(Numeral),
    Text(Seq<char>),
    List(Seq<Json>),
    Object(Map<Seq<char>, Json>),
}

impl Numeral {
    /// The two floating-point zeros differ in their sign bit alone.
    pub open spec fn is_float_zero(self) -> bool {
        self == Numeral::Float(0) || self == Numeral::Float(0x8000_0000_0000_0000)
    }

    /// Equality as numbers of one kind: an integer never equals a float, and
    /// the two floating-point zeros are equal.
    pub open spec fn same(self, other: Numeral) -> bool {
        self == other || (self.is_float_zero() && other.is_float_zero())
    }
}

impl Json {
    /// The member `key`, if this is an object that has one.
    pub open spec fn member(self, key: Seq<char>) -> Option<Json> {
        match self {
            Json::Object(m) => if m.dom().contains(key) {
                Some(m[key])
            } else {
                None
            },
            _ => None,
        }
    }

    /// The text, if this is a string.
    pub open spec fn text(self) -> Option<Seq<char>> {
        match self {
            Json::Text(s) => Some(s),
            _ => None,
        }
    }

    /// The truth value, if this is a boolean.
    pub open spec fn truth(self) -> Option<bool> {
        match self {
            Json::Bool(b) => Some(b),
            _ => None,
        }
    }

    /// The two documents are equal, member by member and element by element.
    pub open spec fn same(self, other: Json) -> bool
        decreases self,
    {
        match (self, other) {
            (Json::Null, Json::Null) => true,
            (Json::Bool(a), Json::Bool(b)) => a == b,
            (Json::Number(a), Json::Number(b)) => a.same(b),
            (Json::Text(a), Json::Text(b)) => a == b,
            (Json::List(a), Json::List(b)) => {
                &&& a.len() == b.len()
                &&& forall|i: int| 0 <= i < a.len() ==> (#[trigger] a[i]).same(b[i])
            },
            (Json::Object(a), Json::Object(b)) => {
                &&& a.dom() == b.dom()
                &&& forall|k: Seq<char>|
                    a.dom().contains(k) ==> (#[trigger] a[k]).same(b[k])
            },
            _ => false,
        }
    }
}

/// Every document equals itself.
pub proof fn law_same_is_reflexive(j: Json)
    ensures
        j.same(j),
    decreases j,
{
    match j {
        Json::List(a) => {
            assert forall|i: int| 0 <= i < a.len() implies (#[trigger] a[i]).same(a[i]) by {
                law_same_is_reflexive(a[i]);
            }
        },
        Json::Object(m) => {
            assert forall|k: Seq<char>| m.dom().contains(k) implies (#[trigger] m[k]).same(
                m[k],
            ) by {
                law_same_is_reflexive(m[k]);
            }
        },
        _ => {},
    }
}

/// Which of two documents is compared with which does not matter.
pub proof fn law_same_is_symmetric(a: Json, b: Json)
    ensures
        a.same(b) == b.same(a),
    decreases a,
{
    match (a, b) {
        (Json::List(x), Json::List(y)) => {
            assert forall|i: int| 0 <= i < x.len() && i < y.len() implies (#[trigger] x[i]).same(
                y[i],
            ) == (#[trigger] y[i]).same(x[i]) by {
                law_same_is_symmetric(x[i], y[i]);
            }
        },
        (Json::Object(x), Json::Object(y)) => {
            assert forall|k: Seq<char>|
                x.dom().contains(k) && y.dom().contains(k) implies (#[trigger] x[k]).same(y[k])
                == (#[trigger] y[k]).same(x[k]) by {
                law_same_is_symmetric(x[k], y[k]);
            }
        },
        _ => {},
    }
}

/// `serde_json::Value`, a collection of JSON values by name and by place.
/// Opaque: what it holds is named by `json_of`.
#[verifier::external_type_specification]
#[verifier::external_body]
pub struct ExValue(serde_json::Value);

/// The document that a `Value` holds.
pub uninterp spec fn json_of(v: serde_json::Value) -> Json;

/// What reading `text` as one JSON document gives: the document, or nothing
/// where the text is not JSON.
pub uninterp spec fn json_parse(text: Seq<char>) -> Option<Json>;

/// The bytes of a document's compact serialisation, or nothing where it has
/// none.
pub uninterp spec fn json_bytes(j: Json) -> Option<Seq<u8>>;

/// A document as displayed text.
pub uninterp spec fn json_display(j: Json) -> Seq<char>;

/// A document as displayed text: null and the booleans as their JSON words, an
/// integer in decimal, and the rest as `serde_json` has it.
pub open spec fn displayed(j: Json) -> Seq<char> {
    match j {
        Json::Null => "null"@,
        Json::Bool(true) => "true"@,
        Json::Bool(false) => "false"@,
        Json::Number(Numeral::Int(n)) => crate::text::decimal(n),
        other => json_display(other),
    }
}

/// `bytes` are the UTF-8 form of a text that reads back as `j`.
pub open spec fn reads_back(bytes: Seq<u8>, j: Json) -> bool {
    exists|text: Seq<char>|
        #![trigger json_parse(text)]
        bytes == vstd::utf8::encode_utf8(text) && json_parse(text) == Some(j)
}

/// The member name under which `serde_json` hides text that is already JSON. An
/// object that begins with it is read as the document that its text spells.
pub open spec fn raw_value_name() -> Seq<char> {
    "$serde_json::private::RawValue"@
}

impl Json {
    /// An object whose members are strings and integers of `u64` alone, none of
    /// them under the name that `serde_json` keeps for itself.
    pub open spec fn is_flat(self) -> bool {
        match self {
            Json::Object(m) => {
                &&& !m.dom().contains(raw_value_name())
                &&& forall|k: Seq<char>|
                    #![trigger m[k]]
                    m.dom().contains(k) ==> match m[k] {
                        Json::Text(_) => true,
                        Json::Number(Numeral::Int(n)) => 0 <= n <= u64::MAX,
                        _ => false,
                    }
            },
            _ => false,
        }
    }
}

/// `serde_json::from_str::<Value>`: the document that the text spells, or
/// nothing where it spells none. Which texts are JSON, and what they say, is
/// left to `serde_json` and named by `json_parse`.
#[verifier::external_body]
pub(crate) fn parse_value(text: &str) -> (r: Option<Value>)
    ensures
        match r {
            Some(v) => json_parse(text@) == Some(json_of(v)),
            None => json_parse(text@) is None,
        },
{
    serde_json::from_str::<Value>(text).ok()
}

/// `serde_json::to_vec` on a `Value`: the compact serialisation, named by
/// `json_bytes`. The members of an object are written in the order of their
/// names, so that the bytes rest on the document alone. An object of strings and
/// integers is always serialised, and what is written reads back as the same
/// object. Nothing is said of an object with a member named `raw_value_name`: it
/// is written like any other, but not read back as an object where that name
/// comes first.
#[verifier::external_body]
pub(crate) fn value_bytes(v: &Value) -> (r: Option<Vec<u8>>)
    ensures
        match r {
            Some(b) => json_bytes(json_of(*v)) == Some(b@),
            None => json_bytes(json_of(*v)) is None,
        },
        json_of(*v).is_flat() ==> match r {
            Some(b) => reads_back(b@, json_of(*v)),
            None => false,
        },
{
    serde_json::to_vec(v).ok()
}

/// `Value`'s `Display`, through `to_string`. Null and the booleans are displayed
/// as their JSON words, an integer in decimal; how the rest is displayed is
/// named by `json_display`.
#[verifier::external_body]
pub(crate) fn value_display(v: &Value) -> (r: String)
    ensures
        match json_of(*v) {
            Json::Null => r@ == "null"@,
            Json::Bool(true) => r@ == "true"@,
            Json::Bool(false) => r@ == "false"@,
            Json::Number(Numeral::Int(n)) => r@ == crate::text::decimal(n),
            other => r@ == json_display(other),
        },
{
    v.to_string()
}

/// `Value::get` with a string index: the member of that name, and nothing
/// where there is none or the document is no object.
#[verifier::external_body]
pub(crate) fn value_member<'a>(v: &'a Value, key: &str) -> (r: Option<&'a Value>)
    ensures
        match r {
            Some(m) => json_of(*v).member(key@) == Some(json_of(*m)),
            None => json_of(*v).member(key@) is None,
        },
{
    v.get(key)
}

/// `Value::as_str`: the text of a string, and nothing of any other document.
#[verifier::external_body]
pub(crate) fn value_text<'a>(v: &'a Value) -> (r: Option<&'a str>)
    ensures
        match r {
            Some(s) => json_of(*v) == Json::Text(s@),
            None => json_of(*v).text() is None,
        },
{
    v.as_str()
}

/// `Value::as_array`: the elements of a list, and nothing of any other document.
#[verifier::external_body]
pub(crate) fn value_items<'a>(v: &'a Value) -> (r: Option<&'a Vec<Value>>)
    ensures
        match r {
            Some(items) => json_of(*v) == Json::List(items@.map_values(|i: Value| json_of(i))),
            None => !(json_of(*v) is List),
        },
{
    v.as_array()
}

/// `Value::is_f64`: whether this is a number that is kept as a float.
#[verifier::external_body]
pub(crate) fn value_is_float(v: &Value) -> (r: bool)
    ensures
        r == (json_of(*v) matches Json::Number(Numeral::Float(_))),
{
    v.is_f64()
}

/// `Value::as_f64`, by the bits of what it gives: those of a number that is kept
/// as a float.
#[verifier::external_body]
pub(crate) fn value_float_bits(v: &Value) -> (r: Option<u64>)
    requires
        json_of(*v) matches Json::Number(Numeral::Float(_)),
    ensures
        r == Some(json_of(*v)->Number_0->Float_0),
{
    match v.as_f64() {
        Some(x) => Some(x.to_bits()),
        None => None,
    }
}

/// `Value::as_bool`: the truth value of a boolean, and nothing of any other
/// document.
#[verifier::external_body]
pub(crate) fn value_truth(v: &Value) -> (r: Option<bool>)
    ensures
        r == json_of(*v).truth(),
{
    v.as_bool()
}

/// `Value`'s `PartialEq`: the documents are the same, part by part.
#[verifier::external_body]
pub(crate) fn value_same(a: &Value, b: &Value) -> (r: bool)
    ensures
        r == json_of(*a).same(json_of(*b)),
{
    a == b
}

/// `Value::clone`: the copy holds the same document.
#[verifier::external_body]
pub(crate) fn value_clone(v: &Value) -> (r: Value)
    ensures
        json_of(r) == json_of(*v),
{
    v.clone()
}

/// `Value::default`, which is documented to be `Value::Null`.
#[verifier::external_body]
pub(crate) fn null_value() -> (r: Value)
    ensures
        json_of(r) == Json::Null,
{
    Value::default()
}

/// `Value::from` a string slice.
#[verifier::external_body]
pub(crate) fn text_value(s: &str) -> (r: Value)
    ensures
        json_of(r) == Json::Text(s@),
{
    Value::from(s)
}

/// `Value::from` a `u64`.
#[verifier::external_body]
pub(crate) fn integer_value(n: u64) -> (r: Value)
    ensures
        json_of(r) == Json::Number(Numeral::Int(n as int)),
{
    Value::from(n)
}

/// `Value::from` an empty `serde_json::Map`: the object without members.
#[verifier::external_body]
pub(crate) fn empty_object() -> (r: Value)
    ensures
        json_of(r) == Json::Object(Map::empty()),
{
    Value::from(serde_json::Map::new())
}

/// Assignment through `Value`'s `IndexMut` with a string index, which on an
/// object sets the member of that name, new or not, and leaves the others.
#[verifier::external_body]
pub(crate) fn set_member(object: &mut Value, key: &str, member: Value)
    requires
        json_of(*old(object)) is Object,
    ensures
        json_of(*final(object)) == Json::Object(
            json_of(*old(object))->Object_0.insert(key@, json_of(member)),
        ),
{
    object[key] = member;
}

/// The members of an object are those of its map; nothing else has members.
pub proof fn law_members_are_those_of_the_map(m: Map<Seq<char>, Json>, key: Seq<char>, other: Json)
    ensures
        m.contains_key(key) ==> Json::Object(m).member(key) == Some(m[key]),
        !m.contains_key(key) ==> Json::Object(m).member(key) is None,
        !(other is Object) ==> other.member(key) is None,
{
}

/// A string has its text and a boolean its truth value; nothing else has either.
pub proof fn law_texts_and_truths(s: Seq<char>, b: bool, other: Json)
    ensures
        Json::Text(s).text() == Some(s),
        Json::Bool(b).truth() == Some(b),
        !(other is Text) ==> other.text() is None,
        !(other is Bool) ==> other.truth() is None,
{
}

/// Documents are equal if and only if they are of one kind and equal in each
/// part: strings by their text, integers by their value, floats by their bits but
/// for the two zeros, lists by their elements, objects by their members.
pub proof fn law_documents_are_compared_part_by_part(
    s: Seq<char>,
    t: Seq<char>,
    m: int,
    n: int,
    x: u64,
    y: u64,
    p: bool,
    q: bool,
)
    ensures
        Json::Null.same(Json::Null),
        Json::Bool(p).same(Json::Bool(q)) <==> p == q,
        Json::Text(s).same(Json::Text(t)) <==> s == t,
        Json::Number(Numeral::Int(m)).same(Json::Number(Numeral::Int(n))) <==> m == n,
        Json::Number(Numeral::Float(x)).same(Json::Number(Numeral::Float(y))) <==> x == y || ((x
            == 0 || x == 0x8000_0000_0000_0000) && (y == 0 || y == 0x8000_0000_0000_0000)),
        !Json::Number(Numeral::Int(m)).same(Json::Number(Numeral::Float(x))),
        !Json::Number(Numeral::Float(x)).same(Json::Number(Numeral::Int(m))),
{
}

/// Lists are equal if and only if they are of one length and equal in each place,
/// objects if and only if they have the same names and equal members under each;
/// documents of different kinds are never equal.
pub proof fn law_lists_and_objects_are_compared_part_by_part(
    a: Seq<Json>,
    b: Seq<Json>,
    m: Map<Seq<char>, Json>,
    n: Map<Seq<char>, Json>,
    v: Json,
    w: Json,
)
    ensures
        Json::List(a).same(Json::List(b)) <==> a.len() == b.len() && forall|i: int|
            0 <= i < a.len() ==> (#[trigger] a[i]).same(b[i]),
        Json::Object(m).same(Json::Object(n)) <==> m.dom() == n.dom() && forall|k: Seq<char>|
            m.contains_key(k) ==> (#[trigger] m[k]).same(n[k]),
        v.same(w) ==> (v is Null <==> w is Null) && (v is Bool <==> w is Bool) && (v is Number
            <==> w is Number) && (v is Text <==> w is Text) && (v is List <==> w is List) && (
        v is Object <==> w is Object),
{
}

} // verus!
