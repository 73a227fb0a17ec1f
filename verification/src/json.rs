//! JSON values.

use serde_json::Value;
use vstd::prelude::*;

verus! {

/// A JSON value of the `serde_json` crate.
#[verifier::external_type_specification]
#[verifier::external_body]
pub struct ExValue(Value);

/// The members of a JSON object of the `serde_json` crate.
#[verifier::external_type_specification]
#[verifier::external_body]
#[verifier::reject_recursive_types(K)]
#[verifier::reject_recursive_types(V)]
pub struct ExMap<K, V>(serde_json::Map<K, V>);

/// What a JSON value is.
#[verifier::ext_equal]
pub enum Json {
    Null,
    Bool(bool),
    /// A number, as it is written.
    Number(Seq<char>),
    Text(Seq<char>),
    Array(Seq<Json>),
    Object(Map<Seq<char>, Json>),
}

impl Json {
    /// The member `key` of an object.
    pub open spec fn member(self, key: Seq<char>) -> Option<Json> {
        match self {
            Json::Object(members) => if members.contains_key(key) {
                Some(members[key])
            } else {
                None
            },
            _ => None,
        }
    }
}

/// The members of an object that has none.
pub open spec fn no_members() -> Map<Seq<char>, Json> {
    Map::empty()
}

/// What a value of `serde_json` holds.
pub uninterp spec fn json_of(value: Value) -> Json;

/// The members that an object of `serde_json` holds.
pub uninterp spec fn members_of(members: serde_json::Map<String, Value>) -> Map<Seq<char>, Json>;

/// The value that `serde_json::from_str` reads from a text, if it reads one.
pub uninterp spec fn json_of_text(text: Seq<char>) -> Option<Json>;

/// The value that `serde_json::from_slice` reads from bytes, if it reads one.
pub uninterp spec fn json_of_bytes(bytes: Seq<u8>) -> Option<Json>;

/// Calls `serde_json::from_str`. What it reads is what `json_of_text` names.
#[verifier::external_body]
pub(crate) fn value_from_str(text: &str) -> (r: Option<Value>)
    ensures
        match r {
            Some(v) => json_of_text(text@) == Some(json_of(v)),
            None => json_of_text(text@) is None,
        },
{
    serde_json::from_str(text).ok()
}

/// Calls `serde_json::from_slice`. What it reads is what `json_of_bytes` names.
#[verifier::external_body]
pub(crate) fn value_from_slice(bytes: &[u8]) -> (r: Option<Value>)
    ensures
        match r {
            Some(v) => json_of_bytes(bytes@) == Some(json_of(v)),
            None => json_of_bytes(bytes@) is None,
        },
{
    serde_json::from_slice(bytes).ok()
}

/// Calls `Value::get` with a text: the member of that name, if the value is an
/// object and has one.
#[verifier::external_body]
pub(crate) fn value_get<'a>(value: &'a Value, key: &str) -> (r: Option<&'a Value>)
    ensures
        match r {
            Some(v) => json_of(*value).member(key@) == Some(json_of(*v)),
            None => json_of(*value).member(key@) is None,
        },
{
    value.get(key)
}

/// Calls `Value::as_object`: the members, if the value is an object.
#[verifier::external_body]
pub(crate) fn value_as_object(value: &Value) -> (r: Option<&serde_json::Map<String, Value>>)
    ensures
        match r {
            Some(m) => json_of(*value) == Json::Object(members_of(*m)),
            None => json_of(*value) !is Object,
        },
{
    value.as_object()
}

/// Calls `Value::as_str`: the text, if the value is one.
#[verifier::external_body]
pub(crate) fn value_as_str(value: &Value) -> (r: Option<&str>)
    ensures
        match r {
            Some(s) => json_of(*value) == Json::Text(s@),
            None => json_of(*value) !is Text,
        },
{
    value.as_str()
}

/// Calls `Value::clone`: a value that holds the same.
#[verifier::external_body]
pub(crate) fn value_clone(value: &Value) -> (r: Value)
    ensures
        json_of(r) == json_of(*value),
{
    value.clone()
}

/// Makes the variant `Value::Object` of a value.
#[verifier::external_body]
pub(crate) fn value_object(members: serde_json::Map<String, Value>) -> (r: Value)
    ensures
        json_of(r) == Json::Object(members_of(members)),
{
    Value::Object(members)
}

/// Calls `Map::new`: no members.
#[verifier::external_body]
pub(crate) fn members_new() -> (r: serde_json::Map<String, Value>)
    ensures
        members_of(r) == no_members(),
{
    serde_json::Map::new()
}

/// Calls `Map::insert`: one member more, or another value of an old one.
#[verifier::external_body]
pub(crate) fn members_insert(
    members: &mut serde_json::Map<String, Value>,
    key: String,
    value: Value,
)
    ensures
        members_of(*final(members)) == members_of(*old(members)).insert(key@, json_of(value)),
{
    members.insert(key, value);
}

/// Calls `Map::get`: the member of that name, if there is one.
#[verifier::external_body]
pub(crate) fn members_get<'a>(members: &'a serde_json::Map<String, Value>, key: &str) -> (r: Option<
    &'a Value,
>)
    ensures
        match r {
            Some(v) => {
                &&& members_of(*members).contains_key(key@)
                &&& members_of(*members)[key@] == json_of(*v)
            },
            None => !members_of(*members).contains_key(key@),
        },
{
    members.get(key)
}

/// Calls `Map::is_empty`: whether there are no members.
#[verifier::external_body]
pub(crate) fn members_is_empty(members: &serde_json::Map<String, Value>) -> (r: bool)
    ensures
        r == (members_of(*members) == no_members()),
{
    members.is_empty()
}

/// Calls `Map::clone`: the same members.
#[verifier::external_body]
pub(crate) fn members_clone(members: &serde_json::Map<String, Value>) -> (r: serde_json::Map<
    String,
    Value,
>)
    ensures
        members_of(r) == members_of(*members),
{
    members.clone()
}

} // verus!
