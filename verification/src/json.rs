//! JSON documents, parsed and held by `serde_json`.

use vstd::prelude::*;

verus! {

/// A JSON document as contracts see it. Of a number they see its value
/// where it is a whole number from 0 to `u64::MAX`, and nothing else.
pub enum Json {
    Null,
    Bool(bool),
    Number(Option<u64>),
    Text(Seq<char>),
    List(Seq<Json>),
    Object(Map<Seq<char>, Json>),
}

/// The document that a parsed value holds.
pub uninterp spec fn json_view(value: serde_json::Value) -> Json;

/// The document that `serde_json` reads from a text, where it reads one.
pub uninterp spec fn json_of(text: Seq<u8>) -> Option<Json>;

/// The member of an object under a key.
pub open spec fn member(json: Json, key: Seq<char>) -> Option<Json> {
    match json {
        Json::Object(fields) => if fields.contains_key(key) {
            Some(fields[key])
        } else {
            None
        },
        _ => None,
    }
}

/// The characters of a string.
pub open spec fn as_text(json: Json) -> Option<Seq<char>> {
    match json {
        Json::Text(text) => Some(text),
        _ => None,
    }
}

/// The value of a whole number from 0 to `u64::MAX`.
pub open spec fn as_number(json: Json) -> Option<u64> {
    match json {
        Json::Number(Some(n)) => Some(n),
        _ => None,
    }
}

/// The items of an array.
pub open spec fn as_list(json: Json) -> Option<Seq<Json>> {
    match json {
        Json::List(items) => Some(items),
        _ => None,
    }
}

/// `serde_json::from_slice` at the type `Value`: it succeeds on the texts
/// from which `serde_json` reads a document, and the value then holds that
/// document.
#[verifier::external_body]
pub(crate) fn parse_json(text: &[u8]) -> (parsed: Result<serde_json::Value, serde_json::Error>)
    ensures
        match json_of(text@) {
            Some(json) => parsed is Ok && json_view(parsed->Ok_0) == json,
            None => parsed is Err,
        },
{
    serde_json::from_slice::<serde_json::Value>(text)
}

/// `Value::get` with a string: the member under that key where the value is
/// an object that has one, else nothing.
#[verifier::external_body]
pub(crate) fn json_get<'v>(value: &'v serde_json::Value, key: &str) -> (found: Option<&'v serde_json::Value>)
    ensures
        match member(json_view(*value), key@) {
            Some(json) => found is Some && json_view(*found->Some_0) == json,
            None => found is None,
        },
{
    value.get(key)
}

/// `Value::as_str`: the string where the value is one, else nothing.
#[verifier::external_body]
pub(crate) fn json_str<'v>(value: &'v serde_json::Value) -> (found: Option<&'v str>)
    ensures
        match as_text(json_view(*value)) {
            Some(text) => found is Some && found->Some_0@ == text,
            None => found is None,
        },
{
    value.as_str()
}

/// `Value::as_u64`: the number where the value is a whole number from 0 to
/// `u64::MAX`, else nothing.
#[verifier::external_body]
pub(crate) fn json_u64(value: &serde_json::Value) -> (found: Option<u64>)
    ensures
        found == as_number(json_view(*value)),
{
    value.as_u64()
}

/// `Value::as_array`: the items where the value is an array, else nothing.
#[verifier::external_body]
pub(crate) fn json_array<'v>(value: &'v serde_json::Value) -> (found: Option<&'v Vec<serde_json::Value>>)
    ensures
        match as_list(json_view(*value)) {
            Some(items) => found is Some && found->Some_0@.len() == items.len() && forall|i: int|
                0 <= i < items.len() ==> json_view(#[trigger] found->Some_0@[i]) == items[i],
            None => found is None,
        },
{
    value.as_array()
}

/// The truth value of a boolean.
pub open spec fn as_flag(json: Json) -> Option<bool> {
    match json {
        Json::Bool(flag) => Some(flag),
        _ => None,
    }
}

/// `Value::as_bool`: the truth value where the value is a boolean, else
/// nothing.
#[verifier::external_body]
pub(crate) fn json_bool(value: &serde_json::Value) -> (found: Option<bool>)
    ensures
        found == as_flag(json_view(*value)),
{
    value.as_bool()
}

/// `Value::is_null`: whether the value is `null`.
#[verifier::external_body]
pub(crate) fn json_null(value: &serde_json::Value) -> (null: bool)
    ensures
        null == (json_view(*value) is Null),
{
    value.is_null()
}

/// The string that an object holds under a key.
pub open spec fn text_at(json: Json, key: Seq<char>) -> Option<Seq<char>> {
    match member(json, key) {
        Some(inner) => as_text(inner),
        None => None,
    }
}

/// The string that an object holds under a key.
pub(crate) fn read_text(value: &serde_json::Value, key: &str) -> (found: Option<String>)
    ensures
        match text_at(json_view(*value), key@) {
            Some(text) => found is Some && found->Some_0@ == text,
            None => found is None,
        },
{
    match json_get(value, key) {
        Some(inner) => match json_str(inner) {
            Some(text) => Some(text.to_owned()),
            None => None,
        },
        None => None,
    }
}

/// The members that a run of keys and documents makes.
pub open spec fn members(fields: Seq<(Seq<char>, Json)>) -> Map<Seq<char>, Json>
    decreases fields.len(),
{
    if fields.len() == 0 {
        Map::empty()
    } else {
        members(fields.drop_last()).insert(fields.last().0, fields.last().1)
    }
}

/// The keys and documents that a run of keys and values holds.
pub open spec fn field_views(fields: Seq<(String, serde_json::Value)>) -> Seq<(Seq<char>, Json)> {
    Seq::new(fields.len(), |i: int| (fields[i].0@, json_view(fields[i].1)))
}

/// The documents that a run of values holds.
pub open spec fn item_views(items: Seq<serde_json::Value>) -> Seq<Json> {
    Seq::new(items.len(), |i: int| json_view(items[i]))
}

/// `Value::from` of a string slice: the value is that string.
#[verifier::external_body]
pub(crate) fn json_text(text: &str) -> (value: serde_json::Value)
    ensures
        json_view(value) == Json::Text(text@),
{
    serde_json::Value::from(text)
}

/// `Value::from` of a `u64`: the value is that number.
#[verifier::external_body]
pub(crate) fn json_number(n: u64) -> (value: serde_json::Value)
    ensures
        json_view(value) == Json::Number(Some(n)),
{
    serde_json::Value::from(n)
}

/// `Value::from` of a vector of values: the value is the array of them.
#[verifier::external_body]
pub(crate) fn json_list(items: Vec<serde_json::Value>) -> (value: serde_json::Value)
    ensures
        json_view(value) == Json::List(item_views(items@)),
{
    serde_json::Value::from(items)
}

/// `Map::from_iter`, as a `Value::Object`: the value is the object that
/// has each of the keys, with its value, as a member. Asked of distinct keys
/// only.
#[verifier::external_body]
pub(crate) fn json_object(fields: Vec<(String, serde_json::Value)>) -> (value: serde_json::Value)
    requires
        forall|i: int, j: int|
            0 <= i < j < fields@.len() ==> (#[trigger] fields@[i]).0@ != (#[trigger] fields@[j]).0@,
    ensures
        json_view(value) == Json::Object(members(field_views(fields@))),
{
    serde_json::Value::Object(serde_json::Map::from_iter(fields))
}

} // verus!
