//! JSON values: `serde_json::Value` and its objects, over a mathematical model.

use vstd::prelude::*;

verus! {

/// `serde_json::Value`.
#[verifier::external_type_specification]
#[verifier::external_body]
pub struct ExValue(serde_json::Value);

/// `serde_json::Map`.
#[verifier::external_type_specification]
#[verifier::external_body]
#[verifier::reject_recursive_types(K)]
#[verifier::reject_recursive_types(V)]
pub struct ExMap<K, V>(serde_json::Map<K, V>);

/// `serde_json::Error`.
#[verifier::external_type_specification]
#[verifier::external_body]
pub struct ExJsonError(serde_json::Error);

/// A JSON number: an integer that is not negative, a negative integer, or any other number by
/// its text.
pub enum NumberView {
    Natural(u64),
    Negative(i64),
    Other(Seq<char>),
}

/// A JSON value.
pub enum JsonView {
    Null,
    Bool(bool),
    Number(NumberView),
    String(Seq<char>),
    Array(Seq<JsonView>),
    Object(Map<Seq<char>, JsonView>),
}

/// The members of the empty object.
pub open spec fn no_members() -> Map<Seq<char>, JsonView> {
    Map::empty()
}

/// A number that is read back from its text as it was: an integer, or zero with a minus sign.
pub open spec fn is_exact(number: NumberView) -> bool {
    number matches NumberView::Other(text) ==> text == "-0.0"@
}

/// The arrays and objects of the value are nested at most `depth` times.
pub open spec fn is_nested(value: JsonView, depth: nat) -> bool
    decreases depth,
{
    match value {
        JsonView::Array(items) => depth > 0 && forall|i: int|
            0 <= i < items.len() ==> is_nested(#[trigger] items[i], (depth - 1) as nat),
        JsonView::Object(members) => depth > 0 && forall|name: Seq<char>| #[trigger]
            members.contains_key(name) ==> is_nested(members[name], (depth - 1) as nat),
        _ => true,
    }
}

/// The numbers of the value are read back from their texts as they were, as far as they stand in
/// at most `depth` arrays and objects.
pub open spec fn has_exact_numbers(value: JsonView, depth: nat) -> bool
    decreases depth,
{
    match value {
        JsonView::Number(number) => is_exact(number),
        JsonView::Array(items) => depth > 0 ==> forall|i: int|
            0 <= i < items.len() ==> has_exact_numbers(#[trigger] items[i], (depth - 1) as nat),
        JsonView::Object(members) => depth > 0 ==> forall|name: Seq<char>| #[trigger]
            members.contains_key(name) ==> has_exact_numbers(members[name], (depth - 1) as nat),
        _ => true,
    }
}

/// A value that is read back from its text as it was.
pub open spec fn is_readable(value: JsonView, depth: nat) -> bool {
    is_nested(value, depth) && has_exact_numbers(value, depth)
}

/// How deep a value may be nested for its text to be read.
pub const READABLE_DEPTH: u64 = 127;

/// The JSON value that a `serde_json::Value` holds.
pub uninterp spec fn json(value: serde_json::Value) -> JsonView;

/// The members of a `serde_json::Map`.
pub uninterp spec fn members(object: serde_json::Map<String, serde_json::Value>) -> Map<
    Seq<char>,
    JsonView,
>;

/// What is read from a text: a JSON value, or the words of an error where the text is not JSON.
pub enum ReadView {
    Value(JsonView),
    Error(Seq<char>),
}

/// What `serde_json::from_str` reads from a text.
pub uninterp spec fn json_read(text: Seq<char>) -> ReadView;

/// The words of a `serde_json::Error`, as its `Display` gives them.
pub uninterp spec fn error_text(error: serde_json::Error) -> Seq<char>;

/// The JSON value that is read from a text, or nothing where the text is not JSON.
pub open spec fn json_parsed(text: Seq<char>) -> Option<JsonView> {
    match json_read(text) {
        ReadView::Value(value) => Some(value),
        ReadView::Error(_) => None,
    }
}

/// What `serde_json::to_string` writes for a JSON value.
pub uninterp spec fn json_text(value: JsonView) -> Seq<char>;

/// `serde_json::from_str` into a `serde_json::Value`, which is nested no deeper than the limit on
/// recursion allows, or the error with the words that the text gives.
#[verifier::external_body]
pub(crate) fn from_str(text: &str) -> (r: Result<serde_json::Value, serde_json::Error>)
    ensures
        match r {
            Ok(value) => json_read(text@) == ReadView::Value(json(value)) && is_nested(
                json(value),
                READABLE_DEPTH as nat,
            ),
            Err(error) => json_read(text@) == ReadView::Error(error_text(error)),
        },
{
    serde_json::from_str(text)
}

/// `serde_json::to_string` of a `serde_json::Value`, which succeeds: the compact text of the
/// value. It is not empty, and it is a single line, as a control character in a string is
/// written as an escape. `serde_json::from_str` reads the value back from the text, unless it is
/// nested too deep; of numbers that are no integers this is stated of the negative zero only.
#[verifier::external_body]
pub(crate) fn to_string(value: &serde_json::Value) -> (r: Result<String, serde_json::Error>)
    ensures
        match r {
            Ok(text) => text@ == json_text(json(*value)) && text@.len() > 0 && !text@.contains(
                '\n',
            ) && (is_readable(
                json(*value),
                READABLE_DEPTH as nat,
            ) ==> json_parsed(text@) == Some(json(*value))),
            Err(_) => false,
        },
{
    serde_json::to_string(value)
}

/// `serde_json::Value::clone`: a value that holds the same JSON value.
pub assume_specification[ <serde_json::Value as Clone>::clone ](value: &serde_json::Value) -> (r:
    serde_json::Value)
    ensures
        json(r) == json(*value),
;

/// `serde_json::Value::Object` taken apart: the object, or the value as it was where it is not
/// an object.
#[verifier::external_body]
pub(crate) fn into_object(value: serde_json::Value) -> (r: Result<
    serde_json::Map<String, serde_json::Value>,
    serde_json::Value,
>)
    ensures
        match r {
            Ok(object) => json(value) == JsonView::Object(members(object)),
            Err(other) => json(value) == json(other) && json(value) !is Object,
        },
{
    match value {
        serde_json::Value::Object(object) => Ok(object),
        other => Err(other),
    }
}

/// `serde_json::Value::Object`: the object as a value.
#[verifier::external_body]
pub(crate) fn from_object(object: serde_json::Map<String, serde_json::Value>) -> (r:
    serde_json::Value)
    ensures
        json(r) == JsonView::Object(members(object)),
{
    serde_json::Value::Object(object)
}

/// `serde_json::Value::String`: the text as a value.
#[verifier::external_body]
pub(crate) fn from_string(text: String) -> (r: serde_json::Value)
    ensures
        json(r) == JsonView::String(text@),
{
    serde_json::Value::String(text)
}

/// `serde_json::Value::from` a number: the number as a value.
#[verifier::external_body]
pub(crate) fn from_number(n: u32) -> (r: serde_json::Value)
    ensures
        json(r) == JsonView::Number(NumberView::Natural(n as u64)),
{
    serde_json::Value::from(n)
}

/// `serde_json::Value::from` a signed number: the number as a value.
#[verifier::external_body]
pub(crate) fn from_integer(n: i32) -> (r: serde_json::Value)
    ensures
        json(r) == JsonView::Number(
            if n >= 0 {
                NumberView::Natural(n as u64)
            } else {
                NumberView::Negative(n as i64)
            },
        ),
{
    serde_json::Value::from(n)
}

/// `serde_json::Value::Array`: the values as one value.
#[verifier::external_body]
pub(crate) fn from_array(items: Vec<serde_json::Value>) -> (r: serde_json::Value)
    ensures
        json(r) == JsonView::Array(items@.map_values(|item: serde_json::Value| json(item))),
{
    serde_json::Value::Array(items)
}

/// `serde_json::Value::as_str`: the text of a string, or nothing where the value is not one.
#[verifier::external_body]
pub(crate) fn as_str(value: &serde_json::Value) -> (r: Option<&str>)
    ensures
        match r {
            Some(text) => json(*value) == JsonView::String(text@),
            None => json(*value) !is String,
        },
{
    value.as_str()
}

/// `serde_json::Value::is_number`.
#[verifier::external_body]
pub(crate) fn is_number(value: &serde_json::Value) -> (r: bool)
    ensures
        r == (json(*value) is Number),
{
    value.is_number()
}

/// `serde_json::Value::as_u64`: the number, or nothing where the value is not an integer
/// between 0 and `u64::MAX`.
#[verifier::external_body]
pub(crate) fn as_u64(value: &serde_json::Value) -> (r: Option<u64>)
    ensures
        match r {
            Some(n) => json(*value) == JsonView::Number(NumberView::Natural(n)),
            None => json(*value) matches JsonView::Number(n) ==> n !is Natural,
        },
{
    value.as_u64()
}

/// `serde_json::Value::is_null`.
#[verifier::external_body]
pub(crate) fn is_null(value: &serde_json::Value) -> (r: bool)
    ensures
        r == (json(*value) is Null),
{
    value.is_null()
}

/// `serde_json::Value::as_object`: the object, or nothing where the value is not one.
#[verifier::external_body]
pub(crate) fn as_object(value: &serde_json::Value) -> (r: Option<
    &serde_json::Map<String, serde_json::Value>,
>)
    ensures
        match r {
            Some(object) => json(*value) == JsonView::Object(members(*object)),
            None => json(*value) !is Object,
        },
{
    value.as_object()
}

/// `serde_json::Map::new`: an object without members.
#[verifier::external_body]
pub(crate) fn new_object() -> (r: serde_json::Map<String, serde_json::Value>)
    ensures
        members(r) == no_members(),
{
    serde_json::Map::new()
}

/// `serde_json::Map::is_empty`.
#[verifier::external_body]
pub(crate) fn is_empty(object: &serde_json::Map<String, serde_json::Value>) -> (r: bool)
    ensures
        r == (members(*object) == no_members()),
{
    object.is_empty()
}

/// `serde_json::Map::get`: the member with the given name, or nothing where there is none.
#[verifier::external_body]
pub(crate) fn get<'a>(
    object: &'a serde_json::Map<String, serde_json::Value>,
    name: &str,
) -> (r: Option<&'a serde_json::Value>)
    ensures
        match r {
            Some(value) => members(*object).contains_pair(name@, json(*value)),
            None => !members(*object).contains_key(name@),
        },
{
    object.get(name)
}

/// `serde_json::Map::insert`: the member is added, or takes the place of the one with that
/// name.
#[verifier::external_body]
pub(crate) fn insert(
    object: &mut serde_json::Map<String, serde_json::Value>,
    name: String,
    value: serde_json::Value,
)
    ensures
        members(*final(object)) == members(*old(object)).insert(name@, json(value)),
{
    object.insert(name, value);
}

/// `serde_json::Map::remove`: the member with the given name is gone.
#[verifier::external_body]
pub(crate) fn remove(object: &mut serde_json::Map<String, serde_json::Value>, name: &str)
    ensures
        members(*final(object)) == members(*old(object)).remove(name@),
{
    object.remove(name);
}

} // verus!
