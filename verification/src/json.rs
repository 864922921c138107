//! JSON values. The values themselves are `serde_json`'s; this module gives them a mathematical
//! reading, `Json`, and states over it what the functions of `serde_json` that the crate calls do.

use serde_json::Value;
use vstd::prelude::*;

verus! {

// ---- What a value holds ----

/// `serde_json::Value`, a JSON value.
#[verifier::external_type_specification]
#[verifier::external_body]
pub struct ExValue(serde_json::Value);

/// `serde_json::Number`, a JSON number.
#[verifier::external_type_specification]
#[verifier::external_body]
pub struct ExNumber(serde_json::Number);

/// `serde_json::Map`, the members of a JSON object.
#[verifier::external_type_specification]
#[verifier::external_body]
#[verifier::reject_recursive_types(K)]
#[verifier::reject_recursive_types(V)]
pub struct ExObject<K, V>(serde_json::Map<K, V>);

/// What a JSON value is: the members of an object have no order, and a number is an integer of 64
/// bits, unsigned or negative, or some other number.
pub enum Json {
    Null,
    Bool(bool),
    Unsigned(u64),
    Negative(i64),
    OtherNumber(serde_json::Number),
    Text(Seq<char>),
    List(Seq<Json>),
    Object(Map<Seq<char>, Json>),
}

/// What a `serde_json::Value` holds.
pub uninterp spec fn json_view(value: Value) -> Json;

/// What a `serde_json::Map` of values holds.
pub uninterp spec fn object_view(object: serde_json::Map<String, Value>) -> Map<Seq<char>, Json>;

/// What a sequence of values holds.
pub open spec fn list_view(values: Seq<Value>) -> Seq<Json> {
    Seq::new(values.len(), |i: int| json_view(values[i]))
}

/// What an optional value holds.
pub open spec fn optional_view(value: Option<Value>) -> Option<Json> {
    match value {
        Some(v) => Some(json_view(v)),
        None => None,
    }
}

/// No member at all.
pub open spec fn no_members() -> Map<Seq<char>, Json> {
    Map::empty()
}

// ---- Reading ----

/// A member of a value, `Null` where there is none.
pub open spec fn member(value: Json, key: Seq<char>) -> Json {
    match value {
        Json::Object(members) => {
            if members.contains_key(key) {
                members[key]
            } else {
                Json::Null
            }
        },
        _ => Json::Null,
    }
}

/// An item of a value, `Null` where there is none.
pub open spec fn item(value: Json, index: int) -> Json {
    match value {
        Json::List(items) => {
            if 0 <= index < items.len() {
                items[index]
            } else {
                Json::Null
            }
        },
        _ => Json::Null,
    }
}

/// The items of a value, none where it is no list.
pub open spec fn items(value: Json) -> Seq<Json> {
    match value {
        Json::List(items) => items,
        _ => Seq::empty(),
    }
}

/// The text that a value is, if it is one.
pub open spec fn text(value: Json) -> Option<Seq<char>> {
    match value {
        Json::Text(t) => Some(t),
        _ => None,
    }
}

/// The unsigned integer that a value is, if it is one.
pub open spec fn unsigned(value: Json) -> Option<u64> {
    match value {
        Json::Unsigned(n) => Some(n),
        _ => None,
    }
}

/// The low 32 bits of the unsigned integer that a value is, if it is one.
pub open spec fn unsigned_32(value: Json) -> Option<u32> {
    match value {
        Json::Unsigned(n) => Some(n as u32),
        _ => None,
    }
}

/// The members of the object that a value is, none where it is no object.
pub open spec fn members(value: Json) -> Map<Seq<char>, Json> {
    match value {
        Json::Object(members) => members,
        _ => Map::empty(),
    }
}

/// `Index<&str>` for `Value`: the member under `key`, or `Null` where the value is no object or has
/// no such member.
#[verifier::external_body]
pub(crate) fn at<'a>(value: &'a Value, key: &str) -> (r: &'a Value)
    ensures
        json_view(*r) == member(json_view(*value), key@),
{
    &value[key]
}

/// `Index<usize>` for `Value`: the item at `index`, or `Null` where the value is no list or has no
/// such item.
#[verifier::external_body]
pub(crate) fn nth(value: &Value, index: usize) -> (r: &Value)
    ensures
        json_view(*r) == item(json_view(*value), index as int),
{
    &value[index]
}

/// `Value::as_str`: the text, if the value is one.
pub assume_specification[ Value::as_str ](value: &Value) -> (r: Option<&str>)
    ensures
        match r {
            Some(t) => json_view(*value) == Json::Text(t@),
            None => text(json_view(*value)) is None,
        },
;

/// `Value::as_u64`: the number, if the value is an unsigned integer of 64 bits.
pub assume_specification[ Value::as_u64 ](value: &Value) -> (r: Option<u64>)
    ensures
        r == unsigned(json_view(*value)),
;

/// `Value::as_bool`: the truth value, if the value is one.
pub assume_specification[ Value::as_bool ](value: &Value) -> (r: Option<bool>)
    ensures
        r == match json_view(*value) {
            Json::Bool(b) => Some(b),
            _ => None,
        },
;

/// `Value::as_array`: the items, if the value is a list.
pub assume_specification[ Value::as_array ](value: &Value) -> (r: Option<&Vec<Value>>)
    ensures
        match r {
            Some(v) => json_view(*value) == Json::List(list_view(v@)),
            None => !(json_view(*value) is List),
        },
;

/// `Value::as_object`: the members, if the value is an object.
pub assume_specification[ Value::as_object ](value: &Value) -> (r: Option<
    &serde_json::Map<String, Value>,
>)
    ensures
        match r {
            Some(object) => json_view(*value) == Json::Object(object_view(*object)),
            None => !(json_view(*value) is Object),
        },
;

/// `Value::is_null`: whether the value is `Null`.
pub assume_specification[ Value::is_null ](value: &Value) -> (r: bool)
    ensures
        r == (json_view(*value) == Json::Null),
;

/// `Clone` for `Value`: the same value again.
pub assume_specification[ <Value as Clone>::clone ](value: &Value) -> (r: Value)
    ensures
        r == *value,
;

/// The text under `key`.
pub fn text_at(value: &Value, key: &str) -> (r: Option<String>)
    ensures
        r.deep_view() == text(member(json_view(*value), key@)),
{
    match at(value, key).as_str() {
        Some(t) => Some(t.to_owned()),
        None => None,
    }
}

/// Whether the text under `key` is `expected`.
pub fn text_at_is(value: &Value, key: &str, expected: &str) -> (r: bool)
    ensures
        r == (member(json_view(*value), key@) == Json::Text(expected@)),
{
    match at(value, key).as_str() {
        Some(t) => crate::text::same(t, expected),
        None => false,
    }
}

/// The low 32 bits of the unsigned integer under `key`.
pub fn unsigned_at(value: &Value, key: &str) -> (r: Option<u32>)
    ensures
        r == unsigned_32(member(json_view(*value), key@)),
{
    match at(value, key).as_u64() {
        Some(n) => Some(#[verifier::truncate] (n as u32)),
        None => None,
    }
}

/// The members of the object that a value is, none where it is no object.
pub fn members_of(value: &Value) -> (r: serde_json::Map<String, Value>)
    ensures
        object_view(r) == members(json_view(*value)),
{
    match value.as_object() {
        Some(object) => object.clone(),
        None => serde_json::Map::new(),
    }
}

// ---- Building ----

/// `Value::Null`.
#[verifier::external_body]
pub(crate) fn null() -> (r: Value)
    ensures
        json_view(r) == Json::Null,
{
    Value::Null
}

/// `Value::Bool`.
#[verifier::external_body]
pub(crate) fn from_bool(b: bool) -> (r: Value)
    ensures
        json_view(r) == Json::Bool(b),
{
    Value::Bool(b)
}

/// `From<u64>` for `Value`: the number itself.
#[verifier::external_body]
pub(crate) fn from_unsigned(n: u64) -> (r: Value)
    ensures
        json_view(r) == Json::Unsigned(n),
{
    Value::from(n)
}

/// `Value::String`.
#[verifier::external_body]
pub(crate) fn from_text(t: &str) -> (r: Value)
    ensures
        json_view(r) == Json::Text(t@),
{
    Value::String(t.to_owned())
}

/// `Value::Array`.
#[verifier::external_body]
pub(crate) fn from_list(values: Vec<Value>) -> (r: Value)
    ensures
        json_view(r) == Json::List(list_view(values@)),
{
    Value::Array(values)
}

/// `Value::Object`.
#[verifier::external_body]
pub(crate) fn from_object(object: serde_json::Map<String, Value>) -> (r: Value)
    ensures
        json_view(r) == Json::Object(object_view(object)),
{
    Value::Object(object)
}

/// Adds a value at the end of a list.
pub fn push_value(values: &mut Vec<Value>, value: Value)
    ensures
        list_view(final(values)@) == list_view(old(values)@).push(json_view(value)),
{
    values.push(value);
    assert(list_view(values@) =~= list_view(old(values)@).push(json_view(value)));
}

/// An optional text as JSON: `Null` where there is none.
pub open spec fn text_or_null(t: Option<Seq<char>>) -> Json {
    match t {
        Some(t) => Json::Text(t),
        None => Json::Null,
    }
}

/// An optional text as JSON: `Null` where there is none.
pub fn from_optional_text(t: &Option<String>) -> (r: Value)
    ensures
        json_view(r) == text_or_null(t.deep_view()),
{
    match t {
        Some(t) => from_text(t.as_str()),
        None => null(),
    }
}

// ---- Objects ----

/// `Map::new`: an object without members.
pub assume_specification[ serde_json::Map::<String, Value>::new ]() -> (r: serde_json::Map<
    String,
    Value,
>)
    ensures
        object_view(r) == no_members(),
;

/// `Map::insert`: sets one member and keeps the others.
pub assume_specification[ serde_json::Map::<String, Value>::insert ](
    object: &mut serde_json::Map<String, Value>,
    k: String,
    v: Value,
) -> (r: Option<Value>)
    ensures
        object_view(*final(object)) == object_view(*old(object)).insert(k@, json_view(v)),
        match r {
            Some(was) => object_view(*old(object)).contains_key(k@) && json_view(was)
                == object_view(*old(object))[k@],
            None => !object_view(*old(object)).contains_key(k@),
        },
;

/// `Map::append`: moves all members of `other` into `object`, over those of the same name.
pub assume_specification[ serde_json::Map::<String, Value>::append ](
    object: &mut serde_json::Map<String, Value>,
    other: &mut serde_json::Map<String, Value>,
)
    ensures
        object_view(*final(object)) == object_view(*old(object)).union_prefer_right(
            object_view(*old(other)),
        ),
        object_view(*final(other)) == no_members(),
;

/// `Map::is_empty`: whether there is no member.
pub assume_specification[ serde_json::Map::<String, Value>::is_empty ](
    object: &serde_json::Map<String, Value>,
) -> (r: bool)
    ensures
        r == (object_view(*object) == no_members()),
;

/// `Clone` for `Map`: the same members again.
pub assume_specification[ <serde_json::Map<String, Value> as Clone>::clone ](
    object: &serde_json::Map<String, Value>,
) -> (r: serde_json::Map<String, Value>)
    ensures
        r == *object,
;

/// `Map::get`: the member under `key`, if there is one.
#[verifier::external_body]
pub(crate) fn get<'a>(object: &'a serde_json::Map<String, Value>, key: &str) -> (r: Option<&'a Value>)
    ensures
        match r {
            Some(v) => object_view(*object).contains_key(key@) && json_view(*v) == object_view(
                *object,
            )[key@],
            None => !object_view(*object).contains_key(key@),
        },
{
    object.get(key)
}

/// `Map::remove`: takes one member out and keeps the others.
#[verifier::external_body]
pub(crate) fn take(object: &mut serde_json::Map<String, Value>, key: &str) -> (r: Option<Value>)
    ensures
        object_view(*final(object)) == object_view(*old(object)).remove(key@),
        match r {
            Some(was) => object_view(*old(object)).contains_key(key@) && json_view(was)
                == object_view(*old(object))[key@],
            None => !object_view(*old(object)).contains_key(key@),
        },
{
    object.remove(key)
}

/// `map` with one more member, if there is a value for it.
pub open spec fn with_member(
    map: Map<Seq<char>, Json>,
    key: Seq<char>,
    value: Option<Json>,
) -> Map<Seq<char>, Json> {
    match value {
        Some(v) => map.insert(key, v),
        None => map,
    }
}

/// Sets one member of an object.
pub fn put(object: &mut serde_json::Map<String, Value>, key: &str, value: Value)
    ensures
        object_view(*final(object)) == object_view(*old(object)).insert(key@, json_view(value)),
{
    object.insert(key.to_owned(), value);
}

/// `object` with all members of `other` set over its own.
pub fn overlay(
    mut object: serde_json::Map<String, Value>,
    other: &serde_json::Map<String, Value>,
) -> (r: serde_json::Map<String, Value>)
    ensures
        object_view(r) == object_view(object).union_prefer_right(object_view(*other)),
{
    let mut members = other.clone();
    object.append(&mut members);
    object
}

// ---- Text ----

/// What reading a text as JSON gives: a value, or the reason why the text is none.
pub uninterp spec fn json_of_text(t: Seq<char>) -> Result<Json, Seq<char>>;

/// Whether reading a text gives a value.
pub open spec fn reads_as(t: Seq<char>, value: Json) -> bool {
    json_of_text(t) is Ok && json_of_text(t)->Ok_0 == value
}

/// The text of a value without spaces between its parts.
pub uninterp spec fn compact_text(value: Json) -> Seq<char>;

/// The text of a value with a line for each member and item.
pub uninterp spec fn pretty_text(value: Json) -> Seq<char>;

/// How deep a value may be nested for its text to be read back.
pub open spec fn max_nesting() -> nat {
    127
}

/// Whether a value is nested at most `depth` deep and holds no number but integers of 64 bits.
pub open spec fn is_plain(value: Json, depth: nat) -> bool
    decreases depth,
{
    match value {
        Json::OtherNumber(_) => false,
        Json::List(items) => depth > 0 && forall|i: int|
            0 <= i < items.len() ==> #[trigger] is_plain(items[i], (depth - 1) as nat),
        Json::Object(members) => depth > 0 && forall|key: Seq<char>| #[trigger]
            members.contains_key(key) ==> is_plain(members[key], (depth - 1) as nat),
        _ => true,
    }
}

/// `serde_json::from_str` for `Value`: reads a text as one JSON value, or says why it is none.
#[verifier::external_body]
pub(crate) fn parse(t: &str) -> (r: Result<Value, String>)
    ensures
        match r {
            Ok(value) => reads_as(t@, json_view(value)),
            Err(reason) => json_of_text(t@) is Err && json_of_text(t@)->Err_0 == reason@,
        },
{
    match serde_json::from_str::<Value>(t) {
        Ok(value) => Ok(value),
        Err(e) => Err(e.to_string()),
    }
}

/// `Display` for `Value`: the value's compact text, which stands in braces where the value is an
/// object. Reading that text gives the value back where it is not nested too deep and holds no number
/// but integers of 64 bits: other numbers may come back rounded, and deeper values are not read at
/// all.
#[verifier::external_body]
pub(crate) fn compact(value: &Value) -> (r: String)
    ensures
        r@ == compact_text(json_view(*value)),
        json_view(*value) is Object ==> r@.len() >= 2 && r@[0] == '{' && r@.last() == '}',
        is_plain(json_view(*value), max_nesting()) ==> reads_as(r@, json_view(*value)),
{
    value.to_string()
}

/// `serde_json::to_string_pretty` for `Value`: the value's text over several lines.
#[verifier::external_body]
pub(crate) fn pretty(value: &Value) -> (r: String)
    ensures
        r@ == pretty_text(json_view(*value)),
{
    serde_json::to_string_pretty(value).unwrap_or_default()
}

} // verus!
