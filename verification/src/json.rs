//! The boundary to `serde_json`: the types a snapshot is made of, what they
//! hold, and the few calls the library makes on them.

use serde_json::{Number, Value};
use vstd::prelude::*;

verus! {

/// `serde_json::Map`, the map of a JSON object, without its inside.
#[verifier::external_type_specification]
#[verifier::external_body]
#[verifier::reject_recursive_types(K)]
#[verifier::reject_recursive_types(V)]
pub struct ExMap<K, V>(serde_json::Map<K, V>);

/// `serde_json::Value`, any JSON value, without its inside.
#[verifier::external_type_specification]
#[verifier::external_body]
pub struct ExValue(serde_json::Value);

/// `serde_json::Number`, a JSON number, without its inside.
#[verifier::external_type_specification]
#[verifier::external_body]
pub struct ExNumber(serde_json::Number);

/// `serde_json::Error`, the parser's report of a failure, without its inside.
#[verifier::external_type_specification]
#[verifier::external_body]
pub struct ExError(serde_json::Error);

/// What a JSON value holds, as far as this library looks into it: a number,
/// an object with its members in iteration order, or anything else. Being
/// finite, a value has such a shape, and recursion over it ends.
pub enum Node {
    Number(Number),
    Object(Seq<(Seq<char>, Node)>),
    Other,
}

/// The members of an object in iteration order, each with its key.
pub type Members = Seq<(Seq<char>, Node)>;

/// What `map` holds: its members, in the order in which it hands them out.
pub uninterp spec fn members(map: serde_json::Map<String, Value>) -> Members;

/// What `value` holds.
pub uninterp spec fn node(value: Value) -> Node;

/// What decoding `number` as an unsigned 64-bit integer gives: the integer,
/// or nothing where the number is none or does not fit.
pub uninterp spec fn decoded_u64(number: Number) -> Option<u64>;

/// What parsing `text` as a JSON object gives: the members of the object,
/// or nothing where `text` is no JSON object.
pub uninterp spec fn parsed(text: Seq<char>) -> Option<Members>;

/// The first member of `members` stored under `key`, if there is one.
pub open spec fn member(members: Members, key: Seq<char>) -> Option<Node>
    decreases members.len(),
{
    if members.len() == 0 {
        None
    } else if members[0].0 == key {
        Some(members[0].1)
    } else {
        member(members.drop_first(), key)
    }
}

/// `Number::clone`: the copy is the number itself.
pub assume_specification[ <serde_json::Number as Clone>::clone ](n: &serde_json::Number) -> (copy:
    serde_json::Number)
    ensures
        copy == *n,
;

/// `Map::get`: the value stored under `key`, or nothing where the map has no
/// such key. A map holds a key once, so the first member under a key is the
/// only one.
#[verifier::external_body]
pub(crate) fn map_get<'a>(map: &'a serde_json::Map<String, Value>, key: &str) -> (found: Option<
    &'a Value,
>)
    ensures
        match member(members(*map), key@) {
            Some(n) => found.is_some() && node(*found.unwrap()) == n,
            None => found.is_none(),
        },
{
    map.get(key)
}

/// `Map::iter`: every member of the map once, in the map's own order, each
/// as its key and its value.
#[verifier::external_body]
pub(crate) fn map_iter<'a>(map: &'a serde_json::Map<String, Value>) -> (all: Vec<
    (&'a String, &'a Value),
>)
    ensures
        all@.len() == members(*map).len(),
        forall|i: int|
            0 <= i < all@.len() ==> (#[trigger] all@[i]).0@ == members(*map)[i].0 && node(
                *all@[i].1,
            ) == members(*map)[i].1,
{
    map.iter().collect()
}

/// `Value::as_object`: the map of an object, nothing for any other value.
#[verifier::external_body]
pub(crate) fn as_object<'a>(value: &'a Value) -> (inner: Option<
    &'a serde_json::Map<String, Value>,
>)
    ensures
        match node(*value) {
            Node::Object(m) => inner.is_some() && members(*inner.unwrap()) == m,
            _ => inner.is_none(),
        },
{
    value.as_object()
}

/// `Value::as_number`: the number of a numeric value, nothing for any other
/// value.
#[verifier::external_body]
pub(crate) fn as_number<'a>(value: &'a Value) -> (number: Option<&'a Number>)
    ensures
        match node(*value) {
            Node::Number(n) => number == Some(&n),
            _ => number.is_none(),
        },
{
    value.as_number()
}

/// `serde_json::from_value` at `u64`, on the numeric value that holds
/// `number`: the integer, or nothing where decoding fails. What comes back
/// depends on the number alone.
#[verifier::external_body]
pub(crate) fn number_to_u64(number: &Number) -> (raw: Option<u64>)
    ensures
        raw == decoded_u64(*number),
{
    serde_json::from_value::<u64>(Value::Number(number.clone())).ok()
}

/// `serde_json::from_str` at a map: the object that `text` spells, or the
/// error where it spells none. What comes back depends on the text alone.
#[verifier::external_body]
pub(crate) fn parse_object(text: &str) -> (object: Result<
    serde_json::Map<String, Value>,
    serde_json::Error,
>)
    ensures
        match object {
            Ok(map) => parsed(text@) == Some(members(map)),
            Err(_) => parsed(text@).is_none(),
        },
{
    serde_json::from_str::<serde_json::Map<String, Value>>(text)
}

} // verus!
