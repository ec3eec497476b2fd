//! JSON documents as plain data, and the parser that reads them.

use vstd::prelude::*;
use vstd::string::*;

verus! {

/// A JSON value.
///
/// A number keeps the integer it denotes where it is one between `i64::MIN`
/// and `u64::MAX`; any other number is kept without its value. An object keeps
/// its members as pairs, in the order in which the parser's map walks them.
#[derive(Debug)]
pub enum Json {
    Null,
    Bool(bool),
    Number(Option<i128>),
    Text(String),
    Array(Vec<Json>),
    Object(Vec<(String, Json)>),
}

/// `serde_json::Value`, carried from the parser to the conversion.
#[verifier::external_type_specification]
#[verifier::external_body]
pub struct ExValue(serde_json::Value);

/// The value that `serde_json` reads from a text, if the text is JSON.
pub uninterp spec fn parsed_document(text: Seq<u8>) -> Option<serde_json::Value>;

/// What a `serde_json::Value` holds, as a `Json`.
pub uninterp spec fn document_tree(value: serde_json::Value) -> Json;

/// `serde_json::from_slice`, asked for a `serde_json::Value`: what it reads
/// depends on the text alone, and a text that is not JSON gives none.
#[verifier::external_body]
fn parse_value(text: &[u8]) -> (value: Option<serde_json::Value>)
    ensures
        value == parsed_document(text@),
{
    serde_json::from_slice::<serde_json::Value>(text).ok()
}

/// Moves what a `serde_json::Value` holds into a `Json`, variant by variant:
/// a number by `Number::as_i128`, the members of an object in the order in
/// which its `Map` walks them. The same value always gives the same `Json`.
#[verifier::external_body]
fn lift(value: serde_json::Value) -> (tree: Json)
    ensures
        tree == document_tree(value),
{
    match value {
        serde_json::Value::Null => Json::Null,
        serde_json::Value::Bool(b) => Json::Bool(b),
        serde_json::Value::Number(n) => Json::Number(n.as_i128()),
        serde_json::Value::String(s) => Json::Text(s),
        serde_json::Value::Array(a) => Json::Array(a.into_iter().map(lift).collect()),
        serde_json::Value::Object(m) => {
            Json::Object(m.into_iter().map(|(k, v)| (k, lift(v))).collect())
        },
    }
}

/// The document that a text denotes, if it is JSON.
pub open spec fn json_of(text: Seq<u8>) -> Option<Json> {
    match parsed_document(text) {
        Some(value) => Some(document_tree(value)),
        None => None,
    }
}

/// Parses a text as JSON.
pub fn parse(text: &[u8]) -> (tree: Option<Json>)
    ensures
        tree == json_of(text@),
{
    match parse_value(text) {
        Some(value) => Some(lift(value)),
        None => None,
    }
}

/// A value that may be missing, without the reference.
pub open spec fn owned(value: Option<&Json>) -> Option<Json> {
    match value {
        Some(json) => Some(*json),
        None => None,
    }
}

/// The element at `index` of a value that is an array and has one there.
pub open spec fn element_of(value: Option<Json>, index: int) -> Option<Json> {
    match value {
        Some(Json::Array(items)) => if 0 <= index < items@.len() {
            Some(items@[index])
        } else {
            None
        },
        _ => None,
    }
}

/// The value of the first of `members` whose key is `key`.
pub open spec fn lookup(members: Seq<(String, Json)>, key: Seq<char>) -> Option<Json>
    decreases members.len(),
{
    if members.len() == 0 {
        None
    } else if members[0].0@ == key {
        Some(members[0].1)
    } else {
        lookup(members.drop_first(), key)
    }
}

/// The member under `key` of a value that is an object and has one there.
pub open spec fn member_of(value: Option<Json>, key: Seq<char>) -> Option<Json> {
    match value {
        Some(Json::Object(members)) => lookup(members@, key),
        _ => None,
    }
}

/// The characters of a value that is a text.
pub open spec fn text_of(value: Option<Json>) -> Option<Seq<char>> {
    match value {
        Some(Json::Text(text)) => Some(text@),
        _ => None,
    }
}

/// The integer of a value that is a number, an integer, not negative and no
/// greater than `i64::MAX`.
pub open spec fn size_of(value: Option<Json>) -> Option<int> {
    match value {
        Some(Json::Number(Some(n))) => if 0 <= n <= i64::MAX {
            Some(n as int)
        } else {
            None
        },
        _ => None,
    }
}

/// The value is a number, an integer, not negative and no greater than
/// `u64::MAX`.
pub open spec fn is_unsigned(value: Option<Json>) -> bool {
    value matches Some(Json::Number(Some(n))) && 0 <= n <= u64::MAX
}

/// The value is an array.
pub open spec fn is_array(value: Option<Json>) -> bool {
    value matches Some(Json::Array(_))
}

/// The element at `index`, where the value is an array that has one there.
pub fn element<'a>(value: Option<&'a Json>, index: usize) -> (found: Option<&'a Json>)
    ensures
        owned(found) == element_of(owned(value), index as int),
{
    match value {
        Some(Json::Array(items)) => if index < items.len() {
            Some(&items[index])
        } else {
            None
        },
        _ => None,
    }
}

/// The member under `key`, where the value is an object that has one; the
/// first, should the object hold several.
pub fn member<'a>(value: Option<&'a Json>, key: &str) -> (found: Option<&'a Json>)
    ensures
        owned(found) == member_of(owned(value), key@),
{
    match value {
        Some(Json::Object(members)) => {
            let wanted = key.to_owned();
            let mut i: usize = 0;
            assert(members@.skip(0) == members@);
            while i < members.len()
                invariant
                    i <= members.len(),
                    wanted@ == key@,
                    member_of(owned(value), key@) == lookup(members@.skip(i as int), key@),
                decreases members.len() - i,
            {
                proof {
                    let rest = members@.skip(i as int);
                    assert(rest.drop_first() == members@.skip(i + 1));
                }
                if members[i].0 == wanted {
                    return Some(&members[i].1);
                }
                i += 1;
            }
            None
        },
        _ => None,
    }
}

/// The text, where the value is one.
pub fn text<'a>(value: Option<&'a Json>) -> (found: Option<&'a String>)
    ensures
        match found {
            Some(text) => text_of(owned(value)) == Some(text@),
            None => text_of(owned(value)) is None,
        },
{
    match value {
        Some(Json::Text(text)) => Some(text),
        _ => None,
    }
}

/// The integer, where the value is one from 0 to `i64::MAX`.
pub fn size(value: Option<&Json>) -> (found: Option<i64>)
    ensures
        match found {
            Some(n) => size_of(owned(value)) == Some(n as int),
            None => size_of(owned(value)) is None,
        },
{
    match value {
        Some(Json::Number(Some(n))) => if 0 <= *n && *n <= 0x7fff_ffff_ffff_ffff {
            Some(*n as i64)
        } else {
            None
        },
        _ => None,
    }
}

/// Tells whether the value is an integer from 0 to `u64::MAX`.
pub fn unsigned(value: Option<&Json>) -> (found: bool)
    ensures
        found == is_unsigned(owned(value)),
{
    match value {
        Some(Json::Number(Some(n))) => 0 <= *n && *n <= 0xffff_ffff_ffff_ffff,
        _ => false,
    }
}

/// Tells whether the value is an array.
pub fn array(value: Option<&Json>) -> (found: bool)
    ensures
        found == is_array(owned(value)),
{
    match value {
        Some(Json::Array(_)) => true,
        _ => false,
    }
}

} // verus!
