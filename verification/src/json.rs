//! Reading JSON texts, one value at a time, by JSON pointer.
//!
//! A pointer names a value inside a JSON text: the empty pointer the whole,
//! `/a/0` the first item of the array under the key `a`.

use crate::text::{concat3, decimal, decimal_of, texts};
use vstd::prelude::*;

verus! {

/// What a JSON value is.
#[derive(Clone, Copy, PartialEq, Eq, Structural, Debug)]
pub enum JsonKind {
    Null,
    Bool,
    Number,
    Text,
    Array,
    Object,
}

/// What the value is that a pointer names in a text; none where the text is not
/// JSON or holds no such value.
pub uninterp spec fn json_kind_of(text: Seq<char>, pointer: Seq<char>) -> Option<JsonKind>;

/// The string that a pointer names in a text.
pub uninterp spec fn json_text_of(text: Seq<char>, pointer: Seq<char>) -> Option<Seq<char>>;

/// The integer that a pointer names in a text.
pub uninterp spec fn json_i64_of(text: Seq<char>, pointer: Seq<char>) -> Option<i64>;

/// The length of the array that a pointer names in a text.
pub uninterp spec fn json_len_of(text: Seq<char>, pointer: Seq<char>) -> Option<nat>;

/// The value that a pointer names in a text, written as JSON without spaces.
pub uninterp spec fn json_compact_of(text: Seq<char>, pointer: Seq<char>) -> Option<Seq<char>>;

/// The keys of the object that a pointer names in a text.
pub uninterp spec fn json_keys_of(text: Seq<char>, pointer: Seq<char>) -> Option<Seq<Seq<char>>>;

/// The value under a key of the object that a pointer names in a text: what it is, and,
/// for a string, a number or a truth value, its text.
pub uninterp spec fn json_member_of(text: Seq<char>, pointer: Seq<char>, key: Seq<char>) -> Option<
    (JsonKind, Seq<char>),
>;

/// The truth value that a pointer names in a text.
pub uninterp spec fn json_bool_of(text: Seq<char>, pointer: Seq<char>) -> Option<bool>;

/// Whether a text is a JSON object, whatever its members hold.
pub uninterp spec fn json_object_of(text: Seq<char>) -> bool;

/// The number of items of the JSON array that a text is, whatever they hold.
pub uninterp spec fn json_items_of(text: Seq<char>) -> Option<nat>;

/// A JSON text, written over several lines.
pub uninterp spec fn json_pretty_of(text: Seq<char>) -> Option<Seq<char>>;

/// A text written as a JSON string.
pub uninterp spec fn json_quoted_of(text: Seq<char>) -> Seq<char>;

/// `serde_json::from_str` and `serde_json::Value::pointer`: what the value is that a
/// pointer names. The result depends on the two texts alone.
#[verifier::external_body]
pub(crate) fn json_kind(text: &str, pointer: &str) -> (r: Option<JsonKind>)
    ensures
        r == json_kind_of(text@, pointer@),
{
    let value: serde_json::Value = serde_json::from_str(text).ok()?;
    Some(match value.pointer(pointer)? {
        serde_json::Value::Null => JsonKind::Null,
        serde_json::Value::Bool(_) => JsonKind::Bool,
        serde_json::Value::Number(_) => JsonKind::Number,
        serde_json::Value::String(_) => JsonKind::Text,
        serde_json::Value::Array(_) => JsonKind::Array,
        serde_json::Value::Object(_) => JsonKind::Object,
    })
}

/// `serde_json::from_str`, `Value::pointer` and `Value::as_str`: the string that a
/// pointer names. The result depends on the two texts alone.
#[verifier::external_body]
pub(crate) fn json_text(text: &str, pointer: &str) -> (r: Option<String>)
    ensures
        match r {
            Some(s) => json_text_of(text@, pointer@) == Some(s@),
            None => json_text_of(text@, pointer@) is None,
        },
{
    let value: serde_json::Value = serde_json::from_str(text).ok()?;
    value.pointer(pointer)?.as_str().map(str::to_owned)
}

/// `serde_json::from_str`, `Value::pointer` and `Value::as_i64`: the integer that a
/// pointer names. The result depends on the two texts alone.
#[verifier::external_body]
pub(crate) fn json_i64(text: &str, pointer: &str) -> (r: Option<i64>)
    ensures
        r == json_i64_of(text@, pointer@),
{
    let value: serde_json::Value = serde_json::from_str(text).ok()?;
    value.pointer(pointer)?.as_i64()
}

/// `serde_json::from_str`, `Value::pointer` and `Value::as_array`: the length of the
/// array that a pointer names. The result depends on the two texts alone.
#[verifier::external_body]
pub(crate) fn json_len(text: &str, pointer: &str) -> (r: Option<usize>)
    ensures
        match r {
            Some(n) => json_len_of(text@, pointer@) == Some(n as nat),
            None => json_len_of(text@, pointer@) is None,
        },
{
    let value: serde_json::Value = serde_json::from_str(text).ok()?;
    value.pointer(pointer)?.as_array().map(Vec::len)
}

/// `serde_json::from_str`, `Value::pointer` and `Value::to_string`: the value that a
/// pointer names, written without spaces. The result depends on the two texts alone.
#[verifier::external_body]
pub(crate) fn json_compact(text: &str, pointer: &str) -> (r: Option<String>)
    ensures
        match r {
            Some(s) => json_compact_of(text@, pointer@) == Some(s@),
            None => json_compact_of(text@, pointer@) is None,
        },
{
    let value: serde_json::Value = serde_json::from_str(text).ok()?;
    value.pointer(pointer).map(|v| v.to_string())
}

/// `serde_json::from_str`, `Value::pointer` and `Value::as_object`: the keys of the
/// object that a pointer names, in the order in which the map gives them. The result
/// depends on the two texts alone.
#[verifier::external_body]
pub(crate) fn json_keys(text: &str, pointer: &str) -> (r: Option<Vec<String>>)
    ensures
        match r {
            Some(keys) => json_keys_of(text@, pointer@) == Some(texts(keys@)),
            None => json_keys_of(text@, pointer@) is None,
        },
{
    let value: serde_json::Value = serde_json::from_str(text).ok()?;
    value.pointer(pointer)?.as_object().map(|map| map.keys().cloned().collect())
}

/// `serde_json::from_str`, `Value::pointer` and `Value::get`: the value under a key of
/// the object that a pointer names, with the text of a string, a number or a truth
/// value, and the empty text for others. The result depends on the three texts alone.
#[verifier::external_body]
pub(crate) fn json_member(text: &str, pointer: &str, key: &str) -> (r: Option<(JsonKind, String)>)
    ensures
        match r {
            Some(v) => json_member_of(text@, pointer@, key@) == Some((v.0, v.1@)),
            None => json_member_of(text@, pointer@, key@) is None,
        },
{
    let value: serde_json::Value = serde_json::from_str(text).ok()?;
    Some(match value.pointer(pointer)?.get(key)? {
        serde_json::Value::Null => (JsonKind::Null, String::new()),
        serde_json::Value::Bool(b) => (JsonKind::Bool, b.to_string()),
        serde_json::Value::Number(n) => (JsonKind::Number, n.to_string()),
        serde_json::Value::String(s) => (JsonKind::Text, s.clone()),
        serde_json::Value::Array(_) => (JsonKind::Array, String::new()),
        serde_json::Value::Object(_) => (JsonKind::Object, String::new()),
    })
}

/// `serde_json::from_str`, `Value::pointer` and `Value::as_bool`: the truth value that a
/// pointer names. The result depends on the two texts alone.
#[verifier::external_body]
pub(crate) fn json_bool(text: &str, pointer: &str) -> (r: Option<bool>)
    ensures
        r == json_bool_of(text@, pointer@),
{
    let value: serde_json::Value = serde_json::from_str(text).ok()?;
    value.pointer(pointer)?.as_bool()
}

/// `serde_json::from_str` into a map from strings to `serde::de::IgnoredAny`: whether the
/// text is an object. Its keys are read, and its values are skipped: a number may be out
/// of range there, or half of a surrogate pair stand alone. The result depends on the text
/// alone.
#[verifier::external_body]
pub(crate) fn json_object(text: &str) -> (r: bool)
    ensures
        r == json_object_of(text@),
{
    serde_json::from_str::<std::collections::BTreeMap<String, serde::de::IgnoredAny>>(text).is_ok()
}

/// `serde_json::from_str` into a list of `serde::de::IgnoredAny`: the number of items of the
/// array that the text is. The items are skipped, as the values of an object are. The
/// result depends on the text alone.
#[verifier::external_body]
pub(crate) fn json_items(text: &str) -> (r: Option<usize>)
    ensures
        match r {
            Some(n) => json_items_of(text@) == Some(n as nat),
            None => json_items_of(text@) is None,
        },
{
    let items: Vec<serde::de::IgnoredAny> = serde_json::from_str(text).ok()?;
    Some(items.len())
}

/// `serde_json::from_str` and `serde_json::to_string_pretty`: a JSON text, written over
/// several lines; none where the text is not JSON. The result depends on the text alone.
#[verifier::external_body]
pub(crate) fn json_pretty(text: &str) -> (r: Option<String>)
    ensures
        match r {
            Some(s) => json_pretty_of(text@) == Some(s@),
            None => json_pretty_of(text@) is None,
        },
{
    let value: serde_json::Value = serde_json::from_str(text).ok()?;
    serde_json::to_string_pretty(&value).ok()
}

/// `serde_json::Value::to_string` on a string: the text written as a JSON string,
/// with quotes around it. The result depends on the text alone.
#[verifier::external_body]
pub(crate) fn json_quoted(text: &str) -> (r: String)
    ensures
        r@ == json_quoted_of(text@),
{
    serde_json::Value::String(text.to_owned()).to_string()
}

/// The members of the object that a text is, where each of them is an integer, with
/// the keys in order.
pub uninterp spec fn json_counts_of(text: Seq<char>) -> Option<Seq<(Seq<char>, i64)>>;

/// The texts and numbers of a list of counts.
pub open spec fn counts_view(v: Seq<(String, i64)>) -> Seq<(Seq<char>, i64)> {
    Seq::new(v.len(), |i: int| (v[i].0@, v[i].1))
}

/// `serde_json::from_str` into a `BTreeMap` from strings to integers: the members, in
/// the order of their keys; none where the text is no such object. The result depends
/// on the text alone.
#[verifier::external_body]
pub(crate) fn json_counts(text: &str) -> (r: Option<Vec<(String, i64)>>)
    ensures
        match r {
            Some(v) => json_counts_of(text@) == Some(counts_view(v@)),
            None => json_counts_of(text@) is None,
        },
{
    let map: std::collections::BTreeMap<String, i64> = serde_json::from_str(text).ok()?;
    Some(map.into_iter().collect())
}

/// The string that a pointer names in a text, or the empty text.
pub open spec fn json_text_or_empty(text: Seq<char>, pointer: Seq<char>) -> Seq<char> {
    match json_text_of(text, pointer) {
        Some(s) => s,
        None => ""@,
    }
}

/// The string that a pointer names in a text, or the empty text.
pub fn text_or_empty(text: &str, pointer: &str) -> (r: String)
    ensures
        r@ == json_text_or_empty(text@, pointer@),
{
    match json_text(text, pointer) {
        Some(s) => s,
        None => "".to_owned(),
    }
}

/// The integer that a pointer names in a text, or zero.
pub open spec fn json_i64_or_zero(text: Seq<char>, pointer: Seq<char>) -> i64 {
    match json_i64_of(text, pointer) {
        Some(n) => n,
        None => 0,
    }
}

/// The integer that a pointer names in a text, or zero.
pub fn i64_or_zero(text: &str, pointer: &str) -> (r: i64)
    ensures
        r == json_i64_or_zero(text@, pointer@),
{
    match json_i64(text, pointer) {
        Some(n) => n,
        None => 0,
    }
}

/// The pointer to an item of the array that a pointer names.
pub open spec fn item_pointer_of(pointer: Seq<char>, i: nat) -> Seq<char> {
    pointer + "/"@ + decimal_of(i)
}

/// The pointer to an item of the array that a pointer names.
pub fn item_pointer(pointer: &str, i: usize) -> (r: String)
    ensures
        r@ == item_pointer_of(pointer@, i as nat),
{
    concat3(pointer, "/", decimal(i as u64).as_str())
}

} // verus!
