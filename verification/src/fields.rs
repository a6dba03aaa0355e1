//! Typed access to the members of a JSON object.
use crate::error::MalformedEnvelope;
use crate::json::{
    fields_of, map_get, map_insert, tree_of, trees_of, value_as_array, value_as_str,
    value_as_u64, value_from_str, value_from_u64, value_from_vec, value_is_null, value_null,
    JsonValue,
};
use vstd::prelude::*;

verus! {

/// The integer that a document spells, where it is one that `usize` holds.
pub open spec fn unsigned_of(t: JsonValue) -> Option<usize> {
    match t {
        JsonValue::Unsigned(n) => if n <= usize::MAX {
            Some(n as usize)
        } else {
            None
        },
        _ => None,
    }
}

/// The text that a document spells, where it is a string.
pub open spec fn text_of(t: JsonValue) -> Option<Seq<char>> {
    match t {
        JsonValue::Text(s) => Some(s),
        _ => None,
    }
}

/// The texts that a document spells, where it is an array of strings.
pub open spec fn texts_of(t: JsonValue) -> Option<Seq<Seq<char>>> {
    match t {
        JsonValue::Array(items) => if forall|i: int|
            0 <= i < items.len() ==> text_of(#[trigger] items[i]) is Some {
            Some(items.map_values(|x: JsonValue| text_of(x).unwrap()))
        } else {
            None
        },
        _ => None,
    }
}

/// The integers that a document spells, where it is an array of integers
/// that `usize` holds.
pub open spec fn unsigneds_of(t: JsonValue) -> Option<Seq<usize>> {
    match t {
        JsonValue::Array(items) => if forall|i: int|
            0 <= i < items.len() ==> unsigned_of(#[trigger] items[i]) is Some {
            Some(items.map_values(|x: JsonValue| unsigned_of(x).unwrap()))
        } else {
            None
        },
        _ => None,
    }
}

/// The document for an integer.
pub open spec fn unsigned_tree(n: usize) -> JsonValue {
    JsonValue::Unsigned(n as u64)
}

/// The document for an optional integer: `null` where there is none.
pub open spec fn optional_unsigned_tree(n: Option<usize>) -> JsonValue {
    match n {
        Some(n) => unsigned_tree(n),
        None => JsonValue::Null,
    }
}

/// The document for a list of texts.
pub open spec fn texts_tree(items: Seq<Seq<char>>) -> JsonValue {
    JsonValue::Array(items.map_values(|s: Seq<char>| JsonValue::Text(s)))
}

/// The document for a list of integers.
pub open spec fn unsigneds_tree(items: Seq<usize>) -> JsonValue {
    JsonValue::Array(items.map_values(|n: usize| unsigned_tree(n)))
}

/// The views of a list of strings.
pub open spec fn text_views(items: Seq<String>) -> Seq<Seq<char>> {
    items.map_values(|s: String| s@)
}

/// What a required member yields: the member must be present, and of the
/// type that `read` accepts.
pub open spec fn required<T>(
    fields: Map<Seq<char>, JsonValue>,
    key: Seq<char>,
    read: spec_fn(JsonValue) -> Option<T>,
) -> Result<T, MalformedEnvelope> {
    if !fields.contains_key(key) {
        Err(MalformedEnvelope::MissingField)
    } else {
        match read(fields[key]) {
            Some(x) => Ok(x),
            None => Err(MalformedEnvelope::TypeMismatch),
        }
    }
}

/// A required string member.
pub open spec fn text_member(fields: Map<Seq<char>, JsonValue>, key: Seq<char>) -> Result<
    Seq<char>,
    MalformedEnvelope,
> {
    required(fields, key, |t: JsonValue| text_of(t))
}

/// A required integer member.
pub open spec fn unsigned_member(fields: Map<Seq<char>, JsonValue>, key: Seq<char>) -> Result<
    usize,
    MalformedEnvelope,
> {
    required(fields, key, |t: JsonValue| unsigned_of(t))
}

/// A required member that lists strings.
pub open spec fn texts_member(fields: Map<Seq<char>, JsonValue>, key: Seq<char>) -> Result<
    Seq<Seq<char>>,
    MalformedEnvelope,
> {
    required(fields, key, |t: JsonValue| texts_of(t))
}

/// A required member that lists integers.
pub open spec fn unsigneds_member(fields: Map<Seq<char>, JsonValue>, key: Seq<char>) -> Result<
    Seq<usize>,
    MalformedEnvelope,
> {
    required(fields, key, |t: JsonValue| unsigneds_of(t))
}

/// An integer member that may be absent or `null`.
pub open spec fn optional_unsigned_member(
    fields: Map<Seq<char>, JsonValue>,
    key: Seq<char>,
) -> Result<Option<usize>, MalformedEnvelope> {
    if !fields.contains_key(key) || fields[key] is Null {
        Ok(None)
    } else {
        match unsigned_of(fields[key]) {
            Some(n) => Ok(Some(n)),
            None => Err(MalformedEnvelope::TypeMismatch),
        }
    }
}

/// Reading back the document for a list of texts gives the list.
pub proof fn lemma_texts_round_trip(items: Seq<Seq<char>>)
    ensures
        texts_of(texts_tree(items)) == Some(items),
{
}

/// Reading back the document for a list of integers gives the list.
pub proof fn lemma_unsigneds_round_trip(items: Seq<usize>)
    ensures
        unsigneds_of(unsigneds_tree(items)) == Some(items),
{
}

/// Reads a value as an integer.
pub fn unsigned_from(v: &serde_json::Value) -> (r: Option<usize>)
    ensures
        r == unsigned_of(tree_of(*v)),
{
    match value_as_u64(v) {
        Some(n) => if n <= usize::MAX as u64 {
            Some(n as usize)
        } else {
            None
        },
        None => None,
    }
}

/// Reads a value as an owned string.
pub fn text_from(v: &serde_json::Value) -> (r: Option<String>)
    ensures
        r matches Some(s) ==> text_of(tree_of(*v)) == Some(s@),
        r is None ==> text_of(tree_of(*v)) is None,
{
    match value_as_str(v) {
        Some(s) => Some(s.to_owned()),
        None => None,
    }
}

/// Reads a value as a list of strings.
pub fn texts_from(v: &serde_json::Value) -> (r: Option<Vec<String>>)
    ensures
        r matches Some(items) ==> texts_of(tree_of(*v)) == Some(text_views(items@)),
        r is None ==> texts_of(tree_of(*v)) is None,
{
    let items = match value_as_array(v) {
        Some(items) => items,
        None => { return None; },
    };
    let ghost trees = trees_of(items@);
    let mut out: Vec<String> = Vec::new();
    let mut i: usize = 0;
    while i < items.len()
        invariant
            i <= items.len(),
            trees == trees_of(items@),
            tree_of(*v) == JsonValue::Array(trees),
            out@.len() == i,
            forall|j: int| 0 <= j < i ==> text_of(#[trigger] trees[j]) == Some(out@[j]@),
        decreases items.len() - i,
    {
        match text_from(&items[i]) {
            Some(s) => {
                out.push(s);
            },
            None => {
                assert(text_of(trees[i as int]) is None);
                return None;
            },
        }
        i += 1;
    }
    proof {
    }
    Some(out)
}

/// Reads a value as a list of integers.
pub fn unsigneds_from(v: &serde_json::Value) -> (r: Option<Vec<usize>>)
    ensures
        r matches Some(items) ==> unsigneds_of(tree_of(*v)) == Some(items@),
        r is None ==> unsigneds_of(tree_of(*v)) is None,
{
    let items = match value_as_array(v) {
        Some(items) => items,
        None => { return None; },
    };
    let ghost trees = trees_of(items@);
    let mut out: Vec<usize> = Vec::new();
    let mut i: usize = 0;
    while i < items.len()
        invariant
            i <= items.len(),
            trees == trees_of(items@),
            tree_of(*v) == JsonValue::Array(trees),
            out@.len() == i,
            forall|j: int| 0 <= j < i ==> unsigned_of(#[trigger] trees[j]) == Some(out@[j]),
        decreases items.len() - i,
    {
        match unsigned_from(&items[i]) {
            Some(n) => {
                out.push(n);
            },
            None => {
                assert(unsigned_of(trees[i as int]) is None);
                return None;
            },
        }
        i += 1;
    }
    proof {
    }
    Some(out)
}

/// Reads a required string member.
pub fn read_text(m: &serde_json::Map<String, serde_json::Value>, key: &str) -> (r: Result<
    String,
    MalformedEnvelope,
>)
    ensures
        r matches Ok(s) ==> text_member(fields_of(*m), key@) === Ok(s@),
        r matches Err(e) ==> text_member(fields_of(*m), key@) === Err(e),
{
    match map_get(m, key) {
        None => Err(MalformedEnvelope::MissingField),
        Some(v) => match text_from(v) {
            Some(s) => Ok(s),
            None => Err(MalformedEnvelope::TypeMismatch),
        },
    }
}

/// Reads a required integer member.
pub fn read_unsigned(m: &serde_json::Map<String, serde_json::Value>, key: &str) -> (r: Result<
    usize,
    MalformedEnvelope,
>)
    ensures
        r == unsigned_member(fields_of(*m), key@),
{
    match map_get(m, key) {
        None => Err(MalformedEnvelope::MissingField),
        Some(v) => match unsigned_from(v) {
            Some(n) => Ok(n),
            None => Err(MalformedEnvelope::TypeMismatch),
        },
    }
}

/// Reads a required member that lists strings.
pub fn read_texts(m: &serde_json::Map<String, serde_json::Value>, key: &str) -> (r: Result<
    Vec<String>,
    MalformedEnvelope,
>)
    ensures
        r matches Ok(items) ==> texts_member(fields_of(*m), key@) === Ok(text_views(items@)),
        r matches Err(e) ==> texts_member(fields_of(*m), key@) === Err(e),
{
    match map_get(m, key) {
        None => Err(MalformedEnvelope::MissingField),
        Some(v) => match texts_from(v) {
            Some(items) => Ok(items),
            None => Err(MalformedEnvelope::TypeMismatch),
        },
    }
}

/// Reads a required member that lists integers.
pub fn read_unsigneds(m: &serde_json::Map<String, serde_json::Value>, key: &str) -> (r: Result<
    Vec<usize>,
    MalformedEnvelope,
>)
    ensures
        r matches Ok(items) ==> unsigneds_member(fields_of(*m), key@) === Ok(items@),
        r matches Err(e) ==> unsigneds_member(fields_of(*m), key@) === Err(e),
{
    match map_get(m, key) {
        None => Err(MalformedEnvelope::MissingField),
        Some(v) => match unsigneds_from(v) {
            Some(items) => Ok(items),
            None => Err(MalformedEnvelope::TypeMismatch),
        },
    }
}

/// Reads an integer member that may be absent or `null`.
pub fn read_optional_unsigned(
    m: &serde_json::Map<String, serde_json::Value>,
    key: &str,
) -> (r: Result<Option<usize>, MalformedEnvelope>)
    ensures
        r == optional_unsigned_member(fields_of(*m), key@),
{
    match map_get(m, key) {
        None => Ok(None),
        Some(v) => if value_is_null(v) {
            Ok(None)
        } else {
            match unsigned_from(v) {
                Some(n) => Ok(Some(n)),
                None => Err(MalformedEnvelope::TypeMismatch),
            }
        },
    }
}

/// The value for a list of strings.
pub fn texts_value(items: &Vec<String>) -> (r: serde_json::Value)
    ensures
        tree_of(r) == texts_tree(text_views(items@)),
{
    let mut out: Vec<serde_json::Value> = Vec::new();
    let mut i: usize = 0;
    while i < items.len()
        invariant
            i <= items.len(),
            out@.len() == i,
            forall|j: int|
                0 <= j < i ==> tree_of(#[trigger] out@[j]) == JsonValue::Text(items@[j]@),
        decreases items.len() - i,
    {
        out.push(value_from_str(items[i].as_str()));
        i += 1;
    }
    proof {
        assert(trees_of(out@) =~= text_views(items@).map_values(
            |s: Seq<char>| JsonValue::Text(s),
        ));
    }
    value_from_vec(out)
}

/// The value for a list of integers.
pub fn unsigneds_value(items: &Vec<usize>) -> (r: serde_json::Value)
    ensures
        tree_of(r) == unsigneds_tree(items@),
{
    let mut out: Vec<serde_json::Value> = Vec::new();
    let mut i: usize = 0;
    while i < items.len()
        invariant
            i <= items.len(),
            out@.len() == i,
            forall|j: int| 0 <= j < i ==> tree_of(#[trigger] out@[j]) == unsigned_tree(items@[j]),
        decreases items.len() - i,
    {
        out.push(value_from_u64(items[i] as u64));
        i += 1;
    }
    proof {
        assert(trees_of(out@) =~= items@.map_values(|n: usize| unsigned_tree(n)));
    }
    value_from_vec(out)
}

/// The value for an optional integer: `null` where there is none.
pub fn optional_unsigned_value(n: Option<usize>) -> (r: serde_json::Value)
    ensures
        tree_of(r) == optional_unsigned_tree(n),
{
    match n {
        Some(n) => value_from_u64(n as u64),
        None => value_null(),
    }
}

/// Sets a string member.
pub fn put_text(m: &mut serde_json::Map<String, serde_json::Value>, key: &str, s: &str)
    ensures
        fields_of(*final(m)) == fields_of(*old(m)).insert(key@, JsonValue::Text(s@)),
{
    map_insert(m, key.to_owned(), value_from_str(s));
}

/// Sets an integer member.
pub fn put_unsigned(m: &mut serde_json::Map<String, serde_json::Value>, key: &str, n: usize)
    ensures
        fields_of(*final(m)) == fields_of(*old(m)).insert(key@, unsigned_tree(n)),
{
    map_insert(m, key.to_owned(), value_from_u64(n as u64));
}

/// Whether a text is the given word.
pub fn text_is(text: &String, word: &str) -> (r: bool)
    ensures
        r == (text@ == word@),
{
    let word = word.to_owned();
    *text == word
}

/// Sets a member that lists strings.
pub fn put_texts(m: &mut serde_json::Map<String, serde_json::Value>, key: &str, items: &Vec<String>)
    ensures
        fields_of(*final(m)) == fields_of(*old(m)).insert(key@, texts_tree(text_views(items@))),
{
    map_insert(m, key.to_owned(), texts_value(items));
}

/// Sets a member that lists integers.
pub fn put_unsigneds(
    m: &mut serde_json::Map<String, serde_json::Value>,
    key: &str,
    items: &Vec<usize>,
)
    ensures
        fields_of(*final(m)) == fields_of(*old(m)).insert(key@, unsigneds_tree(items@)),
{
    map_insert(m, key.to_owned(), unsigneds_value(items));
}

/// A copy of a list of strings.
pub fn clone_texts(items: &Vec<String>) -> (r: Vec<String>)
    ensures
        r@ == items@,
{
    let mut out: Vec<String> = Vec::new();
    let mut i: usize = 0;
    while i < items.len()
        invariant
            i <= items.len(),
            out@ =~= items@.take(i as int),
        decreases items.len() - i,
    {
        out.push(items[i].clone());
        i += 1;
    }
    out
}

/// A copy of a list of integers.
pub fn clone_unsigneds(items: &Vec<usize>) -> (r: Vec<usize>)
    ensures
        r@ == items@,
{
    let mut out: Vec<usize> = Vec::new();
    let mut i: usize = 0;
    while i < items.len()
        invariant
            i <= items.len(),
            out@ =~= items@.take(i as int),
        decreases items.len() - i,
    {
        out.push(items[i]);
        i += 1;
    }
    out
}

} // verus!
