//! JSON documents as mathematical trees, and the `serde_json` operations the
//! codec relies on.
//!
//! Verified code never looks inside a `serde_json::Value`. Everything it knows
//! of one is what the functions in this module state about [`tree_of`].
use vstd::prelude::*;

verus! {

/// The content of a JSON document.
pub enum JsonValue {
    Null,
    Bool(bool),
    /// A non-negative integer.
    Unsigned(u64),
    /// A negative integer.
    Negative(i64),
    /// Any other number, identified by the bit pattern of its double.
    Fraction(u64),
    Text(Seq<char>),
    Array(Seq<JsonValue>),
    Object(Map<Seq<char>, JsonValue>),
}

#[verifier::external_type_specification]
#[verifier::external_body]
pub struct ExValue(serde_json::Value);

#[verifier::external_type_specification]
#[verifier::external_body]
#[verifier::reject_recursive_types(K)]
#[verifier::reject_recursive_types(V)]
pub struct ExMap<K, V>(serde_json::Map<K, V>);

#[verifier::external_type_specification]
#[verifier::external_body]
pub struct ExError(serde_json::Error);

/// The document that a `serde_json::Value` holds.
pub uninterp spec fn tree_of(v: serde_json::Value) -> JsonValue;

/// The members that a `serde_json::Map` holds, by name.
pub uninterp spec fn fields_of(m: serde_json::Map<String, serde_json::Value>) -> Map<
    Seq<char>,
    JsonValue,
>;

/// The document that `serde_json::from_str` reads from a text, or `None`
/// where it rejects the text.
pub uninterp spec fn parsed(text: Seq<char>) -> Option<JsonValue>;

/// The compact text that `serde_json::to_string` writes for a document, or
/// `None` where it reports an error.
pub uninterp spec fn printed(tree: JsonValue) -> Option<Seq<char>>;

/// The members of an empty object.
pub open spec fn no_fields() -> Map<Seq<char>, JsonValue> {
    Map::empty()
}

/// The documents held by a sequence of values, in order.
pub open spec fn trees_of(items: Seq<serde_json::Value>) -> Seq<JsonValue> {
    items.map_values(|v: serde_json::Value| tree_of(v))
}

/// `serde_json::from_str::<Value>`: on success the value holds the document
/// named `parsed(text)`; on failure `parsed(text)` is `None`.
#[verifier::external_body]
pub(crate) fn parse_text(text: &str) -> (r: Result<serde_json::Value, serde_json::Error>)
    ensures
        r matches Ok(v) ==> parsed(text@) == Some(tree_of(v)),
        r is Err ==> parsed(text@) is None,
{
    serde_json::from_str::<serde_json::Value>(text)
}

/// `serde_json::to_string` on a `Value`: on success the text is the one named
/// `printed` for the document; on failure `printed` is `None` for it. The
/// compact form has no line break: none is written between tokens, and one
/// inside a string is written as an escape.
#[verifier::external_body]
pub(crate) fn print_text(v: &serde_json::Value) -> (r: Result<String, serde_json::Error>)
    ensures
        r matches Ok(s) ==> printed(tree_of(*v)) == Some(s@),
        r matches Ok(s) ==> !s@.contains('\n'),
        r is Err ==> printed(tree_of(*v)) is None,
{
    serde_json::to_string(v)
}

/// `Value::is_null`: whether the value is JSON `null`.
#[verifier::external_body]
pub(crate) fn value_is_null(v: &serde_json::Value) -> (r: bool)
    ensures
        r == (tree_of(*v) is Null),
{
    v.is_null()
}

/// `Value::as_u64`: the integer, where the value is a non-negative integer
/// that fits 64 bits; `None` for every other value.
#[verifier::external_body]
pub(crate) fn value_as_u64(v: &serde_json::Value) -> (r: Option<u64>)
    ensures
        r == (match tree_of(*v) {
            JsonValue::Unsigned(n) => Some(n),
            _ => None,
        }),
{
    v.as_u64()
}

/// `Value::as_str`: the text, where the value is a string; `None` otherwise.
#[verifier::external_body]
pub(crate) fn value_as_str(v: &serde_json::Value) -> (r: Option<&str>)
    ensures
        r matches Some(s) ==> tree_of(*v) == JsonValue::Text(s@),
        r is None ==> !(tree_of(*v) is Text),
{
    v.as_str()
}

/// `Value::as_array`: the elements, where the value is an array; `None`
/// otherwise.
#[verifier::external_body]
pub(crate) fn value_as_array(v: &serde_json::Value) -> (r: Option<&Vec<serde_json::Value>>)
    ensures
        r matches Some(items) ==> tree_of(*v) == JsonValue::Array(trees_of(items@)),
        r is None ==> !(tree_of(*v) is Array),
{
    v.as_array()
}

/// `Value::as_object`: the members, where the value is an object; `None`
/// otherwise.
#[verifier::external_body]
pub(crate) fn value_as_object(v: &serde_json::Value) -> (r: Option<
    &serde_json::Map<String, serde_json::Value>,
>)
    ensures
        r matches Some(m) ==> tree_of(*v) == JsonValue::Object(fields_of(*m)),
        r is None ==> !(tree_of(*v) is Object),
{
    v.as_object()
}

/// `Map::get`: the member of that name, or `None` where the map has none.
#[verifier::external_body]
pub(crate) fn map_get<'a>(
    m: &'a serde_json::Map<String, serde_json::Value>,
    key: &str,
) -> (r: Option<&'a serde_json::Value>)
    ensures
        r matches Some(v) ==> fields_of(*m).contains_key(key@),
        r matches Some(v) ==> fields_of(*m)[key@] == tree_of(*v),
        r is None ==> !fields_of(*m).contains_key(key@),
{
    m.get(key)
}

/// `Map::keys`: every member name of the map, each once.
#[verifier::external_body]
pub(crate) fn map_keys(m: &serde_json::Map<String, serde_json::Value>) -> (r: Vec<String>)
    ensures
        forall|i: int| 0 <= i < r@.len() ==> fields_of(*m).contains_key(#[trigger] r@[i]@),
        forall|k: Seq<char>| #[trigger]
            fields_of(*m).contains_key(k) ==> exists|i: int| 0 <= i < r@.len() && r@[i]@ == k,
        forall|i: int, j: int| 0 <= i < j < r@.len() ==> r@[i]@ != r@[j]@,
{
    m.keys().cloned().collect()
}

/// `Map::new`: a map without members.
#[verifier::external_body]
pub(crate) fn map_new() -> (r: serde_json::Map<String, serde_json::Value>)
    ensures
        fields_of(r) == no_fields(),
{
    serde_json::Map::new()
}

/// `Map::insert`: afterwards the map holds the value under that name, and
/// every other member as before.
#[verifier::external_body]
pub(crate) fn map_insert(
    m: &mut serde_json::Map<String, serde_json::Value>,
    key: String,
    value: serde_json::Value,
)
    ensures
        fields_of(*final(m)) == fields_of(*old(m)).insert(key@, tree_of(value)),
{
    m.insert(key, value);
}

/// `Value::Null`.
#[verifier::external_body]
pub(crate) fn value_null() -> (r: serde_json::Value)
    ensures
        tree_of(r) == JsonValue::Null,
{
    serde_json::Value::Null
}

/// `Value::from(u64)`: the number as a JSON integer.
#[verifier::external_body]
pub(crate) fn value_from_u64(n: u64) -> (r: serde_json::Value)
    ensures
        tree_of(r) == JsonValue::Unsigned(n),
{
    serde_json::Value::from(n)
}

/// `Value::from(&str)`: the text as a JSON string.
#[verifier::external_body]
pub(crate) fn value_from_str(s: &str) -> (r: serde_json::Value)
    ensures
        tree_of(r) == JsonValue::Text(s@),
{
    serde_json::Value::from(s)
}

/// `Value::from(Vec<Value>)`: an array of the given elements, in order.
#[verifier::external_body]
pub(crate) fn value_from_vec(items: Vec<serde_json::Value>) -> (r: serde_json::Value)
    ensures
        tree_of(r) == JsonValue::Array(trees_of(items@)),
{
    serde_json::Value::from(items)
}

/// `Value::from(Map)`: an object with the given members.
#[verifier::external_body]
pub(crate) fn value_from_map(m: serde_json::Map<String, serde_json::Value>) -> (r:
    serde_json::Value)
    ensures
        tree_of(r) == JsonValue::Object(fields_of(m)),
{
    serde_json::Value::from(m)
}

} // verus!
