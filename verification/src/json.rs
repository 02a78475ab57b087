//! JSON objects, built and rendered by `serde_json`.

use vstd::prelude::*;

verus! {

/// What a JSON value of the kinds used in an entry holds.
pub enum JsonModel {
    /// A JSON string.
    Text(Seq<char>),
    /// A JSON number that is an unsigned integer.
    Number(u64),
    /// A JSON array of objects.
    Records(Seq<Map<Seq<char>, JsonModel>>),
}

#[verifier::external_type_specification]
#[verifier::external_body]
pub struct ExJsonValue(serde_json::Value);

#[verifier::external_type_specification]
#[verifier::external_body]
#[verifier::reject_recursive_types(K)]
#[verifier::reject_recursive_types(V)]
pub struct ExJsonMap<K, V>(serde_json::Map<K, V>);

/// The members that a JSON object holds, by name.
pub uninterp spec fn json_members(m: serde_json::Map<String, serde_json::Value>) -> Map<
    Seq<char>,
    JsonModel,
>;

/// The compact JSON text of an object with the given members.
pub uninterp spec fn json_object_text(members: Map<Seq<char>, JsonModel>) -> Seq<char>;

/// The members of an object that holds none.
pub open spec fn no_members() -> Map<Seq<char>, JsonModel> {
    Map::empty()
}

/// The members of each object of a list.
pub open spec fn records_of(items: Seq<serde_json::Map<String, serde_json::Value>>) -> Seq<
    Map<Seq<char>, JsonModel>,
> {
    Seq::new(items.len(), |i: int| json_members(items[i]))
}

/// An object without members.
///
/// Trusted: calls `serde_json::Map::new`, which makes an empty map.
#[verifier::external_body]
pub(crate) fn object_new() -> (r: serde_json::Map<String, serde_json::Value>)
    ensures
        json_members(r) == no_members(),
{
    serde_json::Map::new()
}

/// Sets the member `name` to a JSON string.
///
/// Trusted: calls `serde_json::Map::insert` with a `Value::String`; the map
/// then holds the new value under `name`, in place of an earlier one if there
/// was one, and every other member as before.
#[verifier::external_body]
pub(crate) fn object_set_text(
    m: &mut serde_json::Map<String, serde_json::Value>,
    name: &str,
    text: &str,
)
    ensures
        json_members(*final(m)) == json_members(*old(m)).insert(name@, JsonModel::Text(text@)),
{
    m.insert(name.to_string(), serde_json::Value::String(text.to_string()));
}

/// Sets the member `name` to a JSON number.
///
/// Trusted: calls `serde_json::Map::insert` with the `Value` that
/// `serde_json::Number::from` makes of an unsigned integer.
#[verifier::external_body]
pub(crate) fn object_set_number(
    m: &mut serde_json::Map<String, serde_json::Value>,
    name: &str,
    number: u64,
)
    ensures
        json_members(*final(m)) == json_members(*old(m)).insert(name@, JsonModel::Number(number)),
{
    m.insert(name.to_string(), serde_json::Value::from(serde_json::Number::from(number)));
}

/// Sets the member `name` to a JSON array that holds the given objects in
/// their order.
///
/// Trusted: calls `serde_json::Map::insert` with a `Value::Array` of
/// `Value::Object` items.
#[verifier::external_body]
pub(crate) fn object_set_records(
    m: &mut serde_json::Map<String, serde_json::Value>,
    name: &str,
    items: Vec<serde_json::Map<String, serde_json::Value>>,
)
    ensures
        json_members(*final(m)) == json_members(*old(m)).insert(
            name@,
            JsonModel::Records(records_of(items@)),
        ),
{
    let values = items.into_iter().map(serde_json::Value::Object).collect();
    m.insert(name.to_string(), serde_json::Value::Array(values));
}

/// Renders an object as compact JSON text.
///
/// Trusted: calls `to_string` on a `serde_json::Value::Object`. The text
/// depends on the members alone: the map keeps them sorted by name.
#[verifier::external_body]
pub(crate) fn object_render(m: serde_json::Map<String, serde_json::Value>) -> (r: String)
    ensures
        r@ == json_object_text(json_members(m)),
{
    serde_json::Value::Object(m).to_string()
}

} // verus!
