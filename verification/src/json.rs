//! The bridge to `serde_json`: a tree is rebuilt as a `serde_json::Value`, which
//! `serde_json` renders as text. What is said here of `serde_json` is believed,
//! not proved.

use crate::tree::{
    lemma_items_model_index, list_of, object_of, pairs_model, TreeModel, TreeValue,
};
use vstd::prelude::*;

verus! {

/// `serde_json::Value`, carried through as an opaque value.
#[verifier::external_type_specification]
#[verifier::external_body]
pub struct ExValue(serde_json::Value);

/// `serde_json::Error`, carried through as an opaque value.
#[verifier::external_type_specification]
#[verifier::external_body]
pub struct ExJsonError(serde_json::Error);

/// The document that a `serde_json::Value` holds.
pub uninterp spec fn json_of(v: serde_json::Value) -> TreeModel;

/// The text that `serde_json::to_string` gives for a document, with the members
/// of an object in the order of their keys, as `serde_json`'s map keeps them by
/// default.
pub uninterp spec fn json_text(doc: TreeModel) -> Seq<char>;

/// `serde_json::Value::Null`: the value that holds the null document.
#[verifier::external_body]
pub(crate) fn json_null() -> (r: serde_json::Value)
    ensures
        json_of(r) == TreeModel::Null,
{
    serde_json::Value::Null
}

/// `serde_json::Value::Bool`: the value that holds the given boolean.
#[verifier::external_body]
pub(crate) fn json_bool(b: bool) -> (r: serde_json::Value)
    ensures
        json_of(r) == TreeModel::Bool(b),
{
    serde_json::Value::Bool(b)
}

/// `serde_json::Value::from` on a `u64`: the value that holds that number.
#[verifier::external_body]
pub(crate) fn json_unsigned(n: u64) -> (r: serde_json::Value)
    ensures
        json_of(r) == TreeModel::Number(n as int),
{
    serde_json::Value::from(n)
}

/// `serde_json::Value::from` on an `i64`: the value that holds that number.
#[verifier::external_body]
pub(crate) fn json_signed(n: i64) -> (r: serde_json::Value)
    ensures
        json_of(r) == TreeModel::Number(n as int),
{
    serde_json::Value::from(n)
}

/// `serde_json::Value::String`: the value that holds the given text.
#[verifier::external_body]
pub(crate) fn json_string(s: String) -> (r: serde_json::Value)
    ensures
        json_of(r) == TreeModel::Text(s@),
{
    serde_json::Value::String(s)
}

/// `serde_json::Value::Array`: the value that holds the given values in order.
#[verifier::external_body]
pub(crate) fn json_array(items: Vec<serde_json::Value>) -> (r: serde_json::Value)
    ensures
        json_of(r) == TreeModel::List(Seq::new(items.len() as nat, |i: int| json_of(items[i]))),
{
    serde_json::Value::Array(items)
}

/// `serde_json::Value::Object` of `serde_json::Map::new`: the object without members.
#[verifier::external_body]
pub(crate) fn json_object() -> (r: serde_json::Value)
    ensures
        json_of(r) == TreeModel::Object(Map::empty()),
{
    serde_json::Value::Object(serde_json::Map::new())
}

/// `serde_json::Map::insert` on the map of an object: the member under `key` is
/// set to `child`, the other members stay.
#[verifier::external_body]
pub(crate) fn json_object_insert(obj: &mut serde_json::Value, key: String, child: serde_json::Value)
    requires
        json_of(*old(obj)) is Object,
    ensures
        json_of(*final(obj)) == TreeModel::Object(
            json_of(*old(obj))->Object_0.insert(key@, json_of(child)),
        ),
{
    if let serde_json::Value::Object(members) = obj {
        members.insert(key, child);
    }
}

/// `serde_json::to_string` on a `serde_json::Value`: it succeeds, and the text is
/// the rendering of the document that the value holds. It succeeds because it
/// writes into a byte vector, which takes every write, and because a value
/// serializes itself as unit, boolean, number, string, sequence or map with
/// string keys, none of which the JSON serializer refuses.
#[verifier::external_body]
pub(crate) fn render_json(v: &serde_json::Value) -> (r: Result<String, serde_json::Error>)
    ensures
        r is Ok,
        r matches Ok(s) ==> s@ == json_text(json_of(*v)),
{
    serde_json::to_string(v)
}

/// Rebuilds a list of trees as `serde_json` values.
pub fn items_to_json(items: &Vec<TreeValue>) -> (r: Vec<serde_json::Value>)
    ensures
        r.len() == items.len(),
        forall|i: int| 0 <= i < r.len() ==> json_of(#[trigger] r[i]) == items[i]@,
    decreases *items, 1nat,
{
    let mut out: Vec<serde_json::Value> = Vec::new();
    let mut i: usize = 0;
    while i < items.len()
        invariant
            i <= items.len(),
            out.len() == i,
            forall|j: int| 0 <= j < i ==> json_of(#[trigger] out[j]) == items[j]@,
        decreases items.len() - i,
    {
        let v = to_json_value(&items[i]);
        out.push(v);
        i += 1;
    }
    out
}

/// Rebuilds the pairs of an object as a `serde_json` object.
pub fn pairs_to_json(pairs: &Vec<(String, TreeValue)>) -> (r: serde_json::Value)
    ensures
        json_of(r) == TreeModel::Object(object_of(*pairs)),
    decreases *pairs, 1nat,
{
    let mut out = json_object();
    let mut i: usize = 0;
    while i < pairs.len()
        invariant
            i <= pairs.len(),
            json_of(out) == TreeModel::Object(pairs_model(*pairs, i as nat)),
        decreases pairs.len() - i,
    {
        let child = to_json_value(&pairs[i].1);
        json_object_insert(&mut out, pairs[i].0.clone(), child);
        i += 1;
    }
    out
}

/// Rebuilds a tree as a `serde_json::Value` that holds the same document.
pub fn to_json_value(v: &TreeValue) -> (r: serde_json::Value)
    ensures
        json_of(r) == v@,
    decreases *v, 0nat,
{
    match v {
        TreeValue::Null => json_null(),
        TreeValue::Bool(b) => json_bool(*b),
        TreeValue::Unsigned(n) => json_unsigned(*n),
        TreeValue::Signed(n) => json_signed(*n),
        TreeValue::String(s) => json_string(s.clone()),
        TreeValue::Array(items) => {
            let values = items_to_json(items);
            proof {
                lemma_items_model_index(*items, items.len() as nat);
                assert(Seq::new(values.len() as nat, |i: int| json_of(values[i])) =~= list_of(
                    *items,
                ));
            }
            json_array(values)
        },
        TreeValue::Object(pairs) => pairs_to_json(pairs),
    }
}

/// Renders a tree as JSON text. Rendering a tree always succeeds.
pub fn render(v: &TreeValue) -> (r: Result<String, serde_json::Error>)
    ensures
        r is Ok,
        r matches Ok(s) ==> s@ == json_text(v@),
{
    let value = to_json_value(v);
    render_json(&value)
}

} // verus!
