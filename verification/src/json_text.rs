//! Reading JSON text, by way of the `serde_json` crate.
use crate::json::{lemma_tree_of_array, lemma_tree_of_object, Json, JsonNumber, JsonTree};
use serde_json::Value;
use vstd::prelude::*;

verus! {

/// A parsed JSON document of `serde_json`.
#[verifier::external_type_specification]
#[verifier::external_body]
pub struct ExValue(serde_json::Value);

/// The error of `serde_json` for a text that is no JSON document.
#[verifier::external_type_specification]
#[verifier::external_body]
pub struct ExParseError(serde_json::Error);

/// The tree that a `serde_json` document holds.
pub uninterp spec fn document_tree(document: Value) -> JsonTree;

/// The tree that `serde_json::from_str` reads from a text, or `None` where it fails.
pub uninterp spec fn parsed_tree(text: Seq<char>) -> Option<JsonTree>;

/// The outermost layer of a `serde_json` document.
pub enum Layer<'a> {
    Null,
    Bool(bool),
    Number(JsonNumber),
    String(&'a String),
    Array(&'a Vec<Value>),
    Object(Vec<(&'a String, &'a Value)>),
}

/// What a layer stands for, given what the documents inside it stand for.
pub open spec fn layer_tree(layer: Layer<'_>) -> JsonTree {
    match layer {
        Layer::Null => JsonTree::Null,
        Layer::Bool(b) => JsonTree::Bool(b),
        Layer::Number(n) => JsonTree::Number(n),
        Layer::String(s) => JsonTree::String(s@),
        Layer::Array(items) => JsonTree::Array(items@.map_values(|v: Value| document_tree(v))),
        Layer::Object(members) => JsonTree::Object(
            members@.map_values(|m: (&String, &Value)| (m.0@, document_tree(*m.1))),
        ),
    }
}

/// Wraps `serde_json::from_str` at type `Value`. Whether it succeeds, and with what document,
/// depends on the text alone.
#[verifier::external_body]
fn parse_document(text: &str) -> (result: Result<Value, serde_json::Error>)
    ensures
        match result {
            Ok(document) => parsed_tree(text@) == Some(document_tree(document)),
            Err(_) => parsed_tree(text@) is None,
        },
{
    serde_json::from_str::<Value>(text)
}

/// Tells the variants of `serde_json::Value` apart. The members of an object come in the order
/// in which its map is walked; a number comes in the form in which it is held.
#[verifier::external_body]
fn outer_layer(document: &Value) -> (layer: Layer<'_>)
    ensures
        layer_tree(layer) == document_tree(*document),
{
    match document {
        Value::Null => Layer::Null,
        Value::Bool(b) => Layer::Bool(*b),
        Value::Number(n) => match (n.as_u64(), n.as_i64(), n.as_f64()) {
            (Some(u), _, _) => Layer::Number(JsonNumber::Unsigned(u)),
            (_, Some(i), _) => Layer::Number(JsonNumber::Negative(i)),
            (_, _, d) => Layer::Number(JsonNumber::Double(d.unwrap_or_default().to_bits())),
        },
        Value::String(s) => Layer::String(s),
        Value::Array(items) => Layer::Array(items),
        Value::Object(members) => Layer::Object(members.iter().collect()),
    }
}

/// The [`Json`] value that holds what `document` holds.
pub fn json_of(document: &Value) -> (value: Json)
    ensures
        value.deep_view() == document_tree(*document),
    decreases document_tree(*document),
{
    broadcast use {lemma_tree_of_array, lemma_tree_of_object};

    let ghost tree = document_tree(*document);
    match outer_layer(document) {
        Layer::Null => Json::Null,
        Layer::Bool(b) => Json::Bool(b),
        Layer::Number(n) => Json::Number(n),
        Layer::String(s) => Json::String(s.clone()),
        Layer::Array(items) => {
            let mut values: Vec<Json> = Vec::new();
            let mut i: usize = 0;
            while i < items.len()
                invariant
                    i <= items.len(),
                    values.len() == i,
                    tree == document_tree(*document),
                    tree == JsonTree::Array(items@.map_values(|v: Value| document_tree(v))),
                    forall|j: int|
                        0 <= j < i ==> (#[trigger] values[j]).deep_view() == document_tree(
                            items[j],
                        ),
                decreases items.len() - i,
            {
                proof {
                    let trees = tree->Array_0;
                    assert(decreases_to!(tree => tree->Array_0));
                    assert(decreases_to!(trees => trees[i as int]));
                    assert(trees[i as int] == document_tree(items@[i as int]));
                }
                values.push(json_of(&items[i]));
                i += 1;
            }
            assert(values.deep_view() =~= tree->Array_0);
            Json::Array(values)
        },
        Layer::Object(members) => {
            let mut values: Vec<(String, Json)> = Vec::new();
            let mut i: usize = 0;
            while i < members.len()
                invariant
                    i <= members.len(),
                    values.len() == i,
                    tree == document_tree(*document),
                    tree == JsonTree::Object(
                        members@.map_values(|m: (&String, &Value)| (m.0@, document_tree(*m.1))),
                    ),
                    forall|j: int|
                        0 <= j < i ==> (#[trigger] values[j]).deep_view() == (
                            members[j].0@,
                            document_tree(*members[j].1),
                        ),
                decreases members.len() - i,
            {
                proof {
                    let trees = tree->Object_0;
                    assert(decreases_to!(tree => tree->Object_0));
                    assert(decreases_to!(trees => trees[i as int]));
                    assert(decreases_to!(trees[i as int] => trees[i as int].1));
                    assert(trees[i as int].1 == document_tree(*members@[i as int].1));
                }
                let name = members[i].0.clone();
                values.push((name, json_of(members[i].1)));
                i += 1;
            }
            assert(values.deep_view() =~= tree->Object_0);
            Json::Object(values)
        },
    }
}

/// Reads `text` as one JSON document.
pub fn parse_json(text: &str) -> (value: Option<Json>)
    ensures
        value.deep_view() == parsed_tree(text@),
{
    match parse_document(text) {
        Ok(document) => Some(json_of(&document)),
        Err(_) => None,
    }
}

} // verus!
