//! JSON documents as text, read and written by `serde_json`.

use crate::json::{
    fields_view, items_view, lemma_array_view, lemma_object_view, Json, JsonView,
};
use vstd::prelude::*;

verus! {

/// `serde_json::Value`, a parsed document.
#[verifier::external_type_specification]
#[verifier::external_body]
pub struct ExValue(serde_json::Value);

/// `serde_json::Error`, why a text is no document.
#[verifier::external_type_specification]
#[verifier::external_body]
pub struct ExError(serde_json::Error);

/// What a `serde_json::Value` holds.
pub uninterp spec fn json_contents(value: serde_json::Value) -> JsonView;

/// The document that `serde_json::from_str` reads from `text`, or `None` where
/// it refuses the text.
pub uninterp spec fn json_parsed(text: Seq<char>) -> Option<JsonView>;

/// The text that `serde_json::to_string_pretty` writes for `doc`.
pub uninterp spec fn json_pretty(doc: JsonView) -> Seq<char>;

/// Whether no two fields have the same name.
pub open spec fn distinct_names(fields: Seq<(Seq<char>, JsonView)>) -> bool {
    forall|i: int, j: int|
        0 <= i < j < fields.len() ==> #[trigger] fields[i].0 != #[trigger] fields[j].0
}

/// Whether `doc` nests arrays and objects at most `depth` deep, holds no number
/// but unsigned 64-bit integers, and gives no object the same field twice.
pub open spec fn plain_document(doc: JsonView, depth: nat) -> bool
    decreases depth,
{
    match doc {
        JsonView::Null => true,
        JsonView::Bool(_) => true,
        JsonView::Number(n) => n is Some,
        JsonView::Text(_) => true,
        JsonView::Array(items) => depth > 0 && forall|i: int|
            0 <= i < items.len() ==> plain_document(#[trigger] items[i], (depth - 1) as nat),
        JsonView::Object(fields) => depth > 0 && distinct_names(fields) && forall|i: int|
            0 <= i < fields.len() ==> plain_document(
                (#[trigger] fields[i]).1,
                (depth - 1) as nat,
            ),
    }
}

/// How deep a document may nest to be written.
pub const MAX_DEPTH: u8 = 64;

/// Whether `doc` can be written: it is plain and nests no deeper than
/// [`MAX_DEPTH`].
pub open spec fn writable(doc: JsonView) -> bool {
    plain_document(doc, MAX_DEPTH as nat)
}

/// The outermost layer of a `serde_json::Value`.
enum Shape {
    Null,
    Bool(bool),
    Number(Option<u64>),
    Text(String),
    Array(Vec<serde_json::Value>),
    Object(Vec<(String, serde_json::Value)>),
}

spec fn values_contents(values: Seq<serde_json::Value>) -> Seq<JsonView> {
    values.map_values(|value: serde_json::Value| json_contents(value))
}

spec fn entries_contents(entries: Seq<(String, serde_json::Value)>) -> Seq<
    (Seq<char>, JsonView),
> {
    entries.map_values(|entry: (String, serde_json::Value)| (entry.0@, json_contents(entry.1)))
}

spec fn shape_contents(shape: Shape) -> JsonView {
    match shape {
        Shape::Null => JsonView::Null,
        Shape::Bool(b) => JsonView::Bool(b),
        Shape::Number(n) => JsonView::Number(n),
        Shape::Text(s) => JsonView::Text(s@),
        Shape::Array(values) => JsonView::Array(values_contents(values@)),
        Shape::Object(entries) => JsonView::Object(entries_contents(entries@)),
    }
}

/// Takes a `serde_json::Value` apart by its variants. The fields of an object
/// come in the order of its `serde_json::Map`, which is that of their first
/// insertion; of a number, `serde_json::Number::as_u64` is kept.
#[verifier::external_body]
fn open_value(value: serde_json::Value) -> (shape: Shape)
    ensures
        shape_contents(shape) == json_contents(value),
{
    match value {
        serde_json::Value::Null => Shape::Null,
        serde_json::Value::Bool(b) => Shape::Bool(b),
        serde_json::Value::Number(n) => Shape::Number(n.as_u64()),
        serde_json::Value::String(s) => Shape::Text(s),
        serde_json::Value::Array(values) => Shape::Array(values),
        serde_json::Value::Object(entries) => Shape::Object(entries.into_iter().collect()),
    }
}

/// Builds a `serde_json::Value` from its outermost layer, with the variant of
/// the same name. An object whose field names are distinct keeps their order; a
/// number is an unsigned integer, which `serde_json::Value::from` keeps.
#[verifier::external_body]
fn close_value(shape: Shape) -> (value: serde_json::Value)
    requires
        shape is Number ==> shape->Number_0 is Some,
        shape is Object ==> distinct_names(entries_contents(shape->Object_0@)),
    ensures
        json_contents(value) == shape_contents(shape),
{
    match shape {
        Shape::Null => serde_json::Value::Null,
        Shape::Bool(b) => serde_json::Value::Bool(b),
        Shape::Number(n) => serde_json::Value::from(n),
        Shape::Text(s) => serde_json::Value::String(s),
        Shape::Array(values) => serde_json::Value::Array(values),
        Shape::Object(entries) => serde_json::Value::Object(entries.into_iter().collect()),
    }
}

/// `serde_json::from_str`: whether the text is a document, and which one, depends
/// on the text alone.
#[verifier::external_body]
fn parse_value(text: &str) -> (parsed: Result<serde_json::Value, serde_json::Error>)
    ensures
        json_parsed(text@) == match parsed {
            Ok(value) => Some(json_contents(value)),
            Err(_) => None,
        },
{
    serde_json::from_str::<serde_json::Value>(text)
}

/// `serde_json::to_string_pretty`: the text depends on the document alone, and
/// `serde_json::from_str` reads the document back from it. There always is a
/// text: it fails only on a `Serialize` that fails or on map keys that are no
/// strings, and a `serde_json::Value` has neither. The documents are kept to
/// unsigned integers, because a fraction may be read back as its neighbour, and
/// to a depth below the limit of `serde_json::from_str`.
#[verifier::external_body]
fn print_value(value: &serde_json::Value) -> (printed: Result<String, serde_json::Error>)
    requires
        writable(json_contents(*value)),
    ensures
        printed is Ok,
        printed->Ok_0@ == json_pretty(json_contents(*value)),
        json_parsed(printed->Ok_0@) == Some(json_contents(*value)),
{
    serde_json::to_string_pretty(value)
}

/// The document that a `serde_json::Value` is.
fn from_value(value: serde_json::Value) -> (json: Json)
    ensures
        json@ == json_contents(value),
    decreases json_contents(value),
{
    match open_value(value) {
        Shape::Null => Json::Null,
        Shape::Bool(b) => Json::Bool(b),
        Shape::Number(n) => Json::Number(n),
        Shape::Text(s) => Json::Text(s),
        Shape::Array(values) => {
            let ghost whole = json_contents(value);
            let mut items: Vec<Json> = Vec::new();
            for v in it: values
                invariant
                    it.seq() == values@,
                    whole == json_contents(value),
                    whole == JsonView::Array(values_contents(values@)),
                    items_view(items@) == values_contents(values@).take(it.index()),
            {
                assert(json_contents(v) == whole->Array_0[it.index()]);
                let ghost before = items@;
                items.push(from_value(v));
                assert(items_view(items@) =~= items_view(before).push(json_contents(v)));
                assert(items_view(items@) =~= values_contents(values@).take(it.index() + 1));
            }
            assert(values_contents(values@).take(values@.len() as int) =~= values_contents(
                values@,
            ));
            proof {
                lemma_array_view(items);
            }
            Json::Array(items)
        },
        Shape::Object(entries) => {
            let ghost whole = json_contents(value);
            let mut fields: Vec<(String, Json)> = Vec::new();
            for entry in it: entries
                invariant
                    it.seq() == entries@,
                    whole == json_contents(value),
                    whole == JsonView::Object(entries_contents(entries@)),
                    fields_view(fields@) == entries_contents(entries@).take(it.index()),
            {
                let (name, v) = entry;
                assert(json_contents(v) == whole->Object_0[it.index()].1);
                let ghost before = fields@;
                fields.push((name, from_value(v)));
                assert(fields_view(fields@) =~= fields_view(before).push(
                    (name@, json_contents(v)),
                ));
                assert(fields_view(fields@) =~= entries_contents(entries@).take(it.index() + 1));
            }
            assert(entries_contents(entries@).take(entries@.len() as int) =~= entries_contents(
                entries@,
            ));
            proof {
                lemma_object_view(fields);
            }
            Json::Object(fields)
        },
    }
}

/// The `serde_json::Value` that a document is.
fn to_value(json: &Json, Ghost(depth): Ghost<nat>) -> (value: serde_json::Value)
    requires
        plain_document(json@, depth),
    ensures
        json_contents(value) == json@,
    decreases json,
{
    match json {
        Json::Null => close_value(Shape::Null),
        Json::Bool(b) => close_value(Shape::Bool(*b)),
        Json::Number(n) => close_value(Shape::Number(*n)),
        Json::Text(s) => close_value(Shape::Text(s.clone())),
        Json::Array(items) => {
            proof {
                lemma_array_view(*items);
            }
            let mut values: Vec<serde_json::Value> = Vec::new();
            for i in 0..items.len()
                invariant
                    json == Json::Array(*items),
                    json@ == JsonView::Array(items_view(items@)),
                    plain_document(json@, depth),
                    values_contents(values@) == items_view(items@).take(i as int),
            {
                assert(items_view(items@)[i as int] == items@[i as int]@);
                assert(json@->Array_0[i as int] == items@[i as int]@);
                let ghost before = values@;
                values.push(to_value(&items[i], Ghost((depth - 1) as nat)));
                assert(values_contents(values@) =~= values_contents(before).push(
                    items@[i as int]@,
                ));
                assert(values_contents(values@) =~= items_view(items@).take(i + 1));
            }
            assert(items_view(items@).take(items@.len() as int) =~= items_view(items@));
            close_value(Shape::Array(values))
        },
        Json::Object(fields) => {
            proof {
                lemma_object_view(*fields);
            }
            let mut entries: Vec<(String, serde_json::Value)> = Vec::new();
            for i in 0..fields.len()
                invariant
                    json == Json::Object(*fields),
                    json@ == JsonView::Object(fields_view(fields@)),
                    plain_document(json@, depth),
                    entries_contents(entries@) == fields_view(fields@).take(i as int),
            {
                assert(fields_view(fields@)[i as int] == (
                    fields@[i as int].0@,
                    fields@[i as int].1@,
                ));
                let ghost before = entries@;
                entries.push(
                    (fields[i].0.clone(), to_value(&fields[i].1, Ghost((depth - 1) as nat))),
                );
                assert(entries_contents(entries@) =~= entries_contents(before).push(
                    fields_view(fields@)[i as int],
                ));
                assert(entries_contents(entries@) =~= fields_view(fields@).take(i + 1));
            }
            assert(fields_view(fields@).take(fields@.len() as int) =~= fields_view(fields@));
            close_value(Shape::Object(entries))
        },
    }
}

/// The document that `text` holds, if it holds one.
pub fn parse_json(text: &str) -> (json: Option<Json>)
    ensures
        json_parsed(text@) == match json {
            Some(j) => Some(j@),
            None => None,
        },
{
    match parse_value(text) {
        Ok(value) => Some(from_value(value)),
        Err(_) => None,
    }
}

/// The document as indented text, which is read back as the same document.
pub fn print_json(json: &Json) -> (text: String)
    requires
        writable(json@),
    ensures
        text@ == json_pretty(json@),
        json_parsed(text@) == Some(json@),
{
    let value = to_value(json, Ghost(MAX_DEPTH as nat));
    match print_value(&value) {
        Ok(text) => text,
        Err(_) => String::new(),
    }
}

} // verus!
