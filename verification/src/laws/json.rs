//! What is found in a document.

use crate::json::{field, fields_view, items_view, lemma_array_view, lemma_object_view, Json,
    JsonView};
use crate::laws::{lemma_field_at, lemma_no_field};
use vstd::prelude::*;

verus! {

/// A field is found by its name, the first of that name, in objects alone.
pub proof fn law_fields_are_found_by_name(doc: JsonView, key: Seq<char>)
    ensures
        doc.get(key) is Some <==> (doc is Object && exists|i: int|
            0 <= i < doc->Object_0.len() && (#[trigger] doc->Object_0[i]).0 == key),
        doc.get(key) matches Some(value) ==> exists|i: int|
            {
                &&& 0 <= i < doc->Object_0.len()
                &&& #[trigger] doc->Object_0[i] == (key, value)
                &&& forall|j: int| 0 <= j < i ==> (#[trigger] doc->Object_0[j]).0 != key
            },
{
    if let JsonView::Object(fields) = doc {
        lemma_first_field(fields, key);
    }
}

proof fn lemma_first_field(fields: Seq<(Seq<char>, JsonView)>, key: Seq<char>)
    ensures
        field(fields, key) is Some <==> exists|i: int|
            0 <= i < fields.len() && (#[trigger] fields[i]).0 == key,
        field(fields, key) matches Some(value) ==> exists|i: int|
            {
                &&& 0 <= i < fields.len()
                &&& #[trigger] fields[i] == (key, value)
                &&& forall|j: int| 0 <= j < i ==> (#[trigger] fields[j]).0 != key
            },
    decreases fields.len(),
{
    if exists|i: int| 0 <= i < fields.len() && (#[trigger] fields[i]).0 == key {
        let i = choose|i: int| 0 <= i < fields.len() && (#[trigger] fields[i]).0 == key;
        lemma_least(fields, key, i);
    } else {
        lemma_no_field(fields, key);
    }
}

proof fn lemma_least(fields: Seq<(Seq<char>, JsonView)>, key: Seq<char>, i: int)
    requires
        0 <= i < fields.len(),
        fields[i].0 == key,
    ensures
        field(fields, key) matches Some(value) && exists|k: int|
            {
                &&& 0 <= k < fields.len()
                &&& #[trigger] fields[k] == (key, value)
                &&& forall|j: int| 0 <= j < k ==> (#[trigger] fields[j]).0 != key
            },
    decreases i,
{
    if exists|j: int| 0 <= j < i && (#[trigger] fields[j]).0 == key {
        let j = choose|j: int| 0 <= j < i && (#[trigger] fields[j]).0 == key;
        lemma_least(fields, key, j);
    } else {
        lemma_field_at(fields, i);
        assert(fields[i] == (key, fields[i].1));
    }
}

/// Each kind of document is read as what it is, and as nothing else.
pub proof fn law_documents_are_read_as_they_are(
    b: bool,
    n: Option<u64>,
    text: Seq<char>,
    items: Seq<JsonView>,
    fields: Seq<(Seq<char>, JsonView)>,
    key: Seq<char>,
)
    ensures
        JsonView::Bool(b).as_bool() == Some(b),
        JsonView::Number(n).as_u64() == n,
        JsonView::Text(text).as_str() == Some(text),
        JsonView::Array(items).as_array() == Some(items),
        JsonView::Text(text).as_bool() is None && JsonView::Text(text).as_array() is None
            && JsonView::Text(text).as_u64() is None && JsonView::Text(text).get(key) is None,
        JsonView::Array(items).as_str() is None && JsonView::Array(items).get(key) is None
            && JsonView::Array(items).as_bool() is None,
        JsonView::Object(fields).as_str() is None && JsonView::Object(fields).as_array() is None
            && JsonView::Object(fields).as_bool() is None && JsonView::Object(fields).as_u64()
            is None,
        JsonView::Number(n).as_str() is None && JsonView::Bool(b).as_str() is None
            && JsonView::Null.as_str() is None,
{
}

/// The value of a document is made of the values of its parts, in their order.
pub proof fn law_values_of_documents(
    b: bool,
    n: Option<u64>,
    text: String,
    items: Vec<Json>,
    fields: Vec<(String, Json)>,
    i: int,
)
    ensures
        Json::Null@ == JsonView::Null,
        Json::Bool(b)@ == JsonView::Bool(b),
        Json::Number(n)@ == JsonView::Number(n),
        Json::Text(text)@ == JsonView::Text(text@),
        Json::Array(items)@ matches JsonView::Array(list) && list.len() == items@.len() && (0 <= i
            < items@.len() ==> list[i] == items@[i]@),
        Json::Object(fields)@ matches JsonView::Object(list) && list.len() == fields@.len() && (0
            <= i < fields@.len() ==> list[i] == (fields@[i].0@, fields@[i].1@)),
{
    lemma_array_view(items);
    lemma_object_view(fields);
    assert(0 <= i < items@.len() ==> items_view(items@)[i] == items@[i]@);
    assert(0 <= i < fields@.len() ==> fields_view(fields@)[i] == (fields@[i].0@, fields@[i].1@));
}

/// The string field of a name is the field of that name, where it is a string.
pub proof fn law_string_fields(doc: JsonView, key: Seq<char>, text: Seq<char>)
    ensures
        doc.get_str(key) == Some(text) <==> doc.get(key) == Some(JsonView::Text(text)),
{
}

} // verus!
