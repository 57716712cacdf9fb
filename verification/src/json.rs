//! JSON documents, which the configuration files hold. The library works on
//! [`Json`], whose mathematical value is a [`JsonView`].

use crate::text::same_text;
use vstd::prelude::*;

verus! {

/// The mathematical value of a JSON document. Of a number it keeps the unsigned
/// 64-bit integer that the number is, if it is one.
pub enum JsonView {
    Null,
    Bool(bool),
    Number(Option<u64>),
    Text(Seq<char>),
    Array(Seq<JsonView>),
    Object(Seq<(Seq<char>, JsonView)>),
}

/// The value of the first field called `key`.
pub open spec fn field(fields: Seq<(Seq<char>, JsonView)>, key: Seq<char>) -> Option<JsonView>
    decreases fields.len(),
{
    if fields.len() == 0 {
        None
    } else if fields[0].0 == key {
        Some(fields[0].1)
    } else {
        field(fields.skip(1), key)
    }
}

impl JsonView {
    /// The field `key` of an object; nothing else has fields.
    pub open spec fn get(self, key: Seq<char>) -> Option<JsonView> {
        match self {
            JsonView::Object(fields) => field(fields, key),
            _ => None,
        }
    }

    /// The elements of an array.
    pub open spec fn as_array(self) -> Option<Seq<JsonView>> {
        match self {
            JsonView::Array(items) => Some(items),
            _ => None,
        }
    }

    /// The text of a string.
    pub open spec fn as_str(self) -> Option<Seq<char>> {
        match self {
            JsonView::Text(text) => Some(text),
            _ => None,
        }
    }

    /// The truth value of a boolean.
    pub open spec fn as_bool(self) -> Option<bool> {
        match self {
            JsonView::Bool(b) => Some(b),
            _ => None,
        }
    }

    /// The unsigned integer that a number is.
    pub open spec fn as_u64(self) -> Option<u64> {
        match self {
            JsonView::Number(n) => n,
            _ => None,
        }
    }

    /// The text of the string field `key`.
    pub open spec fn get_str(self, key: Seq<char>) -> Option<Seq<char>> {
        match self.get(key) {
            Some(value) => value.as_str(),
            None => None,
        }
    }
}

/// A JSON document.
#[derive(Debug, PartialEq, Eq)]
pub enum Json {
    Null,
    Bool(bool),
    /// A number, with the unsigned 64-bit integer that it is, if it is one.
    Number(Option<u64>),
    Text(String),
    Array(Vec<Json>),
    /// An object: its fields in the order in which they are written.
    Object(Vec<(String, Json)>),
}

/// The value of a document.
pub open spec fn json_view(json: Json) -> JsonView
    decreases json,
{
    match json {
        Json::Null => JsonView::Null,
        Json::Bool(b) => JsonView::Bool(b),
        Json::Number(n) => JsonView::Number(n),
        Json::Text(s) => JsonView::Text(s@),
        Json::Array(items) => JsonView::Array(
            Seq::new(
                items@.len(),
                |i: int|
                    if 0 <= i < items@.len() {
                        json_view(items@[i])
                    } else {
                        JsonView::Null
                    },
            ),
        ),
        Json::Object(fields) => JsonView::Object(
            Seq::new(
                fields@.len(),
                |i: int|
                    if 0 <= i < fields@.len() {
                        (fields@[i].0@, json_view(fields@[i].1))
                    } else {
                        (Seq::empty(), JsonView::Null)
                    },
            ),
        ),
    }
}

impl View for Json {
    type V = JsonView;

    open spec fn view(&self) -> JsonView {
        json_view(*self)
    }
}

/// The values of some documents.
pub open spec fn items_view(items: Seq<Json>) -> Seq<JsonView> {
    items.map_values(|item: Json| item@)
}

/// The values of some fields.
pub open spec fn fields_view(fields: Seq<(String, Json)>) -> Seq<(Seq<char>, JsonView)> {
    fields.map_values(|f: (String, Json)| (f.0@, f.1@))
}

/// The value of an array is made of the values of its elements.
pub proof fn lemma_array_view(items: Vec<Json>)
    ensures
        Json::Array(items)@ == JsonView::Array(items_view(items@)),
{
    reveal_with_fuel(json_view, 2);
    let array = Json::Array(items)@->Array_0;
    assert forall|i: int| 0 <= i < items@.len() implies array[i] == items_view(items@)[i] by {
        assert(items_view(items@)[i] == json_view(items@[i]));
    }
    assert(array =~= items_view(items@));
}

/// The value of an object is made of the values of its fields.
pub proof fn lemma_object_view(fields: Vec<(String, Json)>)
    ensures
        Json::Object(fields)@ == JsonView::Object(fields_view(fields@)),
{
    reveal_with_fuel(json_view, 2);
    let object = Json::Object(fields)@->Object_0;
    assert forall|i: int| 0 <= i < fields@.len() implies object[i] == fields_view(fields@)[i] by {
        assert(fields_view(fields@)[i] == (fields@[i].0@, json_view(fields@[i].1)));
    }
    assert(object =~= fields_view(fields@));
}

impl Json {
    /// The field `key` of an object.
    pub fn get(&self, key: &str) -> (value: Option<&Json>)
        ensures
            match value {
                Some(json) => self@.get(key@) == Some(json@),
                None => self@.get(key@) is None,
            },
    {
        match self {
            Json::Object(fields) => {
                proof {
                    lemma_object_view(*fields);
                }
                let ghost all = fields_view(fields@);
                assert(all.skip(0) =~= all);
                for i in 0..fields.len()
                    invariant
                        all == fields_view(fields@),
                        self@ == JsonView::Object(all),
                        field(all.skip(i as int), key@) == field(all, key@),
                {
                    assert(all.skip(i as int)[0] == all[i as int]);
                    assert(all.skip(i as int).skip(1) =~= all.skip(i + 1));
                    if same_text(fields[i].0.as_str(), key) {
                        return Some(&fields[i].1);
                    }
                }
                None
            },
            _ => None,
        }
    }

    /// The elements of an array.
    pub fn as_array(&self) -> (items: Option<&Vec<Json>>)
        ensures
            match items {
                Some(v) => self@.as_array() == Some(items_view(v@)),
                None => self@.as_array() is None,
            },
    {
        match self {
            Json::Array(items) => {
                proof {
                    lemma_array_view(*items);
                }
                Some(items)
            },
            _ => None,
        }
    }

    /// The text of a string.
    pub fn as_str(&self) -> (text: Option<&str>)
        ensures
            match text {
                Some(s) => self@.as_str() == Some(s@),
                None => self@.as_str() is None,
            },
    {
        match self {
            Json::Text(text) => Some(text.as_str()),
            _ => None,
        }
    }

    /// The truth value of a boolean.
    pub fn as_bool(&self) -> (b: Option<bool>)
        ensures
            b == self@.as_bool(),
    {
        match self {
            Json::Bool(b) => Some(*b),
            _ => None,
        }
    }

    /// The unsigned integer that a number is.
    pub fn as_u64(&self) -> (n: Option<u64>)
        ensures
            n == self@.as_u64(),
    {
        match self {
            Json::Number(n) => *n,
            _ => None,
        }
    }

    /// The text of the string field `key`.
    pub fn get_str(&self, key: &str) -> (text: Option<&str>)
        ensures
            match text {
                Some(s) => self@.get_str(key@) == Some(s@),
                None => self@.get_str(key@) is None,
            },
    {
        match self.get(key) {
            Some(value) => value.as_str(),
            None => None,
        }
    }

    /// A string.
    pub fn text(s: &str) -> (json: Json)
        ensures
            json@ == JsonView::Text(s@),
    {
        Json::Text(s.to_owned())
    }
}

/// An object under construction: fields are added at its end.
pub struct Fields {
    fields: Vec<(String, Json)>,
}

impl View for Fields {
    type V = Seq<(Seq<char>, JsonView)>;

    closed spec fn view(&self) -> Seq<(Seq<char>, JsonView)> {
        fields_view(self.fields@)
    }
}

impl Fields {
    /// No fields.
    pub fn new() -> (fields: Fields)
        ensures
            fields@ == Seq::<(Seq<char>, JsonView)>::empty(),
    {
        let fields = Fields { fields: Vec::new() };
        assert(fields@ =~= Seq::empty());
        fields
    }

    /// One field more.
    pub fn with(self, key: &str, value: Json) -> (longer: Fields)
        ensures
            longer@ == self@.push((key@, value@)),
    {
        let mut fields = self.fields;
        fields.push((key.to_owned(), value));
        let longer = Fields { fields };
        assert(longer@ =~= self@.push((key@, value@)));
        longer
    }

    /// One field more, which holds a string.
    pub fn with_text(self, key: &str, text: &str) -> (longer: Fields)
        ensures
            longer@ == self@.push((key@, JsonView::Text(text@))),
    {
        self.with(key, Json::text(text))
    }

    /// The object with these fields.
    pub fn object(self) -> (json: Json)
        ensures
            json@ == JsonView::Object(self@),
    {
        proof {
            lemma_object_view(self.fields);
        }
        Json::Object(self.fields)
    }
}

/// An array under construction: elements are added at its end.
pub struct Items {
    items: Vec<Json>,
}

impl View for Items {
    type V = Seq<JsonView>;

    closed spec fn view(&self) -> Seq<JsonView> {
        items_view(self.items@)
    }
}

impl Items {
    /// No elements.
    pub fn new() -> (items: Items)
        ensures
            items@ == Seq::<JsonView>::empty(),
    {
        let items = Items { items: Vec::new() };
        assert(items@ =~= Seq::empty());
        items
    }

    /// One element more.
    pub fn with(self, item: Json) -> (longer: Items)
        ensures
            longer@ == self@.push(item@),
    {
        let mut items = self.items;
        items.push(item);
        let longer = Items { items };
        assert(longer@ =~= self@.push(item@));
        longer
    }

    /// One element more, which is a string.
    pub fn with_text(self, text: &str) -> (longer: Items)
        ensures
            longer@ == self@.push(JsonView::Text(text@)),
    {
        self.with(Json::text(text))
    }

    /// The array of these elements.
    pub fn array(self) -> (json: Json)
        ensures
            json@ == JsonView::Array(self@),
    {
        proof {
            lemma_array_view(self.items);
        }
        Json::Array(self.items)
    }
}

} // verus!
