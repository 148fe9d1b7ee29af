//! JSON documents as the decoder reads them.

use vstd::prelude::*;
use crate::text::str_eq;

verus! {

/// A JSON document. Of a number the decoder reads only whether it is an
/// integer that fits in 64 bits, and which.
#[derive(Debug)]
pub enum Json {
    Null,
    Bool(bool),
    Number(Option<i64>),
    Text(String),
    Array(Vec<Json>),
    Object(Vec<(String, Json)>),
}

/// What a [`Json`] holds, with texts and lists as sequences.
pub enum JsonView {
    Null,
    Bool(bool),
    Number(Option<i64>),
    Text(Seq<char>),
    Array(Seq<JsonView>),
    Object(Seq<(Seq<char>, JsonView)>),
}

impl Json {
    /// What the document holds.
    pub open spec fn content(&self) -> JsonView
        decreases self,
    {
        match self {
            Json::Null => JsonView::Null,
            Json::Bool(value) => JsonView::Bool(*value),
            Json::Number(value) => JsonView::Number(*value),
            Json::Text(value) => JsonView::Text(value@),
            Json::Array(items) => JsonView::Array(
                Seq::new(
                    items@.len(),
                    |i: int|
                        if 0 <= i < items@.len() {
                            items@[i].content()
                        } else {
                            JsonView::Null
                        },
                ),
            ),
            Json::Object(fields) => JsonView::Object(
                Seq::new(
                    fields@.len(),
                    |i: int|
                        if 0 <= i < fields@.len() {
                            (fields@[i].0@, fields@[i].1.content())
                        } else {
                            (Seq::empty(), JsonView::Null)
                        },
                ),
            ),
        }
    }
}

impl View for Json {
    type V = JsonView;

    open spec fn view(&self) -> JsonView {
        self.content()
    }
}

/// The value under the first field of the list that has the name.
pub open spec fn field_of(fields: Seq<(Seq<char>, JsonView)>, name: Seq<char>) -> Option<JsonView>
    decreases fields.len(),
{
    if fields.len() == 0 {
        None
    } else if fields[0].0 == name {
        Some(fields[0].1)
    } else {
        field_of(fields.drop_first(), name)
    }
}

impl JsonView {
    /// The value of the named field, where this is an object that has it.
    pub open spec fn field(self, name: Seq<char>) -> Option<JsonView> {
        match self {
            JsonView::Object(fields) => field_of(fields, name),
            _ => None,
        }
    }

    /// The text, where this is a string.
    pub open spec fn text(self) -> Option<Seq<char>> {
        match self {
            JsonView::Text(value) => Some(value),
            _ => None,
        }
    }

    /// The number, where this is an integer that fits in 32 bits.
    pub open spec fn int32(self) -> Option<i32> {
        match self {
            JsonView::Number(Some(value)) => if i32::MIN <= value <= i32::MAX {
                Some(value as i32)
            } else {
                None
            },
            _ => None,
        }
    }

    /// The items, where this is an array.
    pub open spec fn items(self) -> Option<Seq<JsonView>> {
        match self {
            JsonView::Array(items) => Some(items),
            _ => None,
        }
    }
}

/// The view of an array is the array of its items' views.
pub proof fn lemma_array_view(json: Json)
    requires
        json is Array,
    ensures
        json@ is Array,
        json@->Array_0 == (json->Array_0)@.map_values(|item: Json| item@),
{
    reveal_with_fuel(Json::content, 2);
    assert(json@->Array_0 =~= (json->Array_0)@.map_values(|item: Json| item@));
}

/// The view of an object is the list of its fields' views.
pub proof fn lemma_object_view(json: Json)
    requires
        json is Object,
    ensures
        json@ is Object,
        json@->Object_0.len() == (json->Object_0)@.len(),
        forall|i: int|
            0 <= i < (json->Object_0)@.len() ==> #[trigger] json@->Object_0[i] == (
                (json->Object_0)@[i].0@,
                (json->Object_0)@[i].1@,
            ),
{
    reveal_with_fuel(Json::content, 2);
}

impl Json {
    /// The value of the named field, where this is an object that has it.
    /// Of two fields with one name the first is read.
    pub fn get(&self, name: &str) -> (found: Option<&Json>)
        ensures
            match found {
                Some(value) => self@.field(name@) == Some(value@),
                None => self@.field(name@) is None,
            },
    {
        match self {
            Json::Object(fields) => {
                let ghost all = self@->Object_0;
                proof {
                    lemma_object_view(*self);
                    assert(all.skip(0) =~= all);
                }
                let mut at: usize = 0;
                while at < fields.len()
                    invariant
                        at <= fields@.len(),
                        self@ == JsonView::Object(all),
                        all.len() == fields@.len(),
                        forall|i: int|
                            0 <= i < fields@.len() ==> #[trigger] all[i] == (
                                fields@[i].0@,
                                fields@[i].1@,
                            ),
                        field_of(all, name@) == field_of(all.skip(at as int), name@),
                    decreases fields@.len() - at,
                {
                    let ghost rest = all.skip(at as int);
                    assert(rest[0] == all[at as int]);
                    assert(all[at as int] == (fields@[at as int].0@, fields@[at as int].1@));
                    assert(rest.drop_first() =~= all.skip(at + 1));
                    if str_eq(fields[at].0.as_str(), name) {
                        return Some(&fields[at].1);
                    }
                    at += 1;
                }
                assert(all.skip(at as int).len() == 0);
                None
            },
            _ => None,
        }
    }

    /// The text, where this is a string.
    pub fn as_text(&self) -> (text: Option<&str>)
        ensures
            match text {
                Some(value) => self@.text() == Some(value@),
                None => self@.text() is None,
            },
    {
        match self {
            Json::Text(value) => Some(value.as_str()),
            _ => None,
        }
    }

    /// The number, where this is an integer that fits in 32 bits.
    pub fn as_i32(&self) -> (number: Option<i32>)
        ensures
            number == self@.int32(),
    {
        match self {
            Json::Number(Some(value)) => {
                if -2147483648 <= *value && *value <= 2147483647 {
                    Some(*value as i32)
                } else {
                    None
                }
            },
            _ => None,
        }
    }

    /// The items, where this is an array.
    pub fn as_array(&self) -> (items: Option<&Vec<Json>>)
        ensures
            match items {
                Some(list) => self@.items() == Some(list@.map_values(|item: Json| item@)),
                None => self@.items() is None,
            },
    {
        match self {
            Json::Array(items) => {
                proof {
                    lemma_array_view(*self);
                }
                Some(items)
            },
            _ => None,
        }
    }
}

/// `serde_json::Value`, the document type of the JSON reader.
#[verifier::external_type_specification]
#[verifier::external_body]
pub struct ExJsonValue(serde_json::Value);

/// The document that a text spells in JSON, as `serde_json::from_str` reads
/// it; `None` where the text is no JSON document.
pub uninterp spec fn parsed_json(text: Seq<char>) -> Option<JsonView>;

/// What a `serde_json::Value` holds: null, a boolean, a number, a string,
/// the items of an array in their order, or the fields of an object in the
/// order in which `serde_json::Map` hands them out. Of a number it holds
/// what `Number::as_i64` gives.
pub uninterp spec fn value_content(value: serde_json::Value) -> JsonView;

/// Calls `serde_json::from_str` for a `serde_json::Value`. The contract
/// claims that what comes back depends on the text alone: a document where
/// the text is JSON, nothing where it is not.
#[verifier::external_body]
fn parse_value(text: &str) -> (parsed: Option<serde_json::Value>)
    ensures
        match parsed {
            Some(value) => parsed_json(text@) == Some(value_content(value)),
            None => parsed_json(text@) is None,
        },
{
    match serde_json::from_str::<serde_json::Value>(text) {
        Ok(value) => Some(value),
        Err(_) => None,
    }
}

/// Moves a `serde_json::Value` into a [`Json`], variant by variant and
/// item by item; a number goes through `Number::as_i64`. The contract
/// claims that nothing is lost or added on the way.
#[verifier::external_body]
fn json_from_value(value: serde_json::Value) -> (json: Json)
    ensures
        json@ == value_content(value),
{
    match value {
        serde_json::Value::Null => Json::Null,
        serde_json::Value::Bool(flag) => Json::Bool(flag),
        serde_json::Value::Number(number) => Json::Number(number.as_i64()),
        serde_json::Value::String(text) => Json::Text(text),
        serde_json::Value::Array(items) => Json::Array(
            items.into_iter().map(json_from_value).collect(),
        ),
        serde_json::Value::Object(fields) => Json::Object(
            fields.into_iter().map(|(name, field)| (name, json_from_value(field))).collect(),
        ),
    }
}

impl Json {
    /// Reads a text as a JSON document; `None` where it is none.
    pub fn parse(text: &str) -> (parsed: Option<Json>)
        ensures
            match parsed {
                Some(json) => parsed_json(text@) == Some(json@),
                None => parsed_json(text@) is None,
            },
    {
        match parse_value(text) {
            Some(value) => Some(json_from_value(value)),
            None => None,
        }
    }
}

} // verus!
