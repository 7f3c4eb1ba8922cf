//! JSON values as the library reads them.

use crate::text::same;
use vstd::prelude::*;

verus! {

/// A JSON value. The fields of an object stand in the order of the parser.
#[derive(Debug, PartialEq, Eq)]
pub enum Json {
    Null,
    Bool(bool),
    /// A number as it is printed, and its value where it is an integer.
    Number { text: String, unsigned: Option<u64>, signed: Option<i64> },
    Text(String),
    Array(Vec<Json>),
    Object(Vec<(String, Json)>),
}

#[verifier::external_type_specification]
#[verifier::external_body]
pub struct ExValue(serde_json::Value);

/// The value that `serde_json::from_str` reads in a text, where it is JSON.
pub uninterp spec fn parsed_json(text: Seq<char>) -> Option<Json>;

/// The value that `serde_json::from_slice` reads in bytes, where they are JSON.
pub uninterp spec fn parsed_json_bytes(bytes: Seq<u8>) -> Option<Json>;

/// A `serde_json::Value`, part by part. Nothing is claimed of it here: the
/// functions that parse name what they return.
#[verifier::external_body]
fn json_value(value: serde_json::Value) -> (r: Json) {
    match value {
        serde_json::Value::Null => Json::Null,
        serde_json::Value::Bool(flag) => Json::Bool(flag),
        serde_json::Value::Number(number) => Json::Number {
            text: number.to_string(),
            unsigned: number.as_u64(),
            signed: number.as_i64(),
        },
        serde_json::Value::String(text) => Json::Text(text),
        serde_json::Value::Array(items) => Json::Array(items.into_iter().map(json_value).collect()),
        serde_json::Value::Object(fields) => Json::Object(
            fields.into_iter().map(|(key, value)| (key, json_value(value))).collect(),
        ),
    }
}

/// `serde_json::from_str`: the value of a JSON text, or nothing where the text
/// is not JSON. The result depends on the text alone.
#[verifier::external_body]
pub(crate) fn parse_json(text: &str) -> (r: Option<Json>)
    ensures
        r == parsed_json(text@),
{
    serde_json::from_str::<serde_json::Value>(text).ok().map(json_value)
}

/// `serde_json::from_slice`: the value of JSON bytes, or nothing where the
/// bytes are not JSON. The result depends on the bytes alone.
#[verifier::external_body]
pub(crate) fn parse_json_bytes(bytes: &[u8]) -> (r: Option<Json>)
    ensures
        r == parsed_json_bytes(bytes@),
{
    serde_json::from_slice::<serde_json::Value>(bytes).ok().map(json_value)
}

/// The first field of that name from `i` on.
pub open spec fn field_index(fields: Seq<(String, Json)>, key: Seq<char>, i: int) -> Option<int>
    decreases fields.len() - i,
{
    if i < 0 || i >= fields.len() {
        None
    } else if fields[i].0@ == key {
        Some(i)
    } else {
        field_index(fields, key, i + 1)
    }
}

/// The field of an object.
pub open spec fn lookup(value: Json, key: Seq<char>) -> Option<Json> {
    match value {
        Json::Object(fields) => match field_index(fields@, key, 0) {
            Some(i) => Some(fields@[i].1),
            None => None,
        },
        _ => None,
    }
}

/// The text of a field of an object.
pub open spec fn text_field(value: Json, key: Seq<char>) -> Option<Seq<char>> {
    match lookup(value, key) {
        Some(Json::Text(text)) => Some(text@),
        _ => None,
    }
}

/// The text of a field, or nothing.
pub open spec fn text_or_empty(value: Json, key: Seq<char>) -> Seq<char> {
    match text_field(value, key) {
        Some(text) => text,
        None => Seq::empty(),
    }
}

impl Json {
    pub fn get(&self, key: &str) -> (r: Option<&Json>)
        ensures
            match r {
                Some(value) => lookup(*self, key@) == Some(*value),
                None => lookup(*self, key@) is None,
            },
    {
        match self {
            Json::Object(fields) => {
                let mut i: usize = 0;
                while i < fields.len()
                    invariant
                        i <= fields@.len(),
                        *self == Json::Object(*fields),
                        field_index(fields@, key@, 0) == field_index(fields@, key@, i as int),
                    decreases fields@.len() - i,
                {
                    if same(fields[i].0.as_str(), key) {
                        return Some(&fields[i].1);
                    }
                    i = i + 1;
                }
                None
            },
            _ => None,
        }
    }

    pub fn get_text(&self, key: &str) -> (r: Option<&str>)
        ensures
            match r {
                Some(text) => text_field(*self, key@) == Some(text@),
                None => text_field(*self, key@) is None,
            },
    {
        match self.get(key) {
            Some(Json::Text(text)) => Some(text.as_str()),
            _ => None,
        }
    }

    /// The text of a field, empty where there is none.
    pub fn get_text_or_empty(&self, key: &str) -> (r: String)
        ensures
            r@ == text_or_empty(*self, key@),
    {
        match self.get_text(key) {
            Some(text) => text.to_owned(),
            None => {
                let empty: Vec<char> = Vec::new();
                proof {
                    assert(empty@ =~= Seq::empty());
                }
                crate::text::string_of(&empty)
            },
        }
    }
}

} // verus!
