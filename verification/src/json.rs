//! JSON documents, read and written by `serde_json`.

use serde_json::{Error, Value};
use vstd::prelude::*;

verus! {

#[verifier::external_type_specification]
#[verifier::external_body]
pub struct ExValue(serde_json::Value);

#[verifier::external_type_specification]
#[verifier::external_body]
pub struct ExJsonError(serde_json::Error);

/// The value of one member of an object that is to be written.
pub enum Scalar {
    Text(String),
    Int(i64),
}

/// One member of an object that is to be written.
pub struct Member {
    pub key: String,
    pub value: Scalar,
}

/// The value of a member, as a mathematical value.
pub enum ScalarView {
    Text(Seq<char>),
    Int(int),
}

impl View for Scalar {
    type V = ScalarView;

    open spec fn view(&self) -> ScalarView {
        match self {
            Scalar::Text(s) => ScalarView::Text(s@),
            Scalar::Int(n) => ScalarView::Int(*n as int),
        }
    }
}

impl View for Member {
    type V = (Seq<char>, ScalarView);

    open spec fn view(&self) -> (Seq<char>, ScalarView) {
        (self.key@, self.value@)
    }
}

/// The views of a list of members.
pub open spec fn members_view(members: Seq<Member>) -> Seq<(Seq<char>, ScalarView)> {
    members.map_values(|m: Member| m@)
}

/// The members whose value is a string, where a later member takes the place of an earlier one
/// with the same key.
pub open spec fn string_members(members: Seq<(Seq<char>, ScalarView)>) -> Map<Seq<char>, Seq<char>>
    decreases members.len(),
{
    if members.len() == 0 {
        Map::empty()
    } else {
        let (key, value) = members.last();
        match value {
            ScalarView::Text(s) => string_members(members.drop_last()).insert(key, s),
            ScalarView::Int(_) => string_members(members.drop_last()).remove(key),
        }
    }
}

/// The members of the JSON object `value` whose values are strings; empty where `value` is no
/// object.
pub uninterp spec fn json_strings(value: serde_json::Value) -> Map<Seq<char>, Seq<char>>;

/// The string members of the document that `serde_json::from_str` reads from `text`; `None` where
/// it refuses `text`.
pub uninterp spec fn json_document(text: Seq<char>) -> Option<Map<Seq<char>, Seq<char>>>;

/// The text that `serde_json` writes for the object with these members.
pub uninterp spec fn json_object_text(members: Seq<(Seq<char>, ScalarView)>) -> Seq<char>;

/// `serde_json::from_str` into a `Value`: which texts it takes, and the string members of what it
/// reads, are a function of the text alone. Nothing is claimed of the other members.
#[verifier::external_body]
pub(crate) fn parse_json(text: &str) -> (r: Result<Value, Error>)
    ensures
        r is Ok <==> json_document(text@) is Some,
        r matches Ok(value) ==> json_document(text@) == Some(json_strings(value)),
{
    serde_json::from_str::<Value>(text)
}

/// `serde_json::Value::get`, with the member that it finds taken as a string by `Value::as_str`:
/// the string under `key`, and `None` where `value` has no such member or it is no string.
#[verifier::external_body]
pub(crate) fn string_member<'a>(value: &'a Value, key: &str) -> (r: Option<&'a str>)
    ensures
        r is Some <==> json_strings(*value).contains_key(key@),
        r matches Some(s) ==> s@ == json_strings(*value)[key@],
{
    value.get(key).and_then(Value::as_str)
}

/// `serde_json::Value::to_string` of an object with the given members: a function of the members
/// alone, and reading the text gives the string members back.
#[verifier::external_body]
pub(crate) fn object_text(members: &Vec<Member>) -> (text: String)
    ensures
        text@ == json_object_text(members_view(members@)),
        json_document(text@) == Some(string_members(members_view(members@))),
{
    let mut object = serde_json::Map::new();
    for m in members {
        object.insert(m.key.clone(), match &m.value {
            Scalar::Text(s) => Value::from(s.as_str()),
            Scalar::Int(n) => Value::from(*n),
        });
    }
    Value::Object(object).to_string()
}

}
