//! JSON documents as the shell reads and writes them.
//!
//! `serde_json` does the parsing and the quoting; a document is spoken of
//! through [`JsonView`], the tree that it stands for.

use vstd::prelude::*;

verus! {

/// What a JSON document stands for. Object members carry no order.
pub enum JsonView {
    Null,
    Bool(bool),
    /// A number, by its text.
    Number(Seq<char>),
    Text(Seq<char>),
    List(Seq<JsonView>),
    Object(Map<Seq<char>, JsonView>),
}

#[verifier::external_type_specification]
#[verifier::external_body]
pub struct ExJsonValue(serde_json::Value);

/// The tree that a `serde_json::Value` holds.
pub uninterp spec fn json_view(value: serde_json::Value) -> JsonView;

/// What `serde_json::from_str` reads from a text: `None` where it refuses.
pub uninterp spec fn json_parse(text: Seq<char>) -> Option<JsonView>;

/// The JSON text that `serde_json::to_string` writes for a string.
pub uninterp spec fn json_quoted(text: Seq<char>) -> Seq<char>;

impl JsonView {
    /// The member called `key`, where the document is an object that has one.
    pub open spec fn member(self, key: Seq<char>) -> Option<JsonView> {
        match self {
            JsonView::Object(members) => if members.dom().contains(key) {
                Some(members[key])
            } else {
                None
            },
            _ => None,
        }
    }

    /// The string that the document is, where it is one.
    pub open spec fn text(self) -> Option<Seq<char>> {
        match self {
            JsonView::Text(text) => Some(text),
            _ => None,
        }
    }

    /// The string member called `key`.
    pub open spec fn text_member(self, key: Seq<char>) -> Option<Seq<char>> {
        match self.member(key) {
            Some(member) => member.text(),
            None => None,
        }
    }
}

/// The members of an object built from `entries`; of equal names the last
/// counts.
pub open spec fn members_of(entries: Seq<(String, serde_json::Value)>) -> Map<Seq<char>, JsonView>
    decreases entries.len(),
{
    if entries.len() == 0 {
        Map::empty()
    } else {
        members_of(entries.drop_last()).insert(entries.last().0@, json_view(entries.last().1))
    }
}

/// Reads a document, by `serde_json::from_str`.
///
/// Trusted of it: whether a text is read, and the tree that is read from it,
/// are a function of the text.
#[verifier::external_body]
pub(crate) fn parse(text: &str) -> (value: Option<serde_json::Value>)
    ensures
        value is Some <==> json_parse(text@) is Some,
        value matches Some(found) ==> json_parse(text@) == Some(json_view(found)),
{
    serde_json::from_str(text).ok()
}

/// The member of an object called `key`, by `serde_json::Value::get`.
#[verifier::external_body]
pub(crate) fn member<'a>(value: &'a serde_json::Value, key: &str) -> (found: Option<
    &'a serde_json::Value,
>)
    ensures
        found is Some <==> json_view(*value).member(key@) is Some,
        found matches Some(member) ==> json_view(*value).member(key@) == Some(json_view(*member)),
{
    value.get(key)
}

/// The string that a value is, by `serde_json::Value::as_str`.
#[verifier::external_body]
pub(crate) fn text_of(value: &serde_json::Value) -> (found: Option<&str>)
    ensures
        found is Some <==> json_view(*value).text() is Some,
        found matches Some(text) ==> json_view(*value).text() == Some(text@),
{
    value.as_str()
}

/// A copy of a value, by its `Clone`.
#[verifier::external_body]
pub(crate) fn copy(value: &serde_json::Value) -> (same: serde_json::Value)
    ensures
        json_view(same) == json_view(*value),
{
    value.clone()
}

/// An empty list: `serde_json::Value::Array` of no values.
#[verifier::external_body]
pub(crate) fn empty_list() -> (list: serde_json::Value)
    ensures
        json_view(list) == JsonView::List(seq![]),
{
    serde_json::Value::Array(Vec::new())
}

/// A string: `serde_json::Value::String`.
#[verifier::external_body]
pub(crate) fn text_value(text: String) -> (value: serde_json::Value)
    ensures
        json_view(value) == JsonView::Text(text@),
{
    serde_json::Value::String(text)
}

/// An object: `serde_json::Value::Object` of a `serde_json::Map` collected
/// from `entries`.
#[verifier::external_body]
pub(crate) fn object(entries: Vec<(String, serde_json::Value)>) -> (value: serde_json::Value)
    ensures
        json_view(value) == JsonView::Object(members_of(entries@)),
{
    serde_json::Value::Object(entries.into_iter().collect())
}

/// The JSON text of a string, by `serde_json::to_string`.
///
/// Trusted of it: writing a string does not fail, the written text is a
/// function of the string, and reading it gives the string back. How
/// characters are escaped is left unsaid.
#[verifier::external_body]
pub(crate) fn quoted(text: &str) -> (written: String)
    ensures
        written@ == json_quoted(text@),
        json_parse(written@) == Some(JsonView::Text(text@)),
{
    serde_json::to_string(text).expect("a string serializes")
}

/// The string member of an object called `key`.
pub fn text_member(value: &serde_json::Value, key: &str) -> (found: Option<String>)
    ensures
        found is Some <==> json_view(*value).text_member(key@) is Some,
        found matches Some(text) ==> json_view(*value).text_member(key@) == Some(text@),
{
    match member(value, key) {
        Some(inner) => match text_of(inner) {
            Some(text) => Some(text.to_owned()),
            None => None,
        },
        None => None,
    }
}

} // verus!
