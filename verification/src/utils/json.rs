//! JSON objects as this library reads and writes them: a list of named
//! members, of which only those that hold a text are looked into.

use vstd::prelude::*;
use vstd::string::StringExecFns;
use crate::utils::search::first_where;

verus! {

/// One member of an object: its name, and its text where its value is a
/// JSON string (`None` stands for any other value).
pub type MemberView = (Seq<char>, Option<Seq<char>>);

/// The members of one JSON object. The readers of this module hand the
/// members out sorted by name, each name once, with the value that the
/// document gave it last; an object that is put together by hand may hold
/// them in any order and a name more than once, and then the first member of
/// a name is the one that is found.
#[derive(Debug)]
pub struct JsonObject {
    pub members: Vec<(String, Option<String>)>,
}

impl View for JsonObject {
    type V = Seq<MemberView>;

    open spec fn view(&self) -> Seq<MemberView> {
        self.members.deep_view()
    }
}

/// The views of a list of objects.
pub open spec fn object_views(objects: Seq<JsonObject>) -> Seq<Seq<MemberView>> {
    objects.map_values(|object: JsonObject| object@)
}

/// The index of the first member named `key`, or the number of members where
/// none has that name.
pub open spec fn member_index(members: Seq<MemberView>, key: Seq<char>) -> int {
    first_where(members, |member: MemberView| member.0 == key, 0)
}

/// The value of the first member named `key`: `None` where no member has
/// that name, `Some(None)` where the value is no text.
pub open spec fn member(members: Seq<MemberView>, key: Seq<char>) -> Option<Option<Seq<char>>> {
    if member_index(members, key) < members.len() {
        Some(members[member_index(members, key)].1)
    } else {
        None
    }
}

/// The text of the first member named `key`, where there is such a member
/// and it holds a text.
pub open spec fn member_text(members: Seq<MemberView>, key: Seq<char>) -> Option<Seq<char>> {
    match member(members, key) {
        Some(Some(text)) => Some(text),
        _ => None,
    }
}

/// The members of the object that the JSON document `text` holds; `None`
/// where `text` is no JSON document or the document is no object. Only
/// `serde_json` says what this is on a given text.
pub uninterp spec fn json_object_parsed(text: Seq<char>) -> Option<Seq<MemberView>>;

/// The objects of the array that the JSON document `text` holds; `None`
/// where `text` is no JSON document, or no array, or one of its items is no
/// object. Only `serde_json` says what this is on a given text.
pub uninterp spec fn json_object_list_parsed(text: Seq<char>) -> Option<Seq<Seq<MemberView>>>;

/// The indented JSON text of the array of the given objects, as `serde_json`
/// writes it.
pub uninterp spec fn json_object_list_rendered(objects: Seq<Seq<MemberView>>) -> Seq<char>;

/// `serde_json::Error`, handed on as it comes.
#[verifier::external_type_specification]
#[verifier::external_body]
pub struct ExJsonError(serde_json::Error);

/// Reads one JSON object with `serde_json::from_str`, asked for a
/// `serde_json::Map`, and keeps of each member its name and, where
/// `Value::as_str` gives one, its text. The error is the one that
/// `serde_json` gave. The contract names the outcome and claims no more than
/// that the same text is always read the same way.
#[verifier::external_body]
pub(crate) fn parse_object(text: &str) -> (parsed: Result<JsonObject, serde_json::Error>)
    ensures
        match parsed {
            Ok(object) => json_object_parsed(text@) == Some(object@),
            Err(_) => json_object_parsed(text@) is None,
        },
{
    serde_json::from_str::<serde_json::Map<String, serde_json::Value>>(text).map(
        |map| JsonObject {
            members: map.into_iter().map(|(key, value)| (key, value.as_str().map(String::from))).collect(),
        },
    )
}

/// Reads a JSON array of objects with `serde_json::from_str`, asked for a
/// `Vec` of `serde_json::Map`, and keeps of each member what `parse_object`
/// keeps. The contract names the outcome in the same way.
#[verifier::external_body]
pub(crate) fn parse_object_list(text: &str) -> (parsed: Result<Vec<JsonObject>, serde_json::Error>)
    ensures
        match parsed {
            Ok(objects) => json_object_list_parsed(text@) == Some(object_views(objects@)),
            Err(_) => json_object_list_parsed(text@) is None,
        },
{
    serde_json::from_str::<Vec<serde_json::Map<String, serde_json::Value>>>(text).map(
        |maps| maps.into_iter().map(
            |map| JsonObject {
                members: map.into_iter().map(|(key, value)| (key, value.as_str().map(String::from))).collect(),
            },
        ).collect(),
    )
}

/// Writes the objects as one indented JSON array with
/// `serde_json::to_string_pretty`; a member without a text is written as
/// `null`. The contract names the text, and says that there is one:
/// `serde_json` fails to write only what refuses to be written or has maps
/// with keys that are no texts, and lists of maps from texts to texts or
/// `null` are neither.
#[verifier::external_body]
pub(crate) fn render_object_list(objects: &Vec<JsonObject>) -> (rendered: Result<String, serde_json::Error>)
    ensures
        rendered is Ok,
        rendered matches Ok(text) ==> text@ == json_object_list_rendered(object_views(objects@)),
{
    let maps: Vec<serde_json::Map<String, serde_json::Value>> = objects.iter().map(
        |object| object.members.iter().map(
            |(key, text)| (key.clone(), serde_json::Value::from(text.clone())),
        ).collect(),
    ).collect();
    serde_json::to_string_pretty(&maps)
}

/// An error of `serde_json` that carries `message`, made by its
/// `serde::de::Error::custom`. Nothing is claimed of it.
#[verifier::external_body]
pub(crate) fn json_error(message: &str) -> serde_json::Error {
    <serde_json::Error as serde::de::Error>::custom(message)
}

/// What `serde_json` says of one of its errors, by the error's `to_string`.
/// Nothing is claimed of the text.
#[verifier::external_body]
pub(crate) fn json_error_text(error: &serde_json::Error) -> String {
    error.to_string()
}

impl JsonObject {
    /// The value of the first member named `key`.
    pub fn get(&self, key: &str) -> (found: Option<&Option<String>>)
        ensures
            found.deep_view() == member(self@, key@),
    {
        let mut at: usize = 0;
        while at < self.members.len()
            invariant
                at <= self.members.len(),
                member_index(self@, key@) == first_where(
                    self@,
                    |member: MemberView| member.0 == key@,
                    at as int,
                ),
            decreases self.members.len() - at,
        {
            if same_text(self.members[at].0.as_str(), key) {
                return Some(&self.members[at].1);
            }
            at = at + 1;
        }
        None
    }

    /// The text of the first member named `key`, where it holds one.
    pub fn get_text(&self, key: &str) -> (found: Option<&String>)
        ensures
            found.deep_view() == member_text(self@, key@),
    {
        match self.get(key) {
            Some(Some(text)) => Some(text),
            _ => None,
        }
    }

    /// A copy of the text of the first member named `key`, or an error that
    /// names the member where it holds none.
    pub fn required_text(&self, key: &str) -> (text: Result<String, serde_json::Error>)
        ensures
            match text {
                Ok(text) => member_text(self@, key@) == Some(text@),
                Err(_) => member_text(self@, key@) is None,
            },
    {
        match self.get_text(key) {
            Some(text) => Ok(text.clone()),
            None => Err(json_error(String::from_str("no text in the member ").concat(key).as_str())),
        }
    }
}

/// Whether two texts hold the same characters.
pub fn same_text(a: &str, b: &str) -> (same: bool)
    ensures
        same == (a@ == b@),
{
    a.to_owned() == b.to_owned()
}

} // verus!
