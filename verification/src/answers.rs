//! Reading what the generation and the publication answered.

use crate::item_id::{parse_u32, u32_of};
use vstd::prelude::*;

verus! {

/// What `serde_json` reads as the string member `key` of the JSON object
/// `text`; `None` where it reads no such member: where it takes `text` for no
/// JSON document, the document for no object, or the object to have no
/// member of that name that is a string.
pub uninterp spec fn json_text_member(text: Seq<char>, key: Seq<char>) -> Option<Seq<char>>;

/// Decodes `text` with `serde_json::from_str` into a `serde_json::Value`,
/// looks the member up with `Value::get` and reads it with `Value::as_str`.
/// Nothing is proved of this function: its contract only gives the result of
/// those three calls the name `json_text_member`.
#[verifier::external_body]
fn text_member(text: &str, key: &str) -> (r: Option<String>)
    ensures
        r.deep_view() == json_text_member(text@, key@),
{
    let decoded: Result<serde_json::Value, serde_json::Error> = serde_json::from_str(text);
    match decoded {
        Ok(value) => value.get(key).and_then(|member| member.as_str()).map(|s| s.to_string()),
        Err(_) => None,
    }
}

/// The name of the member that holds the reply identifier in the answer to
/// a publication.
pub open spec fn reply_member() -> Seq<char> {
    "id"@
}

/// The reply identifier that the member of an answer gives: the 32-bit
/// number it spells, where the member is there and spells one.
pub open spec fn reply_id_of(member: Option<Seq<char>>) -> Option<u32> {
    match member {
        Some(text) => u32_of(text),
        None => None,
    }
}

/// Reads the reply identifier from the member of an answer, `None` where
/// the answer had no such member.
pub fn reply_id_from_member(member: Option<&str>) -> (r: Option<u32>)
    ensures
        r == reply_id_of(member.deep_view()),
{
    match member {
        Some(text) => parse_u32(text),
        None => None,
    }
}

/// Reads the reply identifier from the body of the answer to a
/// publication. The publication counts as failed, and the result is `None`,
/// where the body is no JSON object, where the object has no string member
/// `id`, and where that member spells no 32-bit number.
pub fn reply_id_of_answer(body: &str) -> (r: Option<u32>)
    ensures
        r == reply_id_of(json_text_member(body@, reply_member())),
{
    match text_member(body, "id") {
        Some(text) => reply_id_from_member(Some(text.as_str())),
        None => reply_id_from_member(None),
    }
}

/// The reply that a generation gives: the content of its first choice, or
/// the empty text where that choice has no content; no reply where the
/// generation offers no choice.
pub open spec fn reply_of(choices: Seq<Option<Seq<char>>>) -> Option<Seq<char>> {
    if choices.len() == 0 {
        None
    } else {
        match choices[0] {
            Some(content) => Some(content),
            None => Some(Seq::empty()),
        }
    }
}

/// Picks the reply from the choices of a generation, each given by its
/// content where it has one.
pub fn first_choice(choices: Vec<Option<String>>) -> (r: Option<String>)
    ensures
        r.deep_view() == reply_of(choices.deep_view()),
{
    let mut choices = choices;
    if choices.len() == 0 {
        None
    } else {
        match choices.swap_remove(0) {
            Some(content) => Some(content),
            None => Some(String::new()),
        }
    }
}

} // verus!
