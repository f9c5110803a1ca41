//! What the library takes from serde_json: parsing a JSON object into its
//! entries, and the empty metadata object of an outbound request.

use vstd::prelude::*;
use crate::model::opt_text;

verus! {

#[verifier::external_type_specification]
#[verifier::external_body]
pub struct ExValue(serde_json::Value);

/// The view of one parsed entry: its key, and its value's text when that
/// value is a JSON string.
pub open spec fn entry_view(e: (String, Option<String>)) -> (Seq<char>, Option<Seq<char>>) {
    (e.0@, opt_text(e.1))
}

pub open spec fn entries_view(v: Seq<(String, Option<String>)>) -> Seq<(Seq<char>, Option<Seq<char>>)> {
    v.map_values(|e: (String, Option<String>)| entry_view(e))
}

/// The entries of the JSON object that `text` holds, in the parsed map's key
/// order, each with the text of its value when that value is a string; none
/// when `text` is not a single JSON object.
pub uninterp spec fn json_object_entries(text: Seq<char>) -> Option<Seq<(Seq<char>, Option<Seq<char>>)>>;

/// Relies on serde_json::from_str into a serde_json::Map (walked in its key
/// order), and on serde_json::Value::as_str for each value.
#[verifier::external_body]
pub(crate) fn parse_object_entries(text: &str) -> (r: Option<Vec<(String, Option<String>)>>)
    ensures
        match r {
            Some(v) => json_object_entries(text@) == Some(entries_view(v@)),
            None => json_object_entries(text@) is None,
        },
{
    match serde_json::from_str::<serde_json::Map<String, serde_json::Value>>(text) {
        Ok(map) => Some(map.into_iter().map(|(k, v)| (k, v.as_str().map(String::from))).collect()),
        Err(_) => None,
    }
}

/// Relies on serde_json::Map::new and serde_json::Value::Object: the metadata
/// of an outbound request is an empty JSON object.
#[verifier::external_body]
pub(crate) fn empty_object() -> serde_json::Value {
    serde_json::Value::Object(serde_json::Map::new())
}

} // verus!
