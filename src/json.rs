use vstd::prelude::*;
use crate::errors::ConsulXError;
use crate::text::{is_space, views};

verus! {

#[verifier::external_type_specification]
#[verifier::external_body]
pub struct ExJsonValue(serde_json::Value);

#[verifier::external_type_specification]
#[verifier::external_body]
pub struct ExJsonError(serde_json::Error);

/// Whether `serde_json` reads the text as one JSON value.
pub uninterp spec fn json_valid(s: Seq<char>) -> bool;

/// The strings of a text that `serde_json` reads as a JSON array of strings.
pub uninterp spec fn string_array_of(s: Seq<char>) -> Option<Seq<Seq<char>>>;

/// Relies on `serde_json::from_str::<Value>`: succeeds exactly on valid JSON text.
#[verifier::external_body]
pub(crate) fn json_from_str(s: &str) -> (r: Result<serde_json::Value, serde_json::Error>)
    ensures
        r.is_ok() == json_valid(s@),
{
    serde_json::from_str::<serde_json::Value>(s)
}

/// Relies on `serde_json::from_str::<Vec<String>>`: the strings of a JSON array of strings.
#[verifier::external_body]
pub(crate) fn json_string_array(s: &str) -> (r: Result<Vec<String>, serde_json::Error>)
    ensures
        match r {
            Ok(v) => string_array_of(s@) == Some(views(v@)),
            Err(_) => string_array_of(s@) is None,
        },
{
    serde_json::from_str::<Vec<String>>(s)
}

/// The compact text that `serde_json` writes for the value it reads from a text.
pub uninterp spec fn compact_of(s: Seq<char>) -> Seq<char>;

/// The indented text that `serde_json` writes for the value it reads from a text.
pub uninterp spec fn pretty_of(s: Seq<char>) -> Seq<char>;

/// Relies on `serde_json::from_str::<Value>` and then `serde_json::to_string`: the text read
/// as JSON and written back compactly. Writing a `Value` does not fail: it goes into a `Vec`,
/// and a `Value`'s maps have string keys.
#[verifier::external_body]
pub(crate) fn json_compact(s: &str) -> (r: Result<String, serde_json::Error>)
    ensures
        r.is_ok() == json_valid(s@),
        r matches Ok(t) ==> t@ == compact_of(s@),
{
    match serde_json::from_str::<serde_json::Value>(s) {
        Ok(v) => serde_json::to_string(&v),
        Err(e) => Err(e),
    }
}

/// Relies on `serde_json::from_str::<Value>` and then `serde_json::to_string_pretty`: the
/// text read as JSON and written back indented. Writing a `Value` does not fail, as above.
#[verifier::external_body]
pub(crate) fn json_pretty(s: &str) -> (r: Result<String, serde_json::Error>)
    ensures
        r.is_ok() == json_valid(s@),
        r matches Ok(t) ==> t@ == pretty_of(s@),
{
    match serde_json::from_str::<serde_json::Value>(s) {
        Ok(v) => serde_json::to_string_pretty(&v),
        Err(e) => Err(e),
    }
}

/// Relies on `serde_json::Error`'s `Display`: the decoder's message.
#[verifier::external_body]
pub(crate) fn json_error_message(e: &serde_json::Error) -> (r: String) {
    e.to_string()
}

/// The library's error for a JSON failure.
pub fn json_error(e: serde_json::Error) -> (r: ConsulXError)
    ensures
        r is Json,
{
    ConsulXError::Json(json_error_message(&e))
}

/// Whether a text holds nothing but white space.
pub open spec fn is_blank(s: Seq<char>) -> bool {
    forall|i: int| 0 <= i < s.len() ==> is_space(#[trigger] s[i])
}

/// Checks that a text holds nothing but white space.
pub fn blank(s: &str) -> (r: bool)
    ensures
        r == is_blank(s@),
{
    let n = s.unicode_len();
    let mut i: usize = 0;
    while i < n
        invariant
            n == s@.len(),
            i <= n,
            forall|k: int| 0 <= k < i ==> is_space(#[trigger] s@[k]),
        decreases n - i,
    {
        if !crate::text::space(s.get_char(i)) {
            return false;
        }
        i = i + 1;
    }
    true
}

/// The text that `put-json` stores: the argument checked as JSON and written compactly.
/// Text that is not JSON is refused and nothing is to be stored.
pub fn compact_json(json: &str) -> (r: Result<String, ConsulXError>)
    ensures
        r is Ok <==> json_valid(json@),
        r matches Ok(t) ==> t@ == compact_of(json@),
        r matches Err(e) ==> e is Json,
{
    match json_compact(json) {
        Ok(t) => Ok(t),
        Err(e) => Err(json_error(e)),
    }
}

/// How `get-json` shows a stored value.
#[derive(Debug)]
pub enum JsonShow {
    /// The key holds nothing.
    Absent,
    /// The value is not JSON: shown as it is, with a warning.
    Raw(String),
    /// The value is JSON: its indented text.
    Pretty(String),
}

/// Decides how `get-json` shows what a read returned.
pub fn show_json(value: Option<String>) -> (r: Result<JsonShow, ConsulXError>)
    ensures
        match value {
            None => r matches Ok(JsonShow::Absent),
            Some(v) => if json_valid(v@) {
                r matches Ok(JsonShow::Pretty(p)) && p@ == pretty_of(v@)
            } else {
                r matches Ok(JsonShow::Raw(w)) && w@ == v@
            },
        },
{
    match value {
        None => Ok(JsonShow::Absent),
        Some(v) => match json_pretty(v.as_str()) {
            Ok(p) => Ok(JsonShow::Pretty(p)),
            Err(_) => Ok(JsonShow::Raw(v)),
        },
    }
}

/// Decides what a listing of JSON values keeps for one key: nothing for an absent or blank
/// value, the text itself where it is JSON; text that is not JSON aborts the listing.
pub fn json_entry(value: Option<String>) -> (r: Result<Option<String>, ConsulXError>)
    ensures
        match value {
            None => r matches Ok(None),
            Some(v) => if is_blank(v@) {
                r matches Ok(None)
            } else if json_valid(v@) {
                r matches Ok(Some(t)) && t@ == v@
            } else {
                r matches Err(ConsulXError::Json(_))
            },
        },
{
    match value {
        None => Ok(None),
        Some(v) => {
            if blank(v.as_str()) {
                Ok(None)
            } else {
                match json_from_str(v.as_str()) {
                    Ok(_) => Ok(Some(v)),
                    Err(e) => Err(json_error(e)),
                }
            }
        },
    }
}

} // verus!
