//! Reading the `name` field out of a JSON text.
//!
//! The request protocol recognizes one JSON message from a client: an
//! object whose `name` field holds the string `count`. Client text that
//! fails to parse, or parses to something without that field, draws no
//! reply and is otherwise ignored.

use vstd::prelude::*;

verus! {

/// The `name` field of `s` read as JSON: `Some` of that field's string value
/// when `s` parses as JSON carrying a string under the key `name`, `None`
/// otherwise. Named rather than written out: stating which texts parse as
/// JSON would take the whole grammar, and the result is a function of the
/// characters alone.
pub uninterp spec fn json_name_of(s: Seq<char>) -> Option<Seq<char>>;

/// Whether `s` asks for the current count: JSON whose `name` field is the
/// string `count`.
pub open spec fn is_count_request(s: Seq<char>) -> bool {
    json_name_of(s) == Some("count"@)
}

/// Relies on `serde_json::from_str::<Value>`, `Value::get` and
/// `Value::as_str`: parses `s` as JSON, looks up the key `name` (`None`
/// unless the value is an object holding that key), and reads the field as a
/// string (`None` unless it is one). Every step is a function of `s` alone.
#[verifier::external_body]
pub(crate) fn json_name_field(s: &str) -> (r: Option<String>)
    ensures
        match r {
            Some(n) => json_name_of(s@) == Some(n@),
            None => json_name_of(s@) is None,
        },
{
    match serde_json::from_str::<serde_json::Value>(s) {
        Ok(v) => match v.get("name") {
            Some(n) => n.as_str().map(|t| t.to_owned()),
            None => None,
        },
        Err(_) => None,
    }
}

} // verus!
