//! Checks of JSON text made by `serde_json`.
use vstd::prelude::*;

verus! {

/// The message `serde_json` gives when it refuses a text as a JSON object,
/// or nothing when the text is one.
pub uninterp spec fn json_object_error(text: Seq<char>) -> Option<Seq<char>>;

/// Calls `serde_json::from_str` for a map from strings to JSON values and
/// keeps only whether it succeeded, and the error's message when it did not;
/// the outcome is named `json_object_error` of the text.
#[verifier::external_body]
pub(crate) fn check_json_object(text: &str) -> (r: Option<String>)
    ensures
        match r {
            Some(m) => json_object_error(text@) == Some(m@),
            None => json_object_error(text@) is None,
        },
{
    match serde_json::from_str::<std::collections::HashMap<String, serde_json::Value>>(text) {
        Ok(_) => None,
        Err(e) => Some(e.to_string()),
    }
}

} // verus!
