//! Pretty-printed JSON text.
use vstd::prelude::*;

verus! {

/// The pretty-printed form of the JSON text `text`, or `None` when it is not JSON.
pub uninterp spec fn pretty_json_text(text: Seq<char>) -> Option<Seq<char>>;

/// `serde_json::from_str::<serde_json::Value>` followed by
/// `serde_json::to_string_pretty`: parses `text` as JSON and renders the value with
/// two-space indentation. The contract only names the result as a function of the
/// text (`pretty_json_text`); it says nothing of its form.
#[verifier::external_body]
fn parse_and_pretty(text: &str) -> (r: Option<String>)
    ensures
        r matches Some(s) ==> pretty_json_text(text@) == Some(s@),
        r is None ==> pretty_json_text(text@) is None,
{
    match serde_json::from_str::<serde_json::Value>(text) {
        Ok(v) => serde_json::to_string_pretty(&v).ok(),
        Err(_) => None,
    }
}

/// The pretty-printed form of the JSON text `json_str`, or `None` when it is not JSON.
pub fn pretty_json(json_str: &str) -> (r: Option<String>)
    ensures
        r matches Some(s) ==> pretty_json_text(json_str@) == Some(s@),
        r is None ==> pretty_json_text(json_str@) is None,
{
    parse_and_pretty(json_str)
}

} // verus!
