//! The trusted boundary to the JSON codec: pane content is stored as JSON
//! text and pretty-printed for display.

use vstd::prelude::*;

verus! {

/// Whether `serde_json::from_str::<Value>` accepts this text; parsing is a
/// function of the text alone.
pub uninterp spec fn json_wf(s: Seq<char>) -> bool;

/// The pretty-printed form of a well-formed JSON text: what
/// `serde_json::to_string_pretty` gives the value parsed from it, a function
/// of the text alone.
pub uninterp spec fn pretty_json(s: Seq<char>) -> Seq<char>;

/// Relies on `serde_json::from_str::<Value>` and
/// `serde_json::to_string_pretty`: parsing succeeds exactly on well-formed
/// JSON text, and serializing the parsed `Value` cannot fail, since a
/// `Value`'s maps key by `String` and its numbers are finite. So the call
/// returns the parsed value's pretty form exactly when the text parses.
#[verifier::external_body]
pub(crate) fn prettify_json(s: &str) -> (r: Option<String>)
    ensures
        r is Some <==> json_wf(s@),
        (r matches Some(p) ==> p@ == pretty_json(s@)),
{
    match serde_json::from_str::<serde_json::Value>(s) {
        Ok(value) => serde_json::to_string_pretty(&value).ok(),
        Err(_) => None,
    }
}

/// What an optional JSON text displays as in a listing: `null` where nothing
/// was stored, the pretty-printed value where the text parses, and a marker
/// where it does not.
pub open spec fn spec_json_display(v: Option<String>) -> Seq<char> {
    match v {
        None => "null"@,
        Some(text) => if json_wf(text@) {
            pretty_json(text@)
        } else {
            "<invalid json>"@
        },
    }
}

/// Render an optional JSON text for a listing.
pub fn json_display(v: &Option<String>) -> (r: String)
    ensures
        r@ == spec_json_display(*v),
{
    match v {
        None => "null".to_owned(),
        Some(text) => match prettify_json(text.as_str()) {
            Some(pretty) => pretty,
            None => "<invalid json>".to_owned(),
        },
    }
}

} // verus!
