//! What the bot asks of `serde_json`: reading one string out of a JSON
//! document, and writing a list of strings as a JSON array.
use vstd::prelude::*;

verus! {

/// What `serde_json` finds in `text`, read as one JSON document, at the JSON
/// pointer `pointer`: `None` where `text` is no JSON document; `Some(None)`
/// where nothing, or something other than a string, stands there;
/// `Some(Some(s))` where the string `s` stands there.
pub uninterp spec fn json_str_at(text: Seq<char>, pointer: Seq<char>) -> Option<Option<Seq<char>>>;

/// The text that `serde_json` writes for a list of strings: a JSON array of
/// JSON strings.
pub uninterp spec fn json_string_list(items: Seq<Seq<char>>) -> Seq<char>;

/// The view of an optional string.
pub open spec fn opt_str_view(o: Option<String>) -> Option<Seq<char>> {
    match o {
        Some(s) => Some(s@),
        None => None,
    }
}

/// The views of a list of strings.
pub open spec fn str_views(v: Seq<String>) -> Seq<Seq<char>> {
    v.map_values(|s: String| s@)
}

/// Calls `serde_json::from_str::<serde_json::Value>` on `text` and, where the
/// text is a JSON document, `Value::pointer` with `pointer` on it, keeping the
/// string found there. The contract claims that the outcome is the one named
/// by `json_str_at`, a function of the two texts alone; on a text that is no
/// JSON document the error carries `serde_json`'s message, whose wording is
/// left unsaid.
#[verifier::external_body]
pub(crate) fn lookup_json_str(text: &str, pointer: &str) -> (r: Result<Option<String>, String>)
    ensures
        r is Err <==> json_str_at(text@, pointer@) is None,
        r matches Ok(o) ==> json_str_at(text@, pointer@) == Some(opt_str_view(o)),
{
    match serde_json::from_str::<serde_json::Value>(text) {
        Ok(value) => match value.pointer(pointer) {
            Some(serde_json::Value::String(s)) => Ok(Some(s.clone())),
            _ => Ok(None),
        },
        Err(e) => Err(e.to_string()),
    }
}

/// Calls `serde_json::to_string` on a list of strings. The contract claims
/// that this succeeds (a list of strings holds nothing whose serialisation
/// fails, and the output goes to memory) and that the text is the one named
/// by `json_string_list`, a function of the strings alone.
#[verifier::external_body]
pub(crate) fn encode_json_string_list(items: &Vec<String>) -> (r: Result<String, String>)
    ensures
        r is Ok,
        r matches Ok(s) ==> s@ == json_string_list(str_views(items@)),
{
    match serde_json::to_string(items) {
        Ok(s) => Ok(s),
        Err(e) => Err(e.to_string()),
    }
}

} // verus!
