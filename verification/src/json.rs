//! What the library reads from and writes as JSON text, through
//! `serde_json`. Each result is a function of the text alone.
use vstd::prelude::*;
use crate::databasespec::opt_view;

verus! {

/// What `serde_json` reads of a text for one member name: `None` when the
/// text is not JSON; otherwise the member's value when the text is an object
/// whose member of that name is a string, and `Some(None)` when it is not.
pub uninterp spec fn json_string_member_of(text: Seq<char>, key: Seq<char>) -> Option<
    Option<Seq<char>>,
>;

/// Parses the text with `serde_json::from_str` into a `serde_json::Value`
/// and reads one member with `Value::get`, keeping it where it is a string.
#[verifier::external_body]
pub(crate) fn json_string_member(text: &str, key: &str) -> (r: Option<Option<String>>)
    ensures
        json_string_member_of(text@, key@) == match r {
            Some(m) => Some(opt_view(m)),
            None => None,
        },
{
    match serde_json::from_str::<serde_json::Value>(text) {
        Ok(v) => match v.get(key) {
            Some(serde_json::Value::String(s)) => Some(Some(s.clone())),
            _ => Some(None),
        },
        Err(_) => None,
    }
}

/// The text that `serde_json::to_string` writes for the value that
/// `serde_json::from_str` reads from a text; `None` when the text is not JSON.
pub uninterp spec fn json_rewritten_of(text: Seq<char>) -> Option<Seq<char>>;

/// Parses the text into a `serde_json::Value` and writes that value back
/// (an empty text if writing fails).
#[verifier::external_body]
pub(crate) fn json_rewritten(text: &str) -> (r: Option<String>)
    ensures
        json_rewritten_of(text@) == opt_view(r),
{
    match serde_json::from_str::<serde_json::Value>(text) {
        Ok(v) => Some(serde_json::to_string(&v).unwrap_or_default()),
        Err(_) => None,
    }
}

/// The JSON string literal that writes `s` (quoted and escaped).
pub uninterp spec fn json_string_literal(s: Seq<char>) -> Seq<char>;

/// Writes `s` as a JSON string literal with `serde_json::to_string` (which
/// does not fail on a string).
#[verifier::external_body]
pub(crate) fn json_quoted(s: &str) -> (r: String)
    ensures
        r@ == json_string_literal(s@),
{
    serde_json::to_string(s).unwrap_or_default()
}

} // verus!
