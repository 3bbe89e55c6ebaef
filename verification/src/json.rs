//! The document side of result consumption: a thin, trusted boundary around
//! the JSON parser.  The bridge itself is format-agnostic; these items let the
//! decode helpers and the view model hand a parsed document around.

use vstd::prelude::*;

verus! {

#[verifier::external_type_specification]
#[verifier::external_body]
pub struct ExValue(serde_json::Value);

/// Whether a string is a JSON document the parser accepts.  Acceptance is a
/// function of the text alone, so it can be given a name without a body.
pub uninterp spec fn json_ok(s: Seq<char>) -> bool;

/// Relies on `serde_json::from_str::<Value>`: parsing succeeds exactly when
/// the text is well-formed JSON, which depends on the text alone.
#[verifier::external_body]
pub(crate) fn parse_json(s: &str) -> (r: Option<serde_json::Value>)
    ensures
        r is Some <==> json_ok(s@),
{
    serde_json::from_str::<serde_json::Value>(s).ok()
}

/// Relies on `serde_json::Value::get`: a string index selects the named member
/// of an object, `None` when the member is absent or the value is no object.
#[verifier::external_body]
pub(crate) fn value_get<'a>(v: &'a serde_json::Value, key: &str) -> Option<&'a serde_json::Value> {
    v.get(key)
}

/// Relies on the `Display` impl of `serde_json::Value`: the value rendered as
/// compact JSON text (a string member keeps its surrounding quote marks).
#[verifier::external_body]
pub(crate) fn value_to_string(v: &serde_json::Value) -> String {
    v.to_string()
}

} // verus!
