use vstd::prelude::*;

verus! {

// A JSON document is carried through the registry as a `serde_json::Value`.
// The registry never inspects one: arguments flow through to the tool, and
// results flow back out, so the type is declared opaque here.
#[verifier::external_type_specification]
#[verifier::external_body]
pub struct ExJsonValue(serde_json::Value);

// The error produced by `serde_json` when a value cannot be serialized.
#[verifier::external_type_specification]
#[verifier::external_body]
pub struct ExJsonError(serde_json::Error);

/// The compact JSON text that `serde_json::to_string` produces for a value.
///
/// With default features, `serde_json` keeps object members in a `BTreeMap`,
/// so the text is a function of the value alone.
pub uninterp spec fn json_text_of(v: serde_json::Value) -> Seq<char>;

/// Relies on `serde_json::to_string`: on success the result is the compact
/// JSON text of the value, which depends on the value alone.
#[verifier::external_body]
pub fn value_to_text(v: &serde_json::Value) -> (r: Result<String, serde_json::Error>)
    ensures
        r matches Ok(s) ==> s@ == json_text_of(*v),
{
    serde_json::to_string(v)
}

/// Relies on the `Display` impl of `serde_json::Error` for a rendered message.
#[verifier::external_body]
pub fn json_error_text(e: &serde_json::Error) -> String {
    e.to_string()
}

} // verus!
