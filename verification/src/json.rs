//! The crate's only view of the project-metadata JSON document: one
//! trusted call that runs `serde_json`'s parse-and-look-up chain, with
//! its outcome named over the document text.
//!
//! The three names below stand for what that chain computes; every call
//! in the chain is a function of the document text alone, so the same
//! text names the same outcome everywhere.

use vstd::prelude::*;

verus! {

/// The document parses as JSON and, where the JSON Pointer path
/// `/packages/0/metadata/nvptx/runtime` leads to a value, that value is
/// an array of strings.
pub uninterp spec fn runtime_shape_ok(s: Seq<char>) -> bool;

/// The document parses as JSON and the path
/// `/packages/0/metadata/nvptx/runtime` leads to an array of strings.
pub uninterp spec fn runtime_declared(s: Seq<char>) -> bool;

/// The strings of the array that the path leads to, in array order.
pub uninterp spec fn runtime_names_of(s: Seq<char>) -> Seq<Seq<char>>;

/// What the runtime declaration of a metadata document holds.
pub enum RuntimeSetting {
    /// The document is well-formed and carries no runtime declaration.
    Absent,
    /// The declared runtime-component names, in order.
    Declared(Vec<String>),
    /// The document is not JSON, or the declared value is not an array
    /// of strings.
    Malformed,
}

/// Relies on serde_json::from_str::<Value>, Value::pointer,
/// Value::as_array and Value::as_str: parse the document and read the
/// string array at `/packages/0/metadata/nvptx/runtime`.
#[verifier::external_body]
pub(crate) fn read_runtime_setting(s: &str) -> (r: RuntimeSetting)
    ensures
        (r is Malformed) == !runtime_shape_ok(s@),
        (r is Absent) == (runtime_shape_ok(s@) && !runtime_declared(s@)),
        (r is Declared) == (runtime_shape_ok(s@) && runtime_declared(s@)),
        r matches RuntimeSetting::Declared(v) ==> v.deep_view() == runtime_names_of(s@),
{
    let Ok(doc) = serde_json::from_str::<serde_json::Value>(s) else {
        return RuntimeSetting::Malformed };
    let Some(rt) = doc.pointer("/packages/0/metadata/nvptx/runtime") else {
        return RuntimeSetting::Absent };
    let Some(entries) = rt.as_array() else { return RuntimeSetting::Malformed };
    let mut names: Vec<String> = Vec::new();
    for entry in entries {
        let Some(text) = entry.as_str() else { return RuntimeSetting::Malformed };
        names.push(text.to_string());
    }
    RuntimeSetting::Declared(names)
}

} // verus!
