//! JSON values as the protocol carries them: opaque to the library, which
//! hands them through unchanged and only asks whether one is `null`.
use vstd::prelude::*;

verus! {

#[verifier::external_type_specification]
#[verifier::external_body]
pub struct ExJsonValue(serde_json::Value);

/// Whether a JSON value is `null`; depends on the value alone.
pub uninterp spec fn json_is_null(v: serde_json::Value) -> bool;

/// Relies on serde_json's `Value::is_null`: whether the value is the `Null`
/// variant, a property of the value alone.
pub assume_specification[ serde_json::Value::is_null ](v: &serde_json::Value) -> (r: bool)
    ensures
        r == json_is_null(*v),
;

} // verus!
