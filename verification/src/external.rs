//! Declarations that let verified code name items of std and of outside
//! crates. Everything here is trusted: Verus believes these contracts.

use vstd::prelude::*;

verus! {

/// `Duration` is `Copy`; its `Clone` impl returns the same value.
pub assume_specification[ <core::time::Duration as Clone>::clone ](d: &core::time::Duration) -> (r: core::time::Duration)
    ensures
        r == *d,
;

/// A JSON document of `serde_json`, carried through the library unopened.
#[verifier::external_type_specification]
#[verifier::external_body]
pub struct ExJsonValue(serde_json::Value);

/// `serde_json::Value` derives `Clone`: the copy is the same JSON value.
pub assume_specification[ <serde_json::Value as Clone>::clone ](v: &serde_json::Value) -> (r: serde_json::Value)
    ensures
        r == *v,
;

/// An error of `serde_json`, carried unopened.
#[verifier::external_type_specification]
#[verifier::external_body]
pub struct ExJsonError(serde_json::Error);

/// An error of `serde_yaml`, carried unopened.
#[verifier::external_type_specification]
#[verifier::external_body]
pub struct ExYamlError(serde_yaml::Error);

/// An I/O error of std, carried unopened.
#[verifier::external_type_specification]
#[verifier::external_body]
pub struct ExIoError(std::io::Error);

/// A file-system path of std, carried unopened.
#[verifier::external_type_specification]
#[verifier::external_body]
pub struct ExPathBuf(std::path::PathBuf);

/// A whole OpenAPI document as `openapiv3` parses it, read only through the
/// accessors of the `openapi` module.
#[verifier::external_type_specification]
#[verifier::external_body]
pub struct ExOpenApi(openapiv3::OpenAPI);

/// An `openapiv3` path item.
#[verifier::external_type_specification]
#[verifier::external_body]
pub struct ExPathItem(openapiv3::PathItem);

/// An `openapiv3` operation.
#[verifier::external_type_specification]
#[verifier::external_body]
pub struct ExOperation(openapiv3::Operation);

/// An `openapiv3` parameter.
#[verifier::external_type_specification]
#[verifier::external_body]
pub struct ExParameter(openapiv3::Parameter);

/// An `openapiv3` response.
#[verifier::external_type_specification]
#[verifier::external_body]
pub struct ExResponse(openapiv3::Response);

/// An `openapiv3` schema object.
#[verifier::external_type_specification]
#[verifier::external_body]
pub struct ExSchema(openapiv3::Schema);

/// The `Duration` that `std::time::Duration::from_secs(secs)` gives.
pub uninterp spec fn duration_of_secs(secs: u64) -> core::time::Duration;

/// Calls `std::time::Duration::from_secs`; the result is named by
/// `duration_of_secs`.
#[verifier::external_body]
pub(crate) fn duration_from_secs(secs: u64) -> (d: core::time::Duration)
    ensures
        d == duration_of_secs(secs),
{
    core::time::Duration::from_secs(secs)
}

} // verus!
