//! Outside types that the library carries through without looking inside.

use vstd::prelude::*;

verus! {

/// A JSON document (tool arguments, schemas, checkpoint payloads).
#[verifier::external_type_specification]
#[verifier::external_body]
pub struct ExJsonValue(serde_json::Value);

/// `Value::clone` (derived): the copy is the same JSON document.
pub assume_specification[ <serde_json::Value as Clone>::clone ](v: &serde_json::Value) -> (res: serde_json::Value)
    ensures
        res == *v,
;

/// Identifier of an approval request.
#[verifier::external_type_specification]
#[verifier::external_body]
pub struct ExUuid(uuid::Uuid);

/// `Uuid::clone` (derived beside `Copy`): the copy is the same identifier.
pub assume_specification[ <uuid::Uuid as Clone>::clone ](u: &uuid::Uuid) -> (res: uuid::Uuid)
    ensures
        res == *u,
;

} // verus!
