//! The types of other crates that pass through this library. Nothing is
//! known of what is inside a value of one of them but what the functions
//! that hand it over state.

use vstd::prelude::*;

verus! {

/// `bytes::Bytes`: the payload of a download.
#[verifier::external_type_specification]
#[verifier::external_body]
pub struct ExBytes(bytes::Bytes);

/// `serde_json::Value`: a parsed JSON document.
#[verifier::external_type_specification]
#[verifier::external_body]
pub struct ExValue(serde_json::Value);

/// `serde_json::Error`: why a text is no JSON document.
#[verifier::external_type_specification]
#[verifier::external_body]
pub struct ExJsonError(serde_json::Error);

/// `cached::TimedSizedCache`: a store of bounded size whose entries expire.
#[verifier::external_type_specification]
#[verifier::external_body]
#[verifier::reject_recursive_types(K)]
#[verifier::reject_recursive_types(V)]
pub struct ExTimedSizedCache<K, V>(cached::TimedSizedCache<K, V>);

} // verus!
