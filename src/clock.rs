//! The two values that come from outside the computation: the current time
//! and fresh identifiers.

use vstd::prelude::*;

verus! {

/// Milliseconds since the Unix epoch, now.
/// Relies on `chrono::Utc::now` and `DateTime::timestamp_millis`; the value
/// depends on the moment of the call, so nothing is promised of it.
#[verifier::external_body]
pub(crate) fn now_millis() -> (r: i64) {
    chrono::Utc::now().timestamp_millis()
}

/// A fresh random identifier.
/// Relies on `uuid::Uuid::new_v4` and `Uuid::as_u128`; the value is random,
/// so nothing is promised of it.
#[verifier::external_body]
pub(crate) fn fresh_id() -> (r: u128) {
    uuid::Uuid::new_v4().as_u128()
}

} // verus!
