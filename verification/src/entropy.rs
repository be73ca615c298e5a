//! Values that come from outside the computation: the clock and random numbers.

use vstd::prelude::*;

use crate::ids::is_v4_uuid;

verus! {

/// `chrono::Utc::now().timestamp_micros()`: the current time in microseconds since the
/// Unix epoch. Nothing is claimed of the value, which depends on the clock.
#[verifier::external_body]
pub(crate) fn now_micros() -> (r: i64) {
    chrono::Utc::now().timestamp_micros()
}

/// `rand::random::<u64>()`: a random number. Nothing is claimed of the value.
#[verifier::external_body]
pub(crate) fn random_u64() -> (r: u64) {
    rand::random::<u64>()
}

/// `uuid::Uuid::new_v4()`, as its 128-bit value (`Uuid::as_u128`, big-endian): a
/// random identifier. uuid builds it from random bits by masking in the version
/// (4) and the RFC 4122 variant, so only those bits are claimed; the rest is chance.
#[verifier::external_body]
pub(crate) fn random_uuid() -> (r: u128)
    ensures
        is_v4_uuid(r),
{
    uuid::Uuid::new_v4().as_u128()
}

} // verus!
