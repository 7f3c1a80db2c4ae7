//! Trusted access to the wall clock and to randomness. Nothing is assumed
//! about the values beyond what the callees plainly guarantee; verified
//! code takes them as arguments and holds for every possible value.

use vstd::prelude::*;

verus! {

/// Relies on `chrono::Utc::now` and `DateTime::timestamp`: the current time
/// as whole seconds since the Unix epoch. `Utc::now` never returns a
/// pre-epoch time (it panics on such a clock), so the value is nonnegative.
#[verifier::external_body]
pub fn now_unix_seconds() -> (r: i64)
    ensures
        r >= 0,
{
    chrono::Utc::now().timestamp()
}

/// Relies on `chrono::Utc::now` and `DateTime::timestamp_millis`: the
/// current time as milliseconds since the Unix epoch; nonnegative as above.
#[verifier::external_body]
pub fn now_unix_millis() -> (r: i64)
    ensures
        r >= 0,
{
    chrono::Utc::now().timestamp_millis()
}

/// Relies on `fastrand::i32`: a uniformly random value in the given
/// half-open range, here `0 .. i32::MAX`.
#[verifier::external_body]
pub fn random_id() -> (r: i32)
    ensures
        0 <= r < i32::MAX,
{
    fastrand::i32(0..i32::MAX)
}

} // verus!
