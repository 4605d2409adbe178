//! The time, as the rest of the library sees it: a number of milliseconds.
//! Nothing is known of a reading before it is taken.

use vstd::prelude::*;

verus! {

/// Calls `chrono::Utc::now` and `DateTime::timestamp_millis`. Trusted, and
/// claims nothing: the result is whatever the clock says, in milliseconds
/// since the start of 1970. `Utc::now` panics on a machine whose clock
/// stands before 1970; no contract can rule that out.
#[verifier::external_body]
pub(crate) fn utc_now_millis() -> (millis: i64) {
    chrono::Utc::now().timestamp_millis()
}

/// Calls `Instant::now` and `Instant::elapsed`. Trusted, and claims
/// nothing: the result is the time that passed between the two calls, in
/// milliseconds.
#[verifier::external_body]
pub(crate) fn elapsed_millis() -> (millis: u128) {
    std::time::Instant::now().elapsed().as_millis()
}

} // verus!
