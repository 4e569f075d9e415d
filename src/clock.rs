//! The wall clock.
use vstd::prelude::*;

verus! {

/// Relies on `chrono::Local::now` and `DateTime::timestamp`: the current
/// time in whole seconds since the Unix epoch. It depends on the moment of
/// the call, so nothing is promised of its value.
#[verifier::external_body]
pub(crate) fn now_timestamp() -> (r: i64) {
    chrono::Local::now().timestamp()
}

} // verus!
