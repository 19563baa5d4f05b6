//! The clock that exchanges are timed by.

use std::time::Instant;

use vstd::prelude::*;

verus! {

/// A moment of the system's steady clock.
#[verifier::external_type_specification]
#[verifier::external_body]
pub struct ExInstant(std::time::Instant);

/// `Instant::now`: the present moment. Nothing is stated of it.
#[verifier::external_body]
pub(crate) fn now() -> (moment: Instant) {
    Instant::now()
}

/// `Instant::elapsed`: the time since `start`, in nanoseconds. Nothing is stated of it.
#[verifier::external_body]
pub(crate) fn nanoseconds_since(start: &Instant) -> (elapsed: u128) {
    start.elapsed().as_nanos()
}

}
