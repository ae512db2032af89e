//! Clock readings.
//!
//! A clock reading is a number of nanoseconds on a clock that does not run
//! backwards. Should a later reading still be the smaller one, no time has
//! passed between the two.

use vstd::prelude::*;

verus! {

/// The nanoseconds from `prev` to `now`, or none if `now` is the earlier one.
pub open spec fn since(prev: u64, now: u64) -> int {
    if now >= prev {
        now - prev
    } else {
        0
    }
}

/// The nanoseconds from `prev` to `now`, or none if `now` is the earlier one.
pub fn elapsed(prev: u64, now: u64) -> (r: u64)
    ensures
        r == since(prev, now),
{
    if now >= prev {
        now - prev
    } else {
        0
    }
}

/// The nanoseconds in a millisecond.
pub const MILLISECOND: u64 = 1_000_000;

} // verus!
