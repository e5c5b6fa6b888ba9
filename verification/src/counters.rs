//! Counter values: error kinds, and the wraparound-guarded delta between two
//! readings of the same cumulative counter.

use vstd::prelude::*;

verus! {

/// Why a counter value could not be obtained: the OS query failed, or the
/// file content was not of the expected numeric/text shape.
#[derive(Clone, Copy, Debug, PartialEq, Eq, Structural)]
pub enum NetError {
    IoError,
    ParseError,
}

/// What a delta between two readings of one cumulative counter is: the
/// difference where the counter grew, and zero where it shrank (a device
/// reset or wraparound must not turn into an enormous wrapped value).
pub open spec fn delta_spec(previous: u64, current: u64) -> u64 {
    if current >= previous {
        (current - previous) as u64
    } else {
        0u64
    }
}

/// Difference between two readings of the same counter, clamped to zero when
/// the counter went backwards.
pub fn counter_delta(previous: u64, current: u64) -> (r: u64)
    ensures
        r == delta_spec(previous, current),
        r >= 0,
{
    if current >= previous {
        current - previous
    } else {
        0
    }
}

/// Law: a counter that went backwards (a device reset or wraparound) yields
/// a zero delta, never a panic or an enormous wrapped value.
pub proof fn lemma_delta_wraparound_guard(previous: u64, current: u64)
    requires
        previous > current,
    ensures
        delta_spec(previous, current) == 0,
{
}

} // verus!
