//! Random draws from macroquad's global generator.
use vstd::prelude::*;

verus! {

/// Calls `macroquad::rand::gen_range::<i32>` (quad-rand's generator). The
/// source scales a fresh 32-bit draw `r / 2^32`, which is below one, into
/// `low + (high - low) * r` in `f64` and truncates it to `i32`; for a
/// nonnegative range of this size that value is exact enough to stay in
/// `[low, high)`. Which value comes depends on the generator's state, and
/// nothing more is stated of it.
#[verifier::external_body]
pub(crate) fn gen_range_i32(low: i32, high: i32) -> (r: i32)
    requires
        0 <= low < high <= 1024,
    ensures
        low <= r < high,
{
    macroquad::rand::gen_range::<i32>(low, high)
}

} // verus!
