//! The random draws that place a new member.

use vstd::prelude::*;
use rand::Rng;

verus! {

/// Draws an integer from `0` up to, but not including, `range`.
///
/// Calls `gen_range(0, range)` on the generator that `rand::thread_rng`
/// hands out. Of the result only its range is claimed, as `gen_range`
/// documents it: at least the lower bound, below the upper. `gen_range`
/// panics on an empty range, which the precondition leaves out.
#[verifier::external_body]
pub(crate) fn random_below(range: i32) -> (r: i32)
    requires
        range > 0,
    ensures
        0 <= r < range,
{
    rand::thread_rng().gen_range(0, range)
}

/// Draws a heading: a whole number of degrees from 0 up to 359.
pub fn random_dir() -> (dir: u16)
    ensures
        dir < 360,
{
    let drawn: i32 = random_below(360);
    drawn as u16
}

} // verus!
