//! Fixed-point numbers used for ratings, affinities and scores.
//!
//! A stored value `v` stands for the real number `v / SCALE`: a rating of
//! 4.5 is `4_500_000`, an affinity of 0.75 is `750_000`.
use vstd::prelude::*;

verus! {

/// The fixed-point value of one whole unit.
pub const SCALE: u32 = 1_000_000;

/// `x` clamped into the unit interval `[0, SCALE]`.
pub open spec fn clamp_unit(x: int) -> int {
    if x < 0 {
        0
    } else if x > SCALE as int {
        SCALE as int
    } else {
        x
    }
}

} // verus!
