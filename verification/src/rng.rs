//! The one randomness source the core uses: a uniform draw from an
//! inclusive integer range, for the ball's launch angle and directions.

use vstd::prelude::*;

use rand::RngExt;

verus! {

/// Relies on rand::RngExt::random_range over an inclusive integer range:
/// it returns a value within the bounds and, on a nonempty range, does
/// not panic. Nothing more is assumed of the draw; callers must hold for
/// every outcome in the range.
#[verifier::external_body]
pub(crate) fn random_in_range(lo: u64, hi: u64) -> (r: u64)
    requires
        lo <= hi,
    ensures
        lo <= r && r <= hi,
{
    let mut rng = rand::rng();
    rng.random_range(lo..=hi)
}

} // verus!
