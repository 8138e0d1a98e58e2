//! The source of the random bytes that `AssignRandomValue` masks.

use rand::Rng;
use vstd::prelude::*;

verus! {

/// Draws one byte from `rand::thread_rng()` with `Rng::gen_range` over the
/// whole range `0..=255`, which `rand` samples uniformly. The byte is a
/// matter of chance, so nothing is claimed of it.
#[verifier::external_body]
pub(crate) fn random_byte() -> (byte: u8) {
    rand::thread_rng().gen_range(0..=255u8)
}

} // verus!
