//! The random draws that spawning takes.

use vstd::prelude::*;

verus! {

/// `rand::rngs::StdRng`, the generator of the `rand` crate. It is carried
/// from draw to draw; nothing is known of what it holds.
#[verifier::external_type_specification]
#[verifier::external_body]
pub struct ExStdRng(rand::rngs::StdRng);

/// `rand::SeedableRng::seed_from_u64` on `rand::rngs::StdRng`: a generator
/// made from a seed. Nothing is claimed of the numbers it will give.
#[verifier::external_body]
pub(crate) fn seeded_generator(seed: u64) -> rand::rngs::StdRng {
    rand::SeedableRng::seed_from_u64(seed)
}

/// `rand::Rng::gen_range` on a half-open range of `i64`. The range must not
/// be empty, or the call panics. The claim is that the number drawn lies in
/// the range; which number it is stays open.
#[verifier::external_body]
pub(crate) fn draw_between(rng: &mut rand::rngs::StdRng, low: i64, high: i64) -> (r: i64)
    requires
        low < high,
    ensures
        low <= r < high,
{
    rand::Rng::gen_range(rng, low..high)
}

} // verus!
