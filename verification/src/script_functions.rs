use vstd::prelude::*;
use rand::Rng;

verus! {

#[verifier::external_type_specification]
#[verifier::external_body]
pub struct ExStdRng(rand::rngs::StdRng);

/// Relies on rand::SeedableRng::seed_from_u64: a generator whose draws are a
/// function of the seed alone, so hosts and tests can reproduce every roll.
#[verifier::external_body]
pub fn seeded_rng(seed: u64) -> (r: rand::rngs::StdRng) {
    rand::SeedableRng::seed_from_u64(seed)
}

/// Relies on rand::Rng::gen_range over an inclusive range: the draw lies
/// within the bounds. An empty range would make the call panic, so the bounds
/// must be ordered.
#[verifier::external_body]
fn random_in_range(rng: &mut rand::rngs::StdRng, low: u32, high: u32) -> (r: u32)
    requires
        low <= high,
    ensures
        low <= r <= high,
{
    rng.gen_range(low..=high)
}

/// One die roll for dialogue scripts, drawn from the injected source: between
/// 1 and `sides`, both inclusive; a die with no sides yields 1. Injecting the
/// source keeps the rolls reproducible under a fixed seed.
pub fn dice(rng: &mut rand::rngs::StdRng, sides: u32) -> (r: u32)
    ensures
        sides == 0 ==> r == 1,
        sides > 0 ==> 1 <= r <= sides,
{
    if sides == 0 {
        1
    } else {
        random_in_range(rng, 1, sides)
    }
}

} // verus!
