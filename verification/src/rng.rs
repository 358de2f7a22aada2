//! The random numbers the simulations draw, taken from the `rand` crate.
//! Every item here is trusted: Verus reads the contracts and not the bodies.

use rand::rngs::StdRng;
use rand::rngs::ThreadRng;
use rand::Rng;
use rand::SeedableRng;
use vstd::prelude::*;

verus! {

/// `rand::rngs::ThreadRng`, the handle on the thread-local generator.
#[verifier::external_type_specification]
#[verifier::external_body]
pub struct ExThreadRng(ThreadRng);

/// `rand::rngs::StdRng`, the seedable generator.
#[verifier::external_type_specification]
#[verifier::external_body]
pub struct ExStdRng(StdRng);

/// Calls `rand::thread_rng`. Nothing is claimed of the handle: its state is
/// seeded by the operating system (and `rand` panics if that fails, which no
/// argument can rule out).
#[verifier::external_body]
pub(crate) fn new_thread_rng() -> ThreadRng {
    rand::thread_rng()
}

/// Calls `Rng::gen_ratio` on the thread-local generator: `true` with chance
/// `numerator / denominator`. Its documentation promises `true` when the two
/// are equal and `false` when the numerator is 0, and a panic when the
/// denominator is 0 or the numerator is larger, which `requires` rules out.
/// Which value comes back otherwise is chance, and is not stated.
#[verifier::external_body]
pub(crate) fn thread_ratio(rng: &mut ThreadRng, numerator: u32, denominator: u32) -> (r: bool)
    requires
        0 < denominator,
        numerator <= denominator,
    ensures
        numerator == denominator ==> r,
        numerator == 0 ==> !r,
{
    rng.gen_ratio(numerator, denominator)
}

/// Calls `Rng::gen_range(0..bound)` on the thread-local generator: a value
/// below `bound`, which is what the documentation promises; it panics on an
/// empty range, which `requires` rules out. Which value comes back is chance.
#[verifier::external_body]
pub(crate) fn thread_below(rng: &mut ThreadRng, bound: usize) -> (r: usize)
    requires
        0 < bound,
    ensures
        r < bound,
{
    rng.gen_range(0..bound)
}

/// Calls `Rng::gen::<usize>()` on the thread-local generator: any `usize`.
#[verifier::external_body]
pub(crate) fn thread_usize(rng: &mut ThreadRng) -> usize {
    rng.gen::<usize>()
}

/// Calls `SeedableRng::from_seed` for `StdRng`. Nothing is claimed of the
/// generator it builds.
#[verifier::external_body]
pub(crate) fn seeded_rng(seed: [u8; 32]) -> StdRng {
    StdRng::from_seed(seed)
}

/// Calls `Rng::gen_range(0..bound)` on a seeded generator: a value below
/// `bound`, as the documentation promises; the empty range, on which it
/// panics, is ruled out by `requires`. Which value comes back depends on the
/// generator's state and on the machine's word size, and is not stated.
#[verifier::external_body]
pub(crate) fn seeded_below(rng: &mut StdRng, bound: usize) -> (r: usize)
    requires
        0 < bound,
    ensures
        r < bound,
{
    rng.gen_range(0..bound)
}

/// Calls `usize::to_ne_bytes`. The byte order is the machine's own, so
/// nothing is claimed of the bytes.
#[verifier::external_body]
pub(crate) fn native_bytes(v: usize) -> [u8; 8] {
    v.to_ne_bytes()
}

} // verus!
