use vstd::prelude::*;

use rand::{Rng, SeedableRng};
use rand_pcg::Lcg64Xsh32;

verus! {

#[verifier::external_type_specification]
#[verifier::external_body]
pub struct ExLcg64Xsh32(Lcg64Xsh32);

/// An opaque colour: red, green and blue channels.
#[derive(Debug, Clone, Copy, PartialEq, Eq, Structural)]
pub struct Rgb {
    pub r: u8,
    pub g: u8,
    pub b: u8,
}

/// Darkest channel value of a leaf colour, so that leaves stand out on black.
pub const MIN_CHANNEL: u8 = 100;

/// Relies on rand_core's `SeedableRng::seed_from_u64` for the PCG32 generator
/// of rand_pcg: a generator whose stream is fixed by the seed.
#[verifier::external_body]
fn seeded_pcg(seed: u64) -> (r: Lcg64Xsh32) {
    Lcg64Xsh32::seed_from_u64(seed)
}

/// Relies on rand's `Rng::gen_range` over the inclusive range `lo..=hi`:
/// it panics only on an empty range and otherwise returns a value in it.
#[verifier::external_body]
fn gen_in_range(rng: &mut Lcg64Xsh32, lo: u8, hi: u8) -> (r: u8)
    requires
        lo <= hi,
    ensures
        lo <= r <= hi,
{
    rng.gen_range(lo..=hi)
}

/// The colour of leaf `seed`: three channels drawn from a generator seeded
/// with it, each at least `MIN_CHANNEL`.
pub fn get_color(seed: u64) -> (c: Rgb)
    ensures
        c.r >= MIN_CHANNEL,
        c.g >= MIN_CHANNEL,
        c.b >= MIN_CHANNEL,
{
    let mut rng = seeded_pcg(seed);
    let r = gen_in_range(&mut rng, MIN_CHANNEL, 255);
    let g = gen_in_range(&mut rng, MIN_CHANNEL, 255);
    let b = gen_in_range(&mut rng, MIN_CHANNEL, 255);
    Rgb { r, g, b }
}

} // verus!
