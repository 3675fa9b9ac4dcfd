//! The integer part of the terrain's value noise: the seed of the random
//! value at each grid point.
use vstd::prelude::*;

verus! {

pub const OCTAVES: i32 = 3;
pub const X_SEED_SCALAR: isize = 49_632;
pub const Y_SEED_SCALAR: isize = 325_176;

/// The seed of grid point `x`, `y`, as a signed number.
pub open spec fn spec_noise_seed(seed: int, x: int, y: int) -> int {
    x * X_SEED_SCALAR + y * Y_SEED_SCALAR + seed
}

/// The seed that the random value of grid point `x`, `y` of a noise with
/// seed `seed` is drawn with: the signed seed reinterpreted as 64 bits.
pub fn noise_seed(seed: isize, x: isize, y: isize) -> (s: u64)
    requires
        isize::MIN <= x * X_SEED_SCALAR <= isize::MAX,
        isize::MIN <= y * Y_SEED_SCALAR <= isize::MAX,
        isize::MIN <= x * X_SEED_SCALAR + y * Y_SEED_SCALAR <= isize::MAX,
        isize::MIN <= spec_noise_seed(seed as int, x as int, y as int) <= isize::MAX,
    ensures
        s == spec_noise_seed(seed as int, x as int, y as int) as u64,
{
    let s = x * X_SEED_SCALAR + y * Y_SEED_SCALAR + seed;
    s as u64
}

} // verus!

verus! {

/// The seed of a grid point is the noise's whole seed at the origin, and
/// moves by the seed's difference when the seed changes, by 49 632 per step
/// in `x` and by 325 176 per step in `y`: so distinct seeds give distinct
/// values at every point.
pub proof fn lemma_noise_seed_steps(seed: int, x: int, y: int, d: int)
    ensures
        spec_noise_seed(seed, 0, 0) == seed,
        spec_noise_seed(seed + d, x, y) == spec_noise_seed(seed, x, y) + d,
        spec_noise_seed(seed, x + 1, y) == spec_noise_seed(seed, x, y) + 49_632,
        spec_noise_seed(seed, x, y + 1) == spec_noise_seed(seed, x, y) + 325_176,
        d != 0 ==> spec_noise_seed(seed + d, x, y) != spec_noise_seed(seed, x, y),
{
    assert((x + 1) * X_SEED_SCALAR == x * X_SEED_SCALAR + 49_632) by (nonlinear_arith);
    assert((y + 1) * Y_SEED_SCALAR == y * Y_SEED_SCALAR + 325_176) by (nonlinear_arith);
}

} // verus!
