//! The source of uniform randomness.
//!
//! Sampling needs uniform scalars in [0, 1); they are drawn from rand's
//! standard generator, reduced in verified code to fixed-point range. The
//! generator itself is opaque: nothing is assumed about the values drawn
//! beyond what the reductions here establish.

use vstd::prelude::*;
use crate::fixed::{ONE, fmul};

verus! {

/// Verus-opaque declaration of rand's standard generator type.
#[verifier::external_type_specification]
#[verifier::external_body]
pub struct ExStdRng(rand::rngs::StdRng);

/// Relies on rand's `SeedableRng::seed_from_u64`: builds a generator from
/// a 64-bit seed, the same seed giving the same stream of draws.
#[verifier::external_body]
fn std_rng_from_seed(seed: u64) -> rand::rngs::StdRng {
    <rand::rngs::StdRng as rand::SeedableRng>::seed_from_u64(seed)
}

/// Relies on rand's `RngCore::next_u64`: the generator's next 64-bit
/// output. Nothing is assumed of the value returned.
#[verifier::external_body]
fn std_rng_next(rng: &mut rand::rngs::StdRng) -> u64 {
    rand::RngCore::next_u64(rng)
}

/// A stream of uniform random draws, built from a 64-bit seed.
pub struct RandSource {
    inner: rand::rngs::StdRng,
}

impl RandSource {
    /// A source seeded with `seed`; the underlying generator derives the
    /// same stream from the same seed.
    pub fn from_seed(seed: u64) -> RandSource {
        RandSource { inner: std_rng_from_seed(seed) }
    }

    /// The next raw 64-bit draw.
    pub fn next_u64(&mut self) -> u64 {
        std_rng_next(&mut self.inner)
    }
}

/// A uniform scalar in [0, 1): one raw draw reduced to millionths.
pub fn random(rng: &mut RandSource) -> (r: i64)
    ensures
        0 <= r < ONE,
{
    let raw = rng.next_u64();
    (raw % (ONE as u64)) as i64
}

/// A scalar in [min, max): `min + (max - min) * random()`; when the
/// bounds coincide the result is that common bound.
pub fn random_within(rng: &mut RandSource, min: i64, max: i64) -> (r: i64)
    requires
        min <= max,
        max - min <= i64::MAX,
    ensures
        min < max ==> min <= r < max,
        min == max ==> r == min,
        exists|t: int| 0 <= t < ONE && r as int == min + #[trigger] fmul(max - min, t),
{
    let t = random(rng);
    let d = max - min;
    let step = crate::fixed::fx_mul(d, t);
    proof {
        crate::fixed::lemma_fmul_unit_range(t as int, d as int);
    }
    let r = min + step;
    proof {
        assert(fmul(d as int, t as int) == fmul(t as int, d as int)) by {
            vstd::arithmetic::mul::lemma_mul_is_commutative(d as int, t as int);
        }
        if d > 0 {
            assert(step < d) by {
                lemma_step_below_width(d as int, t as int);
            }
        }
    }
    r
}

/// A product with a factor strictly below 1 stays strictly below the
/// other (positive) factor.
proof fn lemma_step_below_width(d: int, t: int)
    requires
        0 < d,
        0 <= t < ONE,
    ensures
        fmul(d, t) < d,
{
    assert(d * t < d * (ONE as int)) by (nonlinear_arith)
        requires
            0 < d,
            0 <= t < ONE as int,
    ;
    vstd::arithmetic::mul::lemma_mul_nonnegative(d, t);
    vstd::arithmetic::div_mod::lemma_multiply_divide_lt(d * t, d, ONE as int);
    assert(d * t / (ONE as int) < d);
}

} // verus!
