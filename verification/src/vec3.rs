//! Three-component vectors over fixed-point scalars.
//!
//! Every operation has a spec-level counterpart (`v_add`, `v_dot`, ...)
//! stating its exact integer result, including the rounding and saturation
//! of the underlying scalar arithmetic.

use vstd::prelude::*;
use crate::fixed::{
    ONE, fadd, fsub, fmul, fdiv, fsqrt, is_sqrt, fx_add, fx_sub, fx_mul, fx_div, fx_sqrt,
    fx_min,
};
use crate::random::RandSource;

verus! {

/// Twice [`ONE`]: the fixed-point representation of 2.0.
pub const TWO: i64 = 2_000_000;

/// Components below one quantum in magnitude count as zero; with millionth
/// resolution that leaves exactly the zero vector.
pub const NEAR_ZERO_EPS: i64 = 1;

/// Rejection sampling accepts candidates of at least this length (one
/// half). Discarding the shorter ones leaves the direction distribution
/// uniform — a candidate's direction is independent of its radius — and
/// keeps the quantized normalization sharp, where a candidate a few
/// quanta long would normalize far from unit length.
pub const MIN_SAMPLE_LEN: i64 = 500_000;

#[derive(Clone, Copy, PartialEq, Eq, Structural, Debug)]
pub struct Vec3 {
    pub x: i64,
    pub y: i64,
    pub z: i64,
}

/// Componentwise sum.
pub open spec fn v_add(a: Vec3, b: Vec3) -> Vec3 {
    Vec3 {
        x: fadd(a.x as int, b.x as int) as i64,
        y: fadd(a.y as int, b.y as int) as i64,
        z: fadd(a.z as int, b.z as int) as i64,
    }
}

/// Componentwise difference.
pub open spec fn v_sub(a: Vec3, b: Vec3) -> Vec3 {
    Vec3 {
        x: fsub(a.x as int, b.x as int) as i64,
        y: fsub(a.y as int, b.y as int) as i64,
        z: fsub(a.z as int, b.z as int) as i64,
    }
}

/// Componentwise product.
pub open spec fn v_mul(a: Vec3, b: Vec3) -> Vec3 {
    Vec3 {
        x: fmul(a.x as int, b.x as int) as i64,
        y: fmul(a.y as int, b.y as int) as i64,
        z: fmul(a.z as int, b.z as int) as i64,
    }
}

/// Componentwise quotient.
pub open spec fn v_div(a: Vec3, b: Vec3) -> Vec3 {
    Vec3 {
        x: fdiv(a.x as int, b.x as int) as i64,
        y: fdiv(a.y as int, b.y as int) as i64,
        z: fdiv(a.z as int, b.z as int) as i64,
    }
}

/// The vector scaled by `k`.
pub open spec fn v_scale(k: int, a: Vec3) -> Vec3 {
    Vec3 {
        x: fmul(k, a.x as int) as i64,
        y: fmul(k, a.y as int) as i64,
        z: fmul(k, a.z as int) as i64,
    }
}

/// The vector divided by the scalar `k`.
pub open spec fn v_div_scalar(a: Vec3, k: int) -> Vec3 {
    Vec3 {
        x: fdiv(a.x as int, k) as i64,
        y: fdiv(a.y as int, k) as i64,
        z: fdiv(a.z as int, k) as i64,
    }
}

/// The negated vector.
pub open spec fn v_neg(a: Vec3) -> Vec3 {
    Vec3 {
        x: fsub(0, a.x as int) as i64,
        y: fsub(0, a.y as int) as i64,
        z: fsub(0, a.z as int) as i64,
    }
}

/// Dot product: the three componentwise products summed left to right.
pub open spec fn v_dot(a: Vec3, b: Vec3) -> int {
    fadd(
        fadd(fmul(a.x as int, b.x as int), fmul(a.y as int, b.y as int)),
        fmul(a.z as int, b.z as int),
    )
}

/// Cross product.
pub open spec fn v_cross(a: Vec3, b: Vec3) -> Vec3 {
    Vec3 {
        x: fsub(fmul(a.y as int, b.z as int), fmul(a.z as int, b.y as int)) as i64,
        y: fsub(fmul(a.z as int, b.x as int), fmul(a.x as int, b.z as int)) as i64,
        z: fsub(fmul(a.x as int, b.y as int), fmul(a.y as int, b.x as int)) as i64,
    }
}

/// Euclidean length: square root of the squared length.
pub open spec fn v_len(a: Vec3) -> int {
    fsqrt(v_dot(a, a))
}

/// Normalization. Callers are expected never to normalize a zero-length
/// vector; rather than divide by zero, it is returned unchanged.
pub open spec fn v_unit(a: Vec3) -> Vec3 {
    if v_len(a) == 0 {
        a
    } else {
        v_div_scalar(a, v_len(a))
    }
}

/// All components below one quantum: exactly the zero vector.
pub open spec fn v_near_zero(a: Vec3) -> bool {
    a.x == 0 && a.y == 0 && a.z == 0
}

/// Mirror reflection of `d` about `n`: `d - 2*(dot(d,n)*n)`.
pub open spec fn v_reflect(d: Vec3, n: Vec3) -> Vec3 {
    v_sub(d, v_scale(TWO as int, v_scale(v_dot(d, n), n)))
}

/// Refraction of the unit direction `uv` at a surface with unit normal
/// `n`, by the vector form of Snell's law.
pub open spec fn v_refract(uv: Vec3, n: Vec3, etai_over_etat: int) -> Vec3 {
    let cos_theta = if v_dot(v_neg(uv), n) <= ONE {
        v_dot(v_neg(uv), n)
    } else {
        ONE as int
    };
    let r_out_perp = v_scale(etai_over_etat, v_add(uv, v_scale(cos_theta, n)));
    let k = fsub(ONE as int, v_dot(r_out_perp, r_out_perp));
    let k_abs = if k < 0 {
        fsub(0, k)
    } else {
        k
    };
    let r_out_parallel = v_scale(fsub(0, fsqrt(k_abs)), n);
    v_add(r_out_perp, r_out_parallel)
}

/// Components drawn from [-1, 1): the cube that rejection sampling draws
/// its candidates from.
pub open spec fn in_cube(v: Vec3) -> bool {
    -ONE <= v.x < ONE && -ONE <= v.y < ONE && -ONE <= v.z < ONE
}

/// A candidate the rejection step accepts: inside the cube, with length
/// between one half and 1.
pub open spec fn accepted_sample(v: Vec3) -> bool {
    in_cube(v) && MIN_SAMPLE_LEN <= v_len(v) <= ONE
}

/// A unit direction produced by normalizing some accepted candidate.
pub open spec fn is_random_unit(u: Vec3) -> bool {
    exists|v: Vec3| #[trigger] accepted_sample(v) && u == v_div_scalar(v, v_len(v))
}

/// A squared component is non-negative, so the self dot product is too.
pub proof fn lemma_dot_self_nonneg(a: Vec3)
    ensures
        0 <= v_dot(a, a) <= i64::MAX,
{
    assert(a.x as int * a.x as int >= 0) by (nonlinear_arith);
    assert(a.y as int * a.y as int >= 0) by (nonlinear_arith);
    assert(a.z as int * a.z as int >= 0) by (nonlinear_arith);
    vstd::arithmetic::div_mod::lemma_div_pos_is_pos(a.x as int * a.x as int, ONE as int);
    vstd::arithmetic::div_mod::lemma_div_pos_is_pos(a.y as int * a.y as int, ONE as int);
    vstd::arithmetic::div_mod::lemma_div_pos_is_pos(a.z as int * a.z as int, ONE as int);
}

impl Vec3 {
    /// The first component.
    pub fn x(&self) -> (r: i64)
        ensures
            r == self.x,
    {
        self.x
    }

    /// The second component.
    pub fn y(&self) -> (r: i64)
        ensures
            r == self.y,
    {
        self.y
    }

    /// The third component.
    pub fn z(&self) -> (r: i64)
        ensures
            r == self.z,
    {
        self.z
    }

    /// Componentwise sum.
    pub fn add(self, u: Vec3) -> (r: Vec3)
        ensures
            r == v_add(self, u),
    {
        Vec3 { x: fx_add(self.x, u.x), y: fx_add(self.y, u.y), z: fx_add(self.z, u.z) }
    }

    /// Componentwise difference.
    pub fn sub(self, u: Vec3) -> (r: Vec3)
        ensures
            r == v_sub(self, u),
    {
        Vec3 { x: fx_sub(self.x, u.x), y: fx_sub(self.y, u.y), z: fx_sub(self.z, u.z) }
    }

    /// Componentwise product.
    pub fn mul(self, u: Vec3) -> (r: Vec3)
        ensures
            r == v_mul(self, u),
    {
        Vec3 { x: fx_mul(self.x, u.x), y: fx_mul(self.y, u.y), z: fx_mul(self.z, u.z) }
    }

    /// Componentwise quotient.
    pub fn div(self, u: Vec3) -> (r: Vec3)
        requires
            u.x != 0,
            u.y != 0,
            u.z != 0,
        ensures
            r == v_div(self, u),
    {
        Vec3 { x: fx_div(self.x, u.x), y: fx_div(self.y, u.y), z: fx_div(self.z, u.z) }
    }

    /// The vector scaled by `k`.
    pub fn scale(self, k: i64) -> (r: Vec3)
        ensures
            r == v_scale(k as int, self),
    {
        Vec3 { x: fx_mul(k, self.x), y: fx_mul(k, self.y), z: fx_mul(k, self.z) }
    }

    /// The vector divided by the scalar `k`.
    pub fn div_scalar(self, k: i64) -> (r: Vec3)
        requires
            k != 0,
        ensures
            r == v_div_scalar(self, k as int),
    {
        Vec3 { x: fx_div(self.x, k), y: fx_div(self.y, k), z: fx_div(self.z, k) }
    }

    /// The negated vector.
    pub fn neg(self) -> (r: Vec3)
        ensures
            r == v_neg(self),
    {
        Vec3 { x: fx_sub(0, self.x), y: fx_sub(0, self.y), z: fx_sub(0, self.z) }
    }

    /// Dot product.
    pub fn dot(self, u: Vec3) -> (r: i64)
        ensures
            r as int == v_dot(self, u),
    {
        fx_add(fx_add(fx_mul(self.x, u.x), fx_mul(self.y, u.y)), fx_mul(self.z, u.z))
    }

    /// Cross product.
    pub fn cross(self, u: Vec3) -> (r: Vec3)
        ensures
            r == v_cross(self, u),
    {
        Vec3 {
            x: fx_sub(fx_mul(self.y, u.z), fx_mul(self.z, u.y)),
            y: fx_sub(fx_mul(self.z, u.x), fx_mul(self.x, u.z)),
            z: fx_sub(fx_mul(self.x, u.y), fx_mul(self.y, u.x)),
        }
    }

    /// Euclidean length.
    pub fn length(&self) -> (r: i64)
        ensures
            r as int == v_len(*self),
            r >= 0,
            is_sqrt(v_dot(*self, *self) * (ONE as int), r as int),
    {
        proof {
            lemma_dot_self_nonneg(*self);
        }
        let squared = self.dot(*self);
        fx_sqrt(squared)
    }

    /// Unit-length normalization; the zero vector is returned unchanged.
    pub fn unit(self) -> (r: Vec3)
        ensures
            r == v_unit(self),
    {
        let length = self.length();
        if length == 0 {
            self
        } else {
            self.div_scalar(length)
        }
    }

    /// True exactly when every component is below one quantum in magnitude.
    pub fn near_zero(self) -> (r: bool)
        ensures
            r == v_near_zero(self),
    {
        -NEAR_ZERO_EPS < self.x && self.x < NEAR_ZERO_EPS && -NEAR_ZERO_EPS < self.y
            && self.y < NEAR_ZERO_EPS && -NEAR_ZERO_EPS < self.z && self.z < NEAR_ZERO_EPS
    }

    /// Mirror reflection of `inciding` about `normal`.
    pub fn reflect(inciding: &Vec3, normal: &Vec3) -> (r: Vec3)
        ensures
            r == v_reflect(*inciding, *normal),
    {
        let d = inciding.dot(*normal);
        inciding.sub(normal.scale(d).scale(TWO))
    }

    /// Refraction of this unit direction at a surface with unit normal
    /// `normal`, given the ratio of refractive indices.
    pub fn refract(self, normal: Vec3, etai_over_etat: i64) -> (r: Vec3)
        ensures
            r == v_refract(self, normal, etai_over_etat as int),
    {
        let cos_theta = fx_min(self.neg().dot(normal), ONE);
        let r_out_perp = self.add(normal.scale(cos_theta)).scale(etai_over_etat);
        let k = fx_sub(ONE, r_out_perp.dot(r_out_perp));
        let k_abs = if k < 0 {
            fx_sub(0, k)
        } else {
            k
        };
        let r_out_parallel = normal.scale(fx_sub(0, fx_sqrt(k_abs)));
        r_out_perp.add(r_out_parallel)
    }

    /// Each component drawn uniformly from [min, max).
    fn random_within(rng: &mut RandSource, min: i64, max: i64) -> (r: Vec3)
        requires
            min < max,
            max - min <= i64::MAX,
        ensures
            min <= r.x < max,
            min <= r.y < max,
            min <= r.z < max,
    {
        Vec3 {
            x: crate::random::random_within(rng, min, max),
            y: crate::random::random_within(rng, min, max),
            z: crate::random::random_within(rng, min, max),
        }
    }

    /// A uniformly distributed unit direction, by rejection sampling:
    /// candidates are drawn from the cube [-1, 1)^3 and redrawn until one
    /// has length between one half and 1, which is then normalized.
    /// (Naively normalizing a cube sample would bias directions toward
    /// the cube's corners; the lower cutoff keeps the result provably
    /// within eight millionths of unit length without biasing direction.)
    pub fn random_unit(rng: &mut RandSource) -> (r: Vec3)
        ensures
            is_random_unit(r),
            ONE - 8 <= v_len(r) <= ONE + 8,
    {
        // An accepted candidate arrives with probability close to one half
        // per draw, so the retry bound is never reached in practice; it
        // makes termination a theorem rather than a near-certainty. The
        // bound exhausted, a fixed in-sphere candidate takes over.
        let mut attempts: u32 = 0;
        while attempts < 64
            decreases 64 - attempts,
        {
            let reflected = Self::random_within(rng, -ONE, ONE);
            let len = reflected.length();
            if MIN_SAMPLE_LEN <= len && len <= ONE {
                proof {
                    assert(accepted_sample(reflected));
                    lemma_unit_length_close(reflected);
                }
                return reflected.div_scalar(len);
            }
            attempts = attempts + 1;
        }
        let fallback = Vec3 { x: 500000, y: 0, z: 0 };
        let len = fallback.length();
        proof {
            assert(500000int * 500000int == 250000000000int) by (nonlinear_arith);
            assert(fmul(500000, 500000) == 250000);
            assert(fmul(0, 0) == 0);
            assert(v_dot(fallback, fallback) == 250000);
            assert(is_sqrt(250000 * (ONE as int), 500000));
            crate::fixed::lemma_sqrt_floor_unique(250000 * (ONE as int), 500000);
            assert(v_len(fallback) == 500000);
            assert(accepted_sample(fallback));
            lemma_unit_length_close(fallback);
        }
        fallback.div_scalar(len)
    }
}

/// Adding then subtracting the same vector is the identity, whenever the
/// intermediate sums stay inside the scalar range.
pub proof fn lemma_add_sub_cancel(a: Vec3, b: Vec3)
    requires
        i64::MIN <= a.x + b.x <= i64::MAX,
        i64::MIN <= a.y + b.y <= i64::MAX,
        i64::MIN <= a.z + b.z <= i64::MAX,
    ensures
        v_sub(v_add(a, b), b) == a,
{
}

/// The square of a moderate component, scaled down: exact value, range,
/// and the bracketing of the true square between consecutive multiples.
proof fn lemma_square_term_bounds(c: int)
    requires
        vstd::math::abs(c) <= 1_000_000_000_000,
    ensures
        fmul(c, c) == crate::fixed::tdiv(c * c, ONE as int),
        0 <= fmul(c, c) <= 1_000_000_000_000_000_000,
        fmul(c, c) * (ONE as int) <= c * c,
        c * c < (fmul(c, c) + 1) * (ONE as int),
{
    let m = ONE as int;
    assert(0 <= c * c <= 1_000_000_000_000_000_000_000_000) by (nonlinear_arith)
        requires
            -1_000_000_000_000 <= c <= 1_000_000_000_000,
    ;
    crate::fixed::lemma_tdiv_bounds(c * c, m);
    vstd::arithmetic::div_mod::lemma_div_pos_is_pos(c * c, m);
    let t = crate::fixed::tdiv(c * c, m);
    assert(vstd::math::abs(t) == t);
    assert(t * m <= c * c);
    assert(t <= 1_000_000_000_000_000_000) by (nonlinear_arith)
        requires
            t * (1_000_000 as int) <= 1_000_000_000_000_000_000_000_000,
            t >= 0,
    ;
}

/// Bounds for one component of a vector divided by its length `l`: the
/// quotient's square, times `l` squared, brackets the component's square
/// scaled by one squared.
proof fn lemma_scaled_comp_bounds(c: int, l: int)
    requires
        l >= 500_000,
        vstd::math::abs(c) <= 1_000_000_000_000,
    ensures
        ({
            let m = ONE as int;
            let t = crate::fixed::tdiv(c * m, l);
            let q = vstd::math::abs(t) as int;
            &&& t * t == q * q
            &&& 0 <= q <= 2_000_000_000_000
            &&& (q * q) * (l * l) <= (c * c) * (m * m)
            &&& (c * c) * (m * m) < ((q + 1) * (q + 1)) * (l * l)
        }),
{
    let m = ONE as int;
    let t = crate::fixed::tdiv(c * m, l);
    let q = vstd::math::abs(t) as int;
    let ac = vstd::math::abs(c) as int;
    crate::fixed::lemma_tdiv_bounds(c * m, l);
    if c >= 0 {
        assert(vstd::math::abs(c * m) == ac * m);
    } else {
        assert(c * m < 0);
        assert(vstd::math::abs(c * m) == (-c) * m);
        assert(vstd::math::abs(c * m) == ac * m);
    }
    assert(q * l <= ac * m);
    assert(ac * m < (q + 1) * l);
    crate::fixed::lemma_square_order(q, ac * m, l);
    assert((ac * m) * (ac * m) == (c * c) * (m * m)) by (nonlinear_arith)
        requires
            ac == vstd::math::abs(c),
            ac == c || ac == -c,
    ;
    if t >= 0 {
        assert(t * t == q * q);
    } else {
        assert(q == -t);
        assert(t * t == q * q) by (nonlinear_arith)
            requires
                q == -t,
        ;
    }
    assert(q * l <= 1_000_000_000_000_000_000) by (nonlinear_arith)
        requires
            q * l <= ac * (1_000_000 as int),
            0 <= ac <= 1_000_000_000_000,
    ;
    assert(q <= 2_000_000_000_000) by (nonlinear_arith)
        requires
            q >= 0,
            l >= 500_000,
            q * l <= 1_000_000_000_000_000_000,
    ;
}

/// Normalizing a moderate vector of length at least one half yields a
/// vector whose length is one to within a few millionths: each divided
/// component rounds by less than one quantum, and this bound follows the
/// roundings through the dot product and the square root. Each component
/// also keeps its sign, so the result points into the same octant.
pub proof fn lemma_unit_length_close(a: Vec3)
    requires
        v_len(a) >= MIN_SAMPLE_LEN,
        vstd::math::abs(a.x as int) <= 1_000_000_000_000,
        vstd::math::abs(a.y as int) <= 1_000_000_000_000,
        vstd::math::abs(a.z as int) <= 1_000_000_000_000,
    ensures
        ONE - 8 <= v_len(v_unit(a)),
        v_len(v_unit(a)) <= ONE + 8,
        a.x >= 0 ==> v_unit(a).x >= 0,
        a.x <= 0 ==> v_unit(a).x <= 0,
        a.y >= 0 ==> v_unit(a).y >= 0,
        a.y <= 0 ==> v_unit(a).y <= 0,
        a.z >= 0 ==> v_unit(a).z >= 0,
        a.z <= 0 ==> v_unit(a).z <= 0,
{
    let m = ONE as int;
    let cx = a.x as int;
    let cy = a.y as int;
    let cz = a.z as int;

    // The squared length, bracketed by the true sum of squares.
    lemma_square_term_bounds(cx);
    lemma_square_term_bounds(cy);
    lemma_square_term_bounds(cz);
    let d0 = v_dot(a, a);
    assert(d0 == fmul(cx, cx) + fmul(cy, cy) + fmul(cz, cz));
    let s2 = cx * cx + cy * cy + cz * cz;
    assert(d0 * m <= s2 && s2 < d0 * m + 3 * m) by (nonlinear_arith)
        requires
            d0 == fmul(cx, cx) + fmul(cy, cy) + fmul(cz, cz),
            s2 == cx * cx + cy * cy + cz * cz,
            fmul(cx, cx) * m <= cx * cx < (fmul(cx, cx) + 1) * m,
            fmul(cy, cy) * m <= cy * cy < (fmul(cy, cy) + 1) * m,
            fmul(cz, cz) * m <= cz * cz < (fmul(cz, cz) + 1) * m,
    ;

    // The length is the floored square root of the scaled squared length.
    lemma_dot_self_nonneg(a);
    crate::fixed::lemma_sqrt_exists(d0 * m);
    let l = v_len(a);
    assert(crate::fixed::is_sqrt(d0 * m, l));
    assert(l * l <= d0 * m && d0 * m < (l + 1) * (l + 1));
    assert(l >= 500_000 && l != 0);

    // The normalized components and their quotient brackets.
    let u = v_unit(a);
    assert(u == v_div_scalar(a, l));
    lemma_scaled_comp_bounds(cx, l);
    lemma_scaled_comp_bounds(cy, l);
    lemma_scaled_comp_bounds(cz, l);
    let tx = crate::fixed::tdiv(cx * m, l);
    let ty = crate::fixed::tdiv(cy * m, l);
    let tz = crate::fixed::tdiv(cz * m, l);
    let qx = vstd::math::abs(tx) as int;
    let qy = vstd::math::abs(ty) as int;
    let qz = vstd::math::abs(tz) as int;
    assert(u.x as int == tx && u.y as int == ty && u.z as int == tz);
    if cx >= 0 {
        vstd::arithmetic::div_mod::lemma_div_pos_is_pos(cx * m, l);
        assert(tx >= 0);
    } else {
        vstd::arithmetic::div_mod::lemma_div_pos_is_pos(-(cx * m), l);
        assert(tx <= 0);
    }
    if cy >= 0 {
        vstd::arithmetic::div_mod::lemma_div_pos_is_pos(cy * m, l);
        assert(ty >= 0);
    } else {
        vstd::arithmetic::div_mod::lemma_div_pos_is_pos(-(cy * m), l);
        assert(ty <= 0);
    }
    if cz >= 0 {
        vstd::arithmetic::div_mod::lemma_div_pos_is_pos(cz * m, l);
        assert(tz >= 0);
    } else {
        vstd::arithmetic::div_mod::lemma_div_pos_is_pos(-(cz * m), l);
        assert(tz <= 0);
    }

    // Summed upper bound: the normalized squares cannot overshoot much.
    let u2 = qx * qx + qy * qy + qz * qz;
    assert(u2 * (l * l) <= s2 * (m * m)) by (nonlinear_arith)
        requires
            (qx * qx) * (l * l) <= (cx * cx) * (m * m),
            (qy * qy) * (l * l) <= (cy * cy) * (m * m),
            (qz * qz) * (l * l) <= (cz * cz) * (m * m),
            u2 == qx * qx + qy * qy + qz * qz,
            s2 == cx * cx + cy * cy + cz * cz,
    ;
    assert(u2 * (l * l) < (m * m) * ((l + 1) * (l + 1)) + 3 * (m * m * m)) by (nonlinear_arith)
        requires
            u2 * (l * l) <= s2 * (m * m),
            s2 < d0 * m + 3 * m,
            d0 * m < (l + 1) * (l + 1),
            m == 1_000_000,
    ;
    assert(u2 <= m * m + 17_000_000) by (nonlinear_arith)
        requires
            u2 * (l * l) < (m * m) * ((l + 1) * (l + 1)) + 3 * (m * m * m),
            l >= 500_000,
            m == 1_000_000,
            u2 >= 0,
    ;
    assert(qx <= m + 8 && qy <= m + 8 && qz <= m + 8) by (nonlinear_arith)
        requires
            u2 == qx * qx + qy * qy + qz * qz,
            u2 <= m * m + 17_000_000,
            m == 1_000_000,
            qx >= 0,
            qy >= 0,
            qz >= 0,
    ;

    // Summed lower bound: they cannot undershoot much either.
    assert(s2 * (m * m) < (u2 + 2 * (qx + qy + qz) + 3) * (l * l)) by (nonlinear_arith)
        requires
            (cx * cx) * (m * m) < ((qx + 1) * (qx + 1)) * (l * l),
            (cy * cy) * (m * m) < ((qy + 1) * (qy + 1)) * (l * l),
            (cz * cz) * (m * m) < ((qz + 1) * (qz + 1)) * (l * l),
            u2 == qx * qx + qy * qy + qz * qz,
            s2 == cx * cx + cy * cy + cz * cz,
    ;
    assert((m * m) * (l * l) <= s2 * (m * m)) by (nonlinear_arith)
        requires
            l * l <= d0 * m,
            d0 * m <= s2,
            m == 1_000_000,
    ;
    assert(m * m < u2 + 2 * (qx + qy + qz) + 3) by (nonlinear_arith)
        requires
            (m * m) * (l * l) < (u2 + 2 * (qx + qy + qz) + 3) * (l * l),
            l >= 1,
    ;
    assert(u2 > m * m - 6 * m - 51);

    // The normalized dot product sits within nine quanta of one.
    lemma_square_term_bounds(tx);
    lemma_square_term_bounds(ty);
    lemma_square_term_bounds(tz);
    assert(tx * tx == qx * qx && ty * ty == qy * qy && tz * tz == qz * qz);
    let du = v_dot(u, u);
    assert(du == fmul(tx, tx) + fmul(ty, ty) + fmul(tz, tz));
    assert(du * m <= u2 && u2 < (du + 3) * m) by (nonlinear_arith)
        requires
            du == fmul(tx, tx) + fmul(ty, ty) + fmul(tz, tz),
            u2 == qx * qx + qy * qy + qz * qz,
            tx * tx == qx * qx,
            ty * ty == qy * qy,
            tz * tz == qz * qz,
            fmul(tx, tx) * m <= tx * tx < (fmul(tx, tx) + 1) * m,
            fmul(ty, ty) * m <= ty * ty < (fmul(ty, ty) + 1) * m,
            fmul(tz, tz) * m <= tz * tz < (fmul(tz, tz) + 1) * m,
    ;
    assert(m - 9 <= du && du <= m + 17) by (nonlinear_arith)
        requires
            du * m <= u2,
            u2 < (du + 3) * m,
            u2 <= m * m + 17_000_000,
            u2 > m * m - 6 * m - 51,
            m == 1_000_000,
    ;

    // And so does its square root, the normalized length.
    lemma_dot_self_nonneg(u);
    crate::fixed::lemma_sqrt_exists(du * m);
    let r = v_len(u);
    assert(crate::fixed::is_sqrt(du * m, r));
    assert(m - 5 <= r && r <= m + 8) by (nonlinear_arith)
        requires
            r * r <= du * m,
            du * m < (r + 1) * (r + 1),
            m - 9 <= du <= m + 17,
            m == 1_000_000,
            r >= 0,
    ;
}

/// A vector of exact unit length normalizes to itself, so the length of
/// its normalization is exactly one. (For other non-zero vectors the
/// normalized length only approaches one: the lemma above bounds the
/// rounding.)
pub proof fn lemma_unit_of_unit_vector(a: Vec3)
    requires
        v_dot(a, a) == ONE,
    ensures
        v_len(a) == ONE,
        v_unit(a) == a,
{
    assert(is_sqrt((ONE as int) * (ONE as int), ONE as int));
    crate::fixed::lemma_sqrt_floor_unique((ONE as int) * (ONE as int), ONE as int);
    assert(v_len(a) == ONE);
    crate::fixed::lemma_fmul_one(a.x as int);
    crate::fixed::lemma_fmul_one(a.y as int);
    crate::fixed::lemma_fmul_one(a.z as int);
    assert(fdiv(a.x as int, ONE as int) == a.x);
    assert(fdiv(a.y as int, ONE as int) == a.y);
    assert(fdiv(a.z as int, ONE as int) == a.z);
}

/// A ray meeting a boundary head-on with a unit refraction ratio passes
/// through unchanged: refracting the direction `-n` at the unit normal
/// `n` with ratio 1 returns exactly `-n`.
pub proof fn lemma_refract_head_on(n: Vec3)
    requires
        n.x > i64::MIN,
        n.y > i64::MIN,
        n.z > i64::MIN,
        v_dot(n, n) == ONE,
    ensures
        v_refract(v_neg(n), n, ONE as int) == v_neg(n),
{
    let uv = v_neg(n);
    assert(v_neg(uv) == n);
    assert(v_dot(v_neg(uv), n) == ONE);
    crate::fixed::lemma_fmul_one(n.x as int);
    crate::fixed::lemma_fmul_one(n.y as int);
    crate::fixed::lemma_fmul_one(n.z as int);
    assert(v_scale(ONE as int, n) == n);
    let r_out_perp = v_scale(ONE as int, v_add(uv, v_scale(ONE as int, n)));
    assert(v_add(uv, n) == (Vec3 { x: 0, y: 0, z: 0 }));
    crate::fixed::lemma_fmul_one(0);
    assert(r_out_perp == (Vec3 { x: 0, y: 0, z: 0 }));
    assert(v_dot(r_out_perp, r_out_perp) == 0);
    let k = fsub(ONE as int, 0);
    assert(k == ONE);
    assert(is_sqrt((ONE as int) * (ONE as int), ONE as int));
    crate::fixed::lemma_sqrt_floor_unique((ONE as int) * (ONE as int), ONE as int);
    assert(fsqrt(ONE as int) == ONE);
    crate::fixed::lemma_fmul_neg_one(n.x as int);
    crate::fixed::lemma_fmul_neg_one(n.y as int);
    crate::fixed::lemma_fmul_neg_one(n.z as int);
    assert(v_scale(fsub(0, ONE as int), n) == v_neg(n));
    assert(v_add(r_out_perp, v_neg(n)) == v_neg(n));
}

/// The dot product is symmetric in its arguments.
pub proof fn lemma_dot_commutes(a: Vec3, b: Vec3)
    ensures
        v_dot(a, b) == v_dot(b, a),
{
    vstd::arithmetic::mul::lemma_mul_is_commutative(a.x as int, b.x as int);
    vstd::arithmetic::mul::lemma_mul_is_commutative(a.y as int, b.y as int);
    vstd::arithmetic::mul::lemma_mul_is_commutative(a.z as int, b.z as int);
}

} // verus!
