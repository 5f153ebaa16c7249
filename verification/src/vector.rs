//! Three-component fixed-point vectors, their mathematical model, and the
//! approximate length metric that all clamping decisions use.

use vstd::prelude::*;

use crate::fixed::{iabs, is_sqrt_floor, sqrt_floor, tz_div, SCALE};
use crate::fixed::{
    int_sqrt, lemma_tz_div_abs, lemma_tz_div_cancel, lemma_tz_div_le, lemma_tz_div_ordered,
    mul_div,
};
use vstd::arithmetic::mul::lemma_mul_inequality;

use rand::Rng;

verus! {

/// Coordinate bound that keeps a squared magnitude within `i64`.
pub const MAG_LIMIT: i64 = 1_500_000_000;

/// Coordinate bound that keeps the approximate-length arithmetic within
/// `i64`.
pub const ALEN_LIMIT: i64 = 1_000_000_000_000_000;

/// Coordinate bound accepted by truncation.
pub const TRUNC_INPUT_LIMIT: i64 = 40_000_000_000;

/// Largest truncation threshold accepted.
pub const TRUNC_MAX: i64 = 100_000_000;

/// Coordinate bound accepted by interpolation.
pub const INTERP_LIMIT: i64 = 1_000_000_000_000;

/// Mathematical model of a vector: three unbounded integer coordinates.
pub struct Vec3 {
    pub x: int,
    pub y: int,
    pub z: int,
}

/// A 3D vector in fixed-point representation: `SCALE` sub-units per unit.
#[derive(Clone, Copy, Debug, PartialEq, Eq, Structural)]
pub struct Vector {
    pub x: i64,
    pub y: i64,
    pub z: i64,
}

impl View for Vector {
    type V = Vec3;

    open spec fn view(&self) -> Vec3 {
        Vec3 { x: self.x as int, y: self.y as int, z: self.z as int }
    }
}

/// All three coordinates are within `b` of zero.
pub open spec fn bounded(v: Vec3, b: int) -> bool {
    iabs(v.x) <= b && iabs(v.y) <= b && iabs(v.z) <= b
}

pub open spec fn v3_zero() -> Vec3 {
    Vec3 { x: 0, y: 0, z: 0 }
}

pub open spec fn v3_sum(a: Vec3, b: Vec3) -> Vec3 {
    Vec3 { x: a.x + b.x, y: a.y + b.y, z: a.z + b.z }
}

pub open spec fn v3_diff(a: Vec3, b: Vec3) -> Vec3 {
    Vec3 { x: a.x - b.x, y: a.y - b.y, z: a.z - b.z }
}

pub open spec fn v3_neg(a: Vec3) -> Vec3 {
    Vec3 { x: -a.x, y: -a.y, z: -a.z }
}

/// Scaling by a fixed-point factor `k`: each coordinate becomes
/// `c * k / SCALE`, rounded toward zero.
pub open spec fn v3_scale(k: int, v: Vec3) -> Vec3 {
    Vec3 {
        x: tz_div(v.x * k, SCALE as int),
        y: tz_div(v.y * k, SCALE as int),
        z: tz_div(v.z * k, SCALE as int),
    }
}

/// Right-handed cross product; the product of two fixed-point factors is
/// rescaled by `SCALE` to stay in fixed-point representation.
pub open spec fn v3_cross(a: Vec3, b: Vec3) -> Vec3 {
    Vec3 {
        x: tz_div(a.y * b.z - a.z * b.y, SCALE as int),
        y: tz_div(a.z * b.x - a.x * b.z, SCALE as int),
        z: tz_div(a.x * b.y - a.y * b.x, SCALE as int),
    }
}

/// Linear interpolation `from + blend * (to - from)` with a fixed-point
/// blend factor.
pub open spec fn v3_lerp(blend: int, from: Vec3, to: Vec3) -> Vec3 {
    Vec3 {
        x: from.x + tz_div((to.x - from.x) * blend, SCALE as int),
        y: from.y + tz_div((to.y - from.y) * blend, SCALE as int),
        z: from.z + tz_div((to.z - from.z) * blend, SCALE as int),
    }
}

/// Squared magnitude, in squared fixed-point sub-units.
pub open spec fn msq(v: Vec3) -> int {
    v.x * v.x + v.y * v.y + v.z * v.z
}

/// Largest absolute coordinate.
pub open spec fn amax(v: Vec3) -> int {
    let ax = iabs(v.x);
    let ay = iabs(v.y);
    let az = iabs(v.z);
    if ax >= ay && ax >= az {
        ax
    } else if ay >= az {
        ay
    } else {
        az
    }
}

/// Sum of the absolute coordinates.
pub open spec fn asum(v: Vec3) -> int {
    iabs(v.x) + iabs(v.y) + iabs(v.z)
}

/// The approximate length estimate: with the absolute coordinates ordered
/// so that `a` is the largest, `(15*a + 6*(b + c)) / 16`, which equals
/// `a * 15/16 + (b + c) * 6/16`, the classic sqrt-free estimate of the
/// Euclidean length.
pub open spec fn alen(v: Vec3) -> int {
    (9 * amax(v) + 6 * asum(v)) / 16
}

/// Truncation by the approximate metric: a vector whose approximate length
/// exceeds `limit` is scaled down by `limit / alen`; a shorter one is kept.
pub open spec fn v3_trunc(v: Vec3, limit: int) -> Vec3 {
    if alen(v) <= limit {
        v
    } else {
        Vec3 {
            x: tz_div(v.x * limit, alen(v)),
            y: tz_div(v.y * limit, alen(v)),
            z: tz_div(v.z * limit, alen(v)),
        }
    }
}

/// Exact normalization: each coordinate becomes `c * SCALE / magnitude`,
/// so that the result has magnitude close to one unit; the zero vector is
/// left unchanged.
pub open spec fn v3_norm(v: Vec3) -> Vec3 {
    let m = sqrt_floor(msq(v));
    if m == 0 {
        v
    } else {
        Vec3 {
            x: tz_div(v.x * (SCALE as int), m),
            y: tz_div(v.y * (SCALE as int), m),
            z: tz_div(v.z * (SCALE as int), m),
        }
    }
}

impl Vector {
    pub fn new(x: i64, y: i64, z: i64) -> (r: Vector)
        ensures
            r@ == (Vec3 { x: x as int, y: y as int, z: z as int }),
    {
        Vector { x, y, z }
    }

    pub fn set(&mut self, vec: Vector)
        ensures
            final(self)@ == vec@,
    {
        self.x = vec.x;
        self.y = vec.y;
        self.z = vec.z;
    }

    pub fn set_to_zero(&mut self)
        ensures
            final(self)@ == v3_zero(),
    {
        self.x = 0;
        self.y = 0;
        self.z = 0;
    }

    pub fn set_sum(&mut self, vec: Vector, vec2: Vector)
        requires
            i64::MIN <= vec@.x + vec2@.x <= i64::MAX,
            i64::MIN <= vec@.y + vec2@.y <= i64::MAX,
            i64::MIN <= vec@.z + vec2@.z <= i64::MAX,
        ensures
            final(self)@ == v3_sum(vec@, vec2@),
    {
        self.x = vec.x + vec2.x;
        self.y = vec.y + vec2.y;
        self.z = vec.z + vec2.z;
    }

    pub fn set_diff(&mut self, vec: Vector, vec2: Vector)
        requires
            i64::MIN <= vec@.x - vec2@.x <= i64::MAX,
            i64::MIN <= vec@.y - vec2@.y <= i64::MAX,
            i64::MIN <= vec@.z - vec2@.z <= i64::MAX,
        ensures
            final(self)@ == v3_diff(vec@, vec2@),
    {
        self.x = vec.x - vec2.x;
        self.y = vec.y - vec2.y;
        self.z = vec.z - vec2.z;
    }

    pub fn magnitude_squared(&self) -> (r: i64)
        requires
            bounded(self@, MAG_LIMIT as int),
        ensures
            r == msq(self@),
            0 <= r <= 6_750_000_000_000_000_000,
    {
        proof {
            lemma_square_bound(self@.x, MAG_LIMIT as int);
            lemma_square_bound(self@.y, MAG_LIMIT as int);
            lemma_square_bound(self@.z, MAG_LIMIT as int);
        }
        self.x * self.x + self.y * self.y + self.z * self.z
    }

    /// The floor of the exact Euclidean magnitude, in fixed-point
    /// sub-units. It is non-negative, and zero exactly on the zero vector.
    pub fn magnitude(&self) -> (r: i64)
        requires
            bounded(self@, MAG_LIMIT as int),
        ensures
            r == sqrt_floor(msq(self@)),
            is_sqrt_floor(msq(self@), r as int),
            r >= 0,
            r == 0 <==> self@ == v3_zero(),
    {
        let m2 = self.magnitude_squared();
        let r = int_sqrt(m2);
        proof {
            lemma_msq_zero(self@);
            if r == 0 {
                assert(msq(self@) < 1);
            } else {
                assert(r * r >= 1 * 1) by (nonlinear_arith)
                    requires
                        r >= 1,
                ;
            }
            assert(self@ == v3_zero() ==> r == 0) by {
                if self@ == v3_zero() {
                    assert(msq(self@) == 0);
                }
            }
        }
        r
    }

    /// The fast length estimate: sort the absolute coordinates so the
    /// largest comes first (two compare-swaps), then combine them as
    /// `a * 15/16 + (b + c) * 6/16`.
    pub fn approximate_length(&self) -> (r: i64)
        requires
            bounded(self@, ALEN_LIMIT as int),
        ensures
            r == alen(self@),
            r >= 0,
    {
        let mut a: i64 = if self.x < 0 { -self.x } else { self.x };
        let mut b: i64 = if self.y < 0 { -self.y } else { self.y };
        let mut c: i64 = if self.z < 0 { -self.z } else { self.z };

        if a < b {
            let temp = a;
            a = b;
            b = temp;
        }

        if a < c {
            let temp = a;
            a = c;
            c = temp;
        }

        assert(a == amax(self@));
        assert(a + b + c == asum(self@));
        assert(a * 15 + (b + c) * 6 == 9 * amax(self@) + 6 * asum(self@)) by (nonlinear_arith)
            requires
                a == amax(self@) && a + b + c == asum(self@),
        ;
        (a * 15 + (b + c) * 6) / 16
    }

    /// Approximate distance to `vec`: the approximate length of the
    /// coordinate difference.
    pub fn approximate_distance(&self, vec: &Vector) -> (r: i64)
        requires
            bounded(v3_diff(self@, vec@), ALEN_LIMIT as int),
        ensures
            r == alen(v3_diff(self@, vec@)),
            r >= 0,
    {
        let mut dist_temp = Vector::new(0, 0, 0);
        dist_temp.set_diff(*self, *vec);
        dist_temp.approximate_length()
    }

    pub fn set_scale(&mut self, scale_factor: i64, vec: Vector)
        requires
            -(i64::MAX as int) <= vec@.x * scale_factor <= i64::MAX as int,
            -(i64::MAX as int) <= vec@.y * scale_factor <= i64::MAX as int,
            -(i64::MAX as int) <= vec@.z * scale_factor <= i64::MAX as int,
        ensures
            final(self)@ == v3_scale(scale_factor as int, vec@),
    {
        self.x = mul_div(vec.x, scale_factor, SCALE);
        self.y = mul_div(vec.y, scale_factor, SCALE);
        self.z = mul_div(vec.z, scale_factor, SCALE);
    }

    pub fn set_cross(&mut self, vec: Vector, vec2: Vector)
        requires
            bounded(vec@, MAG_LIMIT as int),
            bounded(vec2@, MAG_LIMIT as int),
        ensures
            final(self)@ == v3_cross(vec@, vec2@),
    {
        proof {
            lemma_cross_products_bounded(vec@, vec2@);
            lemma_tz_div_abs(vec@.y * vec2@.z - vec@.z * vec2@.y, SCALE as int);
            lemma_tz_div_abs(vec@.z * vec2@.x - vec@.x * vec2@.z, SCALE as int);
            lemma_tz_div_abs(vec@.x * vec2@.y - vec@.y * vec2@.x, SCALE as int);
        }
        self.x = (vec.y * vec2.z - vec.z * vec2.y) / SCALE;
        self.y = (vec.z * vec2.x - vec.x * vec2.z) / SCALE;
        self.z = (vec.x * vec2.y - vec.y * vec2.x) / SCALE;
    }

    /// Blend from `vec` toward `vec2`: `vec + blend * (vec2 - vec)` with a
    /// fixed-point blend factor between zero and one.
    pub fn set_interpolation(&mut self, blend: i64, vec: Vector, vec2: Vector)
        requires
            0 <= blend <= SCALE,
            bounded(vec@, INTERP_LIMIT as int),
            bounded(vec2@, INTERP_LIMIT as int),
        ensures
            final(self)@ == v3_lerp(blend as int, vec@, vec2@),
            bounded(final(self)@, INTERP_LIMIT as int),
    {
        proof {
            lemma_lerp_in_range(vec@.x, vec2@.x, blend as int);
            lemma_lerp_in_range(vec@.y, vec2@.y, blend as int);
            lemma_lerp_in_range(vec@.z, vec2@.z, blend as int);
            lemma_mul_abs_bound(vec2@.x - vec@.x, blend as int, 2 * INTERP_LIMIT, SCALE as int);
            lemma_mul_abs_bound(vec2@.y - vec@.y, blend as int, 2 * INTERP_LIMIT, SCALE as int);
            lemma_mul_abs_bound(vec2@.z - vec@.z, blend as int, 2 * INTERP_LIMIT, SCALE as int);
        }
        self.x = vec.x + mul_div(vec2.x - vec.x, blend, SCALE);
        self.y = vec.y + mul_div(vec2.y - vec.y, blend, SCALE);
        self.z = vec.z + mul_div(vec2.z - vec.z, blend, SCALE);
    }

    /// Draw a point from the unit ball by rejection sampling: each
    /// coordinate is drawn uniformly from one unit around zero, and the
    /// whole triple is redrawn while its squared magnitude exceeds one
    /// squared unit. Attempts are capped (a cap of a thousand is hit with
    /// probability well below any practical concern) and the zero vector,
    /// which lies in the ball, is the fallback.
    pub fn gen_random_vector(&mut self)
        ensures
            msq(final(self)@) <= (SCALE as int) * (SCALE as int),
            bounded(final(self)@, SCALE as int),
    {
        self.x = random_in(-SCALE, SCALE);
        self.y = random_in(-SCALE, SCALE);
        self.z = random_in(-SCALE, SCALE);

        let mut tries: u64 = 0;
        while self.magnitude_squared() > SCALE * SCALE && tries < 1000
            invariant
                bounded(self@, SCALE as int),
                tries <= 1000,
            decreases 1000 - tries,
        {
            self.x = random_in(-SCALE, SCALE);
            self.y = random_in(-SCALE, SCALE);
            self.z = random_in(-SCALE, SCALE);
            tries = tries + 1;
        }
        if self.magnitude_squared() > SCALE * SCALE {
            self.set_to_zero();
        }
    }

    /// Scale to (approximately) unit length using the exact magnitude; the
    /// zero vector, whose magnitude is zero, is left unchanged.
    pub fn set_normalize(&mut self)
        requires
            bounded(old(self)@, MAG_LIMIT as int),
        ensures
            final(self)@ == v3_norm(old(self)@),
            bounded(final(self)@, SCALE as int),
            old(self)@ == v3_zero() ==> final(self)@ == old(self)@,
    {
        let mag: i64 = self.magnitude();
        if mag != 0 {
            proof {
                lemma_coords_below_magnitude(old(self)@, mag as int);
                lemma_norm_coord_bounded(old(self)@.x, mag as int);
                lemma_norm_coord_bounded(old(self)@.y, mag as int);
                lemma_norm_coord_bounded(old(self)@.z, mag as int);
            }
            self.x = mul_div(self.x, SCALE, mag);
            self.y = mul_div(self.y, SCALE, mag);
            self.z = mul_div(self.z, SCALE, mag);
        }
    }

    /// Clamp the approximate length to `threshold`, preserving direction:
    /// a vector measuring longer than `threshold` is scaled by
    /// `threshold / approximate_length`.
    pub fn set_approximate_truncate(&mut self, threshold: i64)
        requires
            bounded(old(self)@, TRUNC_INPUT_LIMIT as int),
            0 <= threshold <= TRUNC_MAX,
        ensures
            final(self)@ == v3_trunc(old(self)@, threshold as int),
            alen(final(self)@) <= threshold,
            bounded(final(self)@, 2 * threshold + 1),
    {
        let length: i64 = self.approximate_length();
        proof {
            lemma_trunc_alen(old(self)@, threshold as int);
        }
        if length > threshold {
            proof {
                lemma_mul_abs_bound(
                    old(self)@.x,
                    threshold as int,
                    TRUNC_INPUT_LIMIT as int,
                    TRUNC_MAX as int,
                );
                lemma_mul_abs_bound(
                    old(self)@.y,
                    threshold as int,
                    TRUNC_INPUT_LIMIT as int,
                    TRUNC_MAX as int,
                );
                lemma_mul_abs_bound(
                    old(self)@.z,
                    threshold as int,
                    TRUNC_INPUT_LIMIT as int,
                    TRUNC_MAX as int,
                );
            }
            self.x = mul_div(self.x, threshold, length);
            self.y = mul_div(self.y, threshold, length);
            self.z = mul_div(self.z, threshold, length);
        }
    }
}

/// Relies on rand's `Rng::gen_range` over an inclusive range: the sample
/// lies within the given bounds, and the call panics only on an empty
/// range, which the precondition rules out.
#[verifier::external_body]
fn random_in(lo: i64, hi: i64) -> (r: i64)
    requires
        lo <= hi,
    ensures
        lo <= r <= hi,
{
    rand::thread_rng().gen_range(lo..=hi)
}

/// The magnitude of a product is bounded by the product of coordinate
/// bounds.
pub proof fn lemma_mul_abs_bound(x: int, y: int, bx: int, by: int)
    requires
        iabs(x) <= bx,
        iabs(y) <= by,
    ensures
        iabs(x * y) <= bx * by,
{
    assert(-(bx * by) <= x * y <= bx * by) by (nonlinear_arith)
        requires
            -bx <= x <= bx && -by <= y <= by,
    ;
}

/// Each difference of coordinate products inside a cross product of
/// magnitude-bounded vectors stays within `i64`.
proof fn lemma_cross_products_bounded(a: Vec3, b: Vec3)
    requires
        bounded(a, MAG_LIMIT as int),
        bounded(b, MAG_LIMIT as int),
    ensures
        iabs(a.y * b.z - a.z * b.y) <= 2 * (MAG_LIMIT as int) * (MAG_LIMIT as int),
        iabs(a.z * b.x - a.x * b.z) <= 2 * (MAG_LIMIT as int) * (MAG_LIMIT as int),
        iabs(a.x * b.y - a.y * b.x) <= 2 * (MAG_LIMIT as int) * (MAG_LIMIT as int),
        iabs(a.y * b.z) <= (MAG_LIMIT as int) * (MAG_LIMIT as int),
        iabs(a.z * b.y) <= (MAG_LIMIT as int) * (MAG_LIMIT as int),
        iabs(a.z * b.x) <= (MAG_LIMIT as int) * (MAG_LIMIT as int),
        iabs(a.x * b.z) <= (MAG_LIMIT as int) * (MAG_LIMIT as int),
        iabs(a.x * b.y) <= (MAG_LIMIT as int) * (MAG_LIMIT as int),
        iabs(a.y * b.x) <= (MAG_LIMIT as int) * (MAG_LIMIT as int),
{
    let l = MAG_LIMIT as int;
    lemma_mul_abs_bound(a.y, b.z, l, l);
    lemma_mul_abs_bound(a.z, b.y, l, l);
    lemma_mul_abs_bound(a.z, b.x, l, l);
    lemma_mul_abs_bound(a.x, b.z, l, l);
    lemma_mul_abs_bound(a.x, b.y, l, l);
    lemma_mul_abs_bound(a.y, b.x, l, l);
}

/// An interpolated coordinate lies between its two endpoints.
pub proof fn lemma_lerp_in_range(from: int, to: int, blend: int)
    requires
        0 <= blend <= SCALE,
    ensures
        from <= to ==> from <= from + tz_div((to - from) * blend, SCALE as int) <= to,
        to <= from ==> to <= from + tz_div((to - from) * blend, SCALE as int) <= from,
{
    let s = SCALE as int;
    let d = to - from;
    let t = tz_div(d * blend, s);
    lemma_tz_div_abs(d * blend, s);
    assert(iabs(d * blend) <= iabs(d) * s) by (nonlinear_arith)
        requires
            0 <= blend <= s,
    ;
    lemma_tz_div_ordered(d * blend, d * s, s);
    lemma_tz_div_cancel(d, s);
    assert(iabs(tz_div(d * s, s)) == iabs(d));
    assert(iabs(t) <= iabs(d));
    if d >= 0 {
        assert(d * blend >= 0) by (nonlinear_arith)
            requires
                d >= 0 && blend >= 0,
        ;
    } else {
        assert(d * blend <= 0) by (nonlinear_arith)
            requires
                d <= 0 && blend >= 0,
        ;
    }
}

/// Every coordinate of a vector is bounded by the vector's magnitude.
proof fn lemma_coords_below_magnitude(v: Vec3, m: int)
    requires
        is_sqrt_floor(msq(v), m),
    ensures
        iabs(v.x) <= m,
        iabs(v.y) <= m,
        iabs(v.z) <= m,
{
    assert(v.x * v.x >= 0 && v.y * v.y >= 0 && v.z * v.z >= 0) by (nonlinear_arith);
    assert(iabs(v.x) <= m) by (nonlinear_arith)
        requires
            v.x * v.x < (m + 1) * (m + 1) && m >= 0,
    ;
    assert(iabs(v.y) <= m) by (nonlinear_arith)
        requires
            v.y * v.y < (m + 1) * (m + 1) && m >= 0,
    ;
    assert(iabs(v.z) <= m) by (nonlinear_arith)
        requires
            v.z * v.z < (m + 1) * (m + 1) && m >= 0,
    ;
}

/// A coordinate no larger than the magnitude, rescaled by `SCALE` over the
/// magnitude, stays within `SCALE`; the product also stays within `i64`.
proof fn lemma_norm_coord_bounded(x: int, m: int)
    requires
        0 < m,
        iabs(x) <= m,
        iabs(x) <= MAG_LIMIT as int,
    ensures
        iabs(x * (SCALE as int)) <= (MAG_LIMIT as int) * (SCALE as int),
        iabs(tz_div(x * (SCALE as int), m)) <= SCALE as int,
{
    let s = SCALE as int;
    lemma_mul_abs_bound(x, s, MAG_LIMIT as int, s);
    assert(iabs(x * s) <= iabs(m * s)) by (nonlinear_arith)
        requires
            -m <= x <= m && s >= 0 && m >= 0,
    ;
    lemma_tz_div_ordered(x * s, m * s, m);
    lemma_tz_div_cancel(s, m);
    assert(m * s == s * m) by (nonlinear_arith);
    assert(iabs(tz_div(m * s, m)) == iabs(s));
}

/// Basic facts about the approximate length: it is non-negative, it
/// bounds the weighted coordinate sum from both sides, and the largest
/// coordinate is below twice the approximate length, plus one.
pub proof fn lemma_alen_bounds(v: Vec3)
    ensures
        alen(v) >= 0,
        16 * alen(v) <= 9 * amax(v) + 6 * asum(v) < 16 * alen(v) + 16,
        amax(v) <= 2 * alen(v) + 1,
        0 <= amax(v) <= asum(v),
{
    let s = 9 * amax(v) + 6 * asum(v);
    vstd::arithmetic::div_mod::lemma_fundamental_div_mod(s, 16);
    vstd::arithmetic::div_mod::lemma_mod_division_less_than_divisor(s, 16);
    vstd::arithmetic::div_mod::lemma_div_pos_is_pos(s, 16);
}

/// Truncation really clamps: the truncated vector's approximate length
/// never exceeds the threshold, and each coordinate stays within twice the
/// threshold, plus one.
pub proof fn lemma_trunc_alen(v: Vec3, limit: int)
    requires
        0 <= limit,
    ensures
        alen(v3_trunc(v, limit)) <= limit,
        bounded(v3_trunc(v, limit), 2 * limit + 1),
{
    lemma_alen_bounds(v);
    if alen(v) <= limit {
        lemma_alen_comp_bound(v, limit);
    } else {
        let d = alen(v);
        let w = v3_trunc(v, limit);
        lemma_tz_div_abs(v.x * limit, d);
        lemma_tz_div_abs(v.y * limit, d);
        lemma_tz_div_abs(v.z * limit, d);
        assert(iabs(v.x * limit) == iabs(v.x) * limit) by (nonlinear_arith)
            requires
                limit >= 0,
        ;
        assert(iabs(v.y * limit) == iabs(v.y) * limit) by (nonlinear_arith)
            requires
                limit >= 0,
        ;
        assert(iabs(v.z * limit) == iabs(v.z) * limit) by (nonlinear_arith)
            requires
                limit >= 0,
        ;
        // Each coordinate magnitude, multiplied by d, is below the old
        // magnitude times the threshold.
        assert(d * iabs(w.x) <= iabs(v.x) * limit);
        assert(d * iabs(w.y) <= iabs(v.y) * limit);
        assert(d * iabs(w.z) <= iabs(v.z) * limit);
        // The same holds for the largest coordinate and the coordinate sum.
        lemma_mul_inequality(iabs(v.x), amax(v), limit);
        lemma_mul_inequality(iabs(v.y), amax(v), limit);
        lemma_mul_inequality(iabs(v.z), amax(v), limit);
        assert(d * amax(w) <= amax(v) * limit);
        assert(d * asum(w) <= asum(v) * limit) by (nonlinear_arith)
            requires
                asum(w) == iabs(w.x) + iabs(w.y) + iabs(w.z),
                asum(v) == iabs(v.x) + iabs(v.y) + iabs(v.z),
                d * iabs(w.x) <= iabs(v.x) * limit,
                d * iabs(w.y) <= iabs(v.y) * limit,
                d * iabs(w.z) <= iabs(v.z) * limit,
        ;
        let sw = 9 * amax(w) + 6 * asum(w);
        let sv = 9 * amax(v) + 6 * asum(v);
        assert(d * sw == 9 * (d * amax(w)) + 6 * (d * asum(w))) by (nonlinear_arith)
            requires
                sw == 9 * amax(w) + 6 * asum(w),
        ;
        assert(sv * limit == 9 * (amax(v) * limit) + 6 * (asum(v) * limit)) by (nonlinear_arith)
            requires
                sv == 9 * amax(v) + 6 * asum(v),
        ;
        assert(d * sw <= sv * limit);
        lemma_alen_bounds(w);
        // Combine: 16 d alen(w) <= d sw <= sv limit <= (16 d + 15) limit
        //          < 16 d (limit + 1), then cancel the positive 16 d.
        assert(d * (16 * alen(w)) <= d * sw) by (nonlinear_arith)
            requires
                d > 0 && 16 * alen(w) <= sw,
        ;
        assert(sv * limit <= (16 * d + 15) * limit) by (nonlinear_arith)
            requires
                sv <= 16 * d + 15 && limit >= 0,
        ;
        assert((16 * d + 15) * limit == (16 * d) * limit + 15 * limit) by (nonlinear_arith);
        assert(15 * limit < 16 * d);
        assert(d * (16 * alen(w)) == (16 * d) * alen(w)) by (nonlinear_arith);
        assert((16 * d) * limit + 16 * d == (16 * d) * (limit + 1)) by (nonlinear_arith);
        assert((16 * d) * alen(w) < (16 * d) * (limit + 1));
        assert(alen(w) < limit + 1) by (nonlinear_arith)
            requires
                (16 * d) * alen(w) < (16 * d) * (limit + 1) && d > 0,
        ;
        lemma_alen_comp_bound(w, limit);
    }
}

/// A vector whose approximate length is at most `l` has every coordinate
/// within `2 * l + 1`.
pub proof fn lemma_alen_comp_bound(v: Vec3, l: int)
    requires
        alen(v) <= l,
        0 <= l,
    ensures
        bounded(v, 2 * l + 1),
{
    lemma_alen_bounds(v);
}

/// The approximate length tracks the exact magnitude: it is never more
/// than twice the magnitude, and the magnitude is never more than three
/// times the approximate length, plus one. (Empirically the estimate is
/// far closer; this states the provable sandwich over the integer
/// arithmetic.)
pub proof fn lemma_alen_tracks_magnitude(v: Vec3, m: int)
    requires
        is_sqrt_floor(msq(v), m),
    ensures
        alen(v) <= 2 * m,
        m <= 3 * alen(v) + 1,
{
    lemma_alen_bounds(v);
    lemma_coords_below_magnitude(v, m);
    let a = amax(v);
    assert(asum(v) <= 3 * a);
    assert(16 * alen(v) <= 27 * a);
    assert(a <= m);
    assert(alen(v) <= 2 * m);
    if a == 0 {
        assert(v == v3_zero());
        lemma_msq_zero(v);
        assert(m * m <= 0);
        assert(m == 0) by (nonlinear_arith)
            requires
                m * m <= 0 && m >= 0,
        ;
    } else {
        assert(v.x * v.x <= a * a) by (nonlinear_arith)
            requires
                -a <= v.x <= a,
        ;
        assert(v.y * v.y <= a * a) by (nonlinear_arith)
            requires
                -a <= v.y <= a,
        ;
        assert(v.z * v.z <= a * a) by (nonlinear_arith)
            requires
                -a <= v.z <= a,
        ;
        assert(m * m <= 3 * (a * a));
        assert(m <= 2 * a - 1) by (nonlinear_arith)
            requires
                m * m <= 3 * (a * a) && m >= 0 && a >= 1,
        ;
        assert(15 * a <= 16 * alen(v) + 15);
        assert(m <= 3 * alen(v) + 1);
    }
}

/// A scaled-then-divided coordinate, multiplied back by the divisor, has
/// a square within `2 * a * SCALE * m` of the square of the scaled
/// coordinate (the flooring loses less than `m`).
proof fn lemma_scaled_square_bounds(a: int, m: int)
    requires
        0 <= a,
        1 <= m,
    ensures
        ({
            let u = m * ((a * (SCALE as int)) / m);
            &&& u * u <= (a * (SCALE as int)) * (a * (SCALE as int))
            &&& (a * (SCALE as int)) * (a * (SCALE as int)) - 2 * (a * (SCALE as int)) * m
                <= u * u
        }),
{
    let s = SCALE as int;
    let p = a * s;
    assert(p >= 0) by (nonlinear_arith)
        requires
            p == a * s && a >= 0 && s == 1_000_000,
    ;
    let q = p / m;
    let u = m * q;
    vstd::arithmetic::div_mod::lemma_fundamental_div_mod(p, m);
    vstd::arithmetic::div_mod::lemma_mod_division_less_than_divisor(p, m);
    vstd::arithmetic::div_mod::lemma_div_pos_is_pos(p, m);
    assert(u >= 0) by (nonlinear_arith)
        requires
            u == m * q && m >= 1 && q >= 0,
    ;
    assert(u == p - p % m);
    assert(u <= p);
    assert(u * u <= p * p) by (nonlinear_arith)
        requires
            0 <= u <= p,
    ;
    assert(p - m < u);
    if p >= m {
        assert((p - m) * (p - m) <= u * u) by (nonlinear_arith)
            requires
                0 <= p - m < u,
        ;
        assert((p - m) * (p - m) == p * p - 2 * p * m + m * m) by (nonlinear_arith);
        assert(m * m >= 0) by (nonlinear_arith);
    } else {
        assert(p * p - 2 * p * m <= 0) by (nonlinear_arith)
            requires
                0 <= p <= m,
        ;
        assert(u * u >= 0) by (nonlinear_arith);
    }
}

/// The absolute value distributes over a product with a non-negative
/// factor, and a square equals the square of the absolute value.
proof fn lemma_abs_facts(x: int, s: int)
    requires
        s >= 0,
    ensures
        iabs(x * s) == iabs(x) * s,
        x * x == iabs(x) * iabs(x),
{
    if x >= 0 {
        assert(x * s >= 0) by (nonlinear_arith)
            requires
                x >= 0 && s >= 0,
        ;
    } else {
        assert(x * s <= 0) by (nonlinear_arith)
            requires
                x <= 0 && s >= 0,
        ;
        assert(-(x * s) == (-x) * s) by (nonlinear_arith);
        assert(x * x == (-x) * (-x)) by (nonlinear_arith);
    }
}

/// Normalizing a vector of at least one unit's magnitude gives a squared
/// magnitude within a few sub-units of one squared unit: the result's
/// length differs from one unit only by rounding. (Shorter vectors lose
/// relatively more to the fixed-point grid.)
pub proof fn lemma_norm_near_unit(v: Vec3, m: int)
    requires
        is_sqrt_floor(msq(v), m),
        SCALE as int <= m,
    ensures
        (SCALE as int) * (SCALE as int) - 6 * (SCALE as int) <= msq(v3_norm(v)),
        msq(v3_norm(v)) <= (SCALE as int) * (SCALE as int) + 2 * (SCALE as int),
{
    let s = SCALE as int;
    let w = v3_norm(v);
    let ax = iabs(v.x);
    let ay = iabs(v.y);
    let az = iabs(v.z);
    lemma_msq_zero(v);
    crate::fixed::lemma_sqrt_floor_correct(msq(v));
    crate::fixed::lemma_sqrt_floor_unique(msq(v), m, sqrt_floor(msq(v)));
    assert(sqrt_floor(msq(v)) == m);
    lemma_coords_below_magnitude(v, m);
    lemma_tz_div_abs(v.x * s, m);
    lemma_tz_div_abs(v.y * s, m);
    lemma_tz_div_abs(v.z * s, m);
    lemma_abs_facts(v.x, s);
    lemma_abs_facts(v.y, s);
    lemma_abs_facts(v.z, s);
    let qx = (ax * s) / m;
    let qy = (ay * s) / m;
    let qz = (az * s) / m;
    assert(iabs(w.x) == qx && iabs(w.y) == qy && iabs(w.z) == qz);
    lemma_abs_facts(w.x, 1);
    lemma_abs_facts(w.y, 1);
    lemma_abs_facts(w.z, 1);
    assert(w.x * w.x == qx * qx);
    assert(w.y * w.y == qy * qy);
    assert(w.z * w.z == qz * qz);
    lemma_scaled_square_bounds(ax, m);
    lemma_scaled_square_bounds(ay, m);
    lemma_scaled_square_bounds(az, m);
    // Rewrite the per-coordinate bounds over m^2 * q^2 and s^2 * a^2.
    assert((m * qx) * (m * qx) == (m * m) * (qx * qx)) by (nonlinear_arith);
    assert((m * qy) * (m * qy) == (m * m) * (qy * qy)) by (nonlinear_arith);
    assert((m * qz) * (m * qz) == (m * m) * (qz * qz)) by (nonlinear_arith);
    assert((ax * s) * (ax * s) == (s * s) * (ax * ax)) by (nonlinear_arith);
    assert((ay * s) * (ay * s) == (s * s) * (ay * ay)) by (nonlinear_arith);
    assert((az * s) * (az * s) == (s * s) * (az * az)) by (nonlinear_arith);
    assert(v.x * v.x == ax * ax);
    assert(v.y * v.y == ay * ay);
    assert(v.z * v.z == az * az);
    let mw = msq(w);
    let mv = msq(v);
    assert((m * m) * mw == (m * m) * (qx * qx) + (m * m) * (qy * qy) + (m * m) * (qz * qz))
        by (nonlinear_arith)
        requires
            mw == qx * qx + qy * qy + qz * qz,
    ;
    assert((s * s) * mv == (s * s) * (ax * ax) + (s * s) * (ay * ay) + (s * s) * (az * az))
        by (nonlinear_arith)
        requires
            mv == ax * ax + ay * ay + az * az,
    ;
    // Upper side: m^2 mw <= s^2 mv <= s^2 (m^2 + 2 m).
    assert((m * m) * mw <= (s * s) * mv);
    assert((m + 1) * (m + 1) == m * m + 2 * m + 1) by (nonlinear_arith);
    assert(mv <= m * m + 2 * m);
    assert((s * s) * mv <= (s * s) * (m * m) + (2 * (s * s)) * m) by (nonlinear_arith)
        requires
            mv <= m * m + 2 * m,
    ;
    assert(mw <= s * s + 2 * s) by (nonlinear_arith)
        requires
            (m * m) * mw <= (s * s) * (m * m) + (2 * (s * s)) * m,
            m >= s,
            s == 1_000_000,
            mw >= 0,
    ;
    // Lower side: m^2 mw >= s^2 mv - 2 s m (ax + ay + az) >= m^2 (s^2 - 6 s).
    assert(2 * (ax * s) * m + 2 * (ay * s) * m + 2 * (az * s) * m <= 6 * s * (m * m))
        by (nonlinear_arith)
        requires
            0 <= ax <= m && 0 <= ay <= m && 0 <= az <= m && s >= 0,
    ;
    assert((m * m) * mw >= (s * s) * mv - 6 * s * (m * m));
    assert((s * s) * mv >= (s * s) * (m * m)) by (nonlinear_arith)
        requires
            mv >= m * m,
    ;
    assert(mw >= s * s - 6 * s) by (nonlinear_arith)
        requires
            (m * m) * mw >= (s * s) * (m * m) - 6 * s * (m * m),
            m >= 1,
            s == 1_000_000,
    ;
}

/// Coordinate bounds on the factors give a coordinate bound on their
/// rescaled cross product.
pub proof fn lemma_cross_bound(a: Vec3, b: Vec3, ba: int, bb: int)
    requires
        bounded(a, ba),
        bounded(b, bb),
        0 <= ba,
        0 <= bb,
    ensures
        bounded(v3_cross(a, b), (2 * ba * bb) / (SCALE as int)),
{
    lemma_mul_abs_bound(a.y, b.z, ba, bb);
    lemma_mul_abs_bound(a.z, b.y, ba, bb);
    lemma_mul_abs_bound(a.z, b.x, ba, bb);
    lemma_mul_abs_bound(a.x, b.z, ba, bb);
    lemma_mul_abs_bound(a.x, b.y, ba, bb);
    lemma_mul_abs_bound(a.y, b.x, ba, bb);
    assert(2 * ba * bb == ba * bb + ba * bb) by (nonlinear_arith);
    lemma_tz_div_le(a.y * b.z - a.z * b.y, SCALE as int, 2 * ba * bb);
    lemma_tz_div_le(a.z * b.x - a.x * b.z, SCALE as int, 2 * ba * bb);
    lemma_tz_div_le(a.x * b.y - a.y * b.x, SCALE as int, 2 * ba * bb);
}

/// The cross product is antisymmetric, and the cross product of a vector
/// with itself vanishes.
pub proof fn lemma_cross_antisymmetric(a: Vec3, b: Vec3)
    ensures
        v3_cross(a, b) == v3_neg(v3_cross(b, a)),
        v3_cross(a, a) == v3_zero(),
{
    let s = SCALE as int;
    assert(a.y * b.z - a.z * b.y == -(b.y * a.z - b.z * a.y)) by (nonlinear_arith);
    assert(a.z * b.x - a.x * b.z == -(b.z * a.x - b.x * a.z)) by (nonlinear_arith);
    assert(a.x * b.y - a.y * b.x == -(b.x * a.y - b.y * a.x)) by (nonlinear_arith);
    assert(tz_div(-(b.y * a.z - b.z * a.y), s) == -tz_div(b.y * a.z - b.z * a.y, s));
    assert(tz_div(-(b.z * a.x - b.x * a.z), s) == -tz_div(b.z * a.x - b.x * a.z, s));
    assert(tz_div(-(b.x * a.y - b.y * a.x), s) == -tz_div(b.x * a.y - b.y * a.x, s));
    assert(a.y * a.z - a.z * a.y == 0) by (nonlinear_arith);
    assert(a.z * a.x - a.x * a.z == 0) by (nonlinear_arith);
    assert(a.x * a.y - a.y * a.x == 0) by (nonlinear_arith);
}

/// Adding a vector and subtracting it again gives back the original,
/// exactly.
pub proof fn lemma_sum_diff_round_trip(a: Vec3, b: Vec3)
    ensures
        v3_diff(v3_sum(a, b), b) == a,
{
}

/// A square is bounded by the square of a coordinate bound.
pub proof fn lemma_square_bound(x: int, b: int)
    requires
        iabs(x) <= b,
    ensures
        0 <= x * x <= b * b,
{
    assert(0 <= x * x <= b * b) by (nonlinear_arith)
        requires
            -b <= x <= b,
    ;
}

/// The squared magnitude vanishes exactly on the zero vector.
pub proof fn lemma_msq_zero(v: Vec3)
    ensures
        msq(v) >= 0,
        msq(v) == 0 <==> v == v3_zero(),
{
    assert(v.x * v.x >= 0 && v.y * v.y >= 0 && v.z * v.z >= 0) by (nonlinear_arith);
    assert(v.x != 0 ==> v.x * v.x >= 1) by (nonlinear_arith);
    assert(v.y != 0 ==> v.y * v.y >= 1) by (nonlinear_arith);
    assert(v.z != 0 ==> v.z * v.z >= 1) by (nonlinear_arith);
    if msq(v) == 0 {
        assert(v == v3_zero());
    }
}

} // verus!
