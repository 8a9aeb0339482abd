//! Three-component fixed-point vectors, used for points, directions and
//! colors alike.

use vstd::prelude::*;
use crate::fixed::{
    SCALE, fadd, fsub, fneg, fmul, fdiv, fsqrt, fabs, fmin, tdiv, is_isqrt, isqrt,
    lemma_isqrt_exists, lemma_tdiv_bounds, fx_add, fx_sub, fx_neg, fx_mul, fx_div, fx_sqrt,
    fx_abs,
};
use crate::rng::rand_fixed_range;

verus! {

/// Components below this magnitude (1/256 of a unit) count as "near zero";
/// the guard that keeps diffuse scattering away from degenerate directions.
pub const NEAR_ZERO: i64 = 256;

#[derive(Clone, Copy, Debug, PartialEq, Eq, Structural)]
pub struct Vec3 {
    pub x: i64,
    pub y: i64,
    pub z: i64,
}

/// Component-wise saturating sum.
pub open spec fn vadd(a: Vec3, b: Vec3) -> Vec3 {
    Vec3 { x: fadd(a.x, b.x), y: fadd(a.y, b.y), z: fadd(a.z, b.z) }
}

/// Component-wise saturating difference.
pub open spec fn vsub(a: Vec3, b: Vec3) -> Vec3 {
    Vec3 { x: fsub(a.x, b.x), y: fsub(a.y, b.y), z: fsub(a.z, b.z) }
}

/// Component-wise negation.
pub open spec fn vneg(a: Vec3) -> Vec3 {
    Vec3 { x: fneg(a.x), y: fneg(a.y), z: fneg(a.z) }
}

/// The vector scaled by a fixed-point factor.
pub open spec fn vscale(a: Vec3, t: i64) -> Vec3 {
    Vec3 { x: fmul(a.x, t), y: fmul(a.y, t), z: fmul(a.z, t) }
}

/// Component-wise (Hadamard) product, the shape of color attenuation.
pub open spec fn vhadamard(a: Vec3, b: Vec3) -> Vec3 {
    Vec3 { x: fmul(a.x, b.x), y: fmul(a.y, b.y), z: fmul(a.z, b.z) }
}

/// The vector divided by a fixed-point scalar.
pub open spec fn vdiv_by(a: Vec3, t: i64) -> Vec3 {
    Vec3 { x: fdiv(a.x, t), y: fdiv(a.y, t), z: fdiv(a.z, t) }
}

/// Every component of `v` has magnitude at most `m`.
pub open spec fn vbounded(v: Vec3, m: int) -> bool {
    -m <= v.x <= m && -m <= v.y <= m && -m <= v.z <= m
}

/// Dot product; each term carries the fixed-point scale once.
pub open spec fn sdot(a: Vec3, b: Vec3) -> i64 {
    fadd(fadd(fmul(a.x, b.x), fmul(a.y, b.y)), fmul(a.z, b.z))
}

/// Cross product.
pub open spec fn scross(a: Vec3, b: Vec3) -> Vec3 {
    Vec3 {
        x: fsub(fmul(a.y, b.z), fmul(a.z, b.y)),
        y: fsub(fmul(a.z, b.x), fmul(a.x, b.z)),
        z: fsub(fmul(a.x, b.y), fmul(a.y, b.x)),
    }
}

/// Squared length.
pub open spec fn slen_sq(a: Vec3) -> i64 {
    sdot(a, a)
}

/// Length: the rounded-down square root of the squared length.
pub open spec fn slen(a: Vec3) -> i64 {
    fsqrt(slen_sq(a))
}

/// The vector divided by its own length.
pub open spec fn sunit(a: Vec3) -> Vec3 {
    vdiv_by(a, slen(a))
}

/// All components smaller in magnitude than the near-zero guard.
pub open spec fn snear_zero(a: Vec3) -> bool {
    fabs(a.x) < NEAR_ZERO && fabs(a.y) < NEAR_ZERO && fabs(a.z) < NEAR_ZERO
}

/// Mirror reflection about a surface normal: `v - 2 (v . n) n`.
pub open spec fn sreflect(v: Vec3, n: Vec3) -> Vec3 {
    vsub(v, vscale(n, fadd(sdot(v, n), sdot(v, n))))
}

/// Snell refraction of unit direction `v` at normal `n` with index ratio
/// `ratio`, decomposed into components perpendicular and parallel to `n`.
pub open spec fn srefract(v: Vec3, n: Vec3, ratio: i64) -> Vec3 {
    let cos_theta = fmin(sdot(vneg(v), n), SCALE);
    let r_perp = vscale(vadd(v, vscale(n, cos_theta)), ratio);
    let r_par = vscale(n, fneg(fsqrt(fabs(fsub(SCALE, slen_sq(r_perp))))));
    vadd(r_perp, r_par)
}

/// A fixed-point square of any scalar is non-negative.
proof fn lemma_fmul_self_nonneg(a: i64)
    ensures
        fmul(a, a) >= 0,
{
    assert(a * a >= 0) by (nonlinear_arith);
    lemma_tdiv_bounds(a * a, SCALE as int);
}

/// A squared length is non-negative.
pub proof fn lemma_slen_sq_nonneg(v: Vec3)
    ensures
        slen_sq(v) >= 0,
{
    lemma_fmul_self_nonneg(v.x);
    lemma_fmul_self_nonneg(v.y);
    lemma_fmul_self_nonneg(v.z);
}

/// The fixed-point square root of a positive scalar is positive and far from
/// saturation.
pub proof fn lemma_fsqrt_pos(a: i64)
    requires
        a >= 1,
    ensures
        1 <= fsqrt(a) < 0x10000000000,
{
    let n = a * SCALE;
    lemma_isqrt_exists(n);
    let r = isqrt(n);
    assert(is_isqrt(r, n));
    assert(r >= 1) by (nonlinear_arith)
        requires
            is_isqrt(r, n),
            n >= 65536,
    ;
    assert(r < 0x10000000000) by (nonlinear_arith)
        requires
            is_isqrt(r, n),
            n < 0x80000000000000000000,
    ;
}

impl Vec3 {
    pub fn new(x: i64, y: i64, z: i64) -> (r: Vec3)
        ensures
            r == (Vec3 { x, y, z }),
    {
        Vec3 { x, y, z }
    }

    /// All three components set to the same scalar.
    pub fn splat(n: i64) -> (r: Vec3)
        ensures
            r == (Vec3 { x: n, y: n, z: n }),
    {
        Vec3 { x: n, y: n, z: n }
    }

    pub fn plus(self, rhs: Vec3) -> (r: Vec3)
        ensures
            r == vadd(self, rhs),
    {
        Vec3 { x: fx_add(self.x, rhs.x), y: fx_add(self.y, rhs.y), z: fx_add(self.z, rhs.z) }
    }

    pub fn minus(self, rhs: Vec3) -> (r: Vec3)
        ensures
            r == vsub(self, rhs),
    {
        Vec3 { x: fx_sub(self.x, rhs.x), y: fx_sub(self.y, rhs.y), z: fx_sub(self.z, rhs.z) }
    }

    pub fn neg(self) -> (r: Vec3)
        ensures
            r == vneg(self),
    {
        Vec3 { x: fx_neg(self.x), y: fx_neg(self.y), z: fx_neg(self.z) }
    }

    pub fn scale(self, t: i64) -> (r: Vec3)
        ensures
            r == vscale(self, t),
    {
        Vec3 { x: fx_mul(self.x, t), y: fx_mul(self.y, t), z: fx_mul(self.z, t) }
    }

    /// Component-wise product.
    pub fn hadamard(self, rhs: Vec3) -> (r: Vec3)
        ensures
            r == vhadamard(self, rhs),
    {
        Vec3 { x: fx_mul(self.x, rhs.x), y: fx_mul(self.y, rhs.y), z: fx_mul(self.z, rhs.z) }
    }

    pub fn div_by(self, t: i64) -> (r: Vec3)
        requires
            t > 0,
        ensures
            r == vdiv_by(self, t),
    {
        Vec3 { x: fx_div(self.x, t), y: fx_div(self.y, t), z: fx_div(self.z, t) }
    }

    pub fn dot(self, rhs: Vec3) -> (r: i64)
        ensures
            r == sdot(self, rhs),
    {
        fx_add(fx_add(fx_mul(self.x, rhs.x), fx_mul(self.y, rhs.y)), fx_mul(self.z, rhs.z))
    }

    pub fn cross(self, rhs: Vec3) -> (r: Vec3)
        ensures
            r == scross(self, rhs),
    {
        Vec3 {
            x: fx_sub(fx_mul(self.y, rhs.z), fx_mul(self.z, rhs.y)),
            y: fx_sub(fx_mul(self.z, rhs.x), fx_mul(self.x, rhs.z)),
            z: fx_sub(fx_mul(self.x, rhs.y), fx_mul(self.y, rhs.x)),
        }
    }

    pub fn len_squared(self) -> (r: i64)
        ensures
            r == slen_sq(self),
            r >= 0,
    {
        proof {
            lemma_slen_sq_nonneg(self);
        }
        self.dot(self)
    }

    pub fn len(self) -> (r: i64)
        ensures
            r == slen(self),
            r >= 0,
    {
        let ls = self.len_squared();
        if ls == 0 {
            0
        } else {
            proof {
                lemma_fsqrt_pos(ls);
            }
            fx_sqrt(ls)
        }
    }

    /// Normalization; the caller guarantees a measurably non-zero vector.
    pub fn unit(self) -> (r: Vec3)
        requires
            slen_sq(self) > 0,
        ensures
            r == sunit(self),
    {
        let l = self.len();
        proof {
            lemma_fsqrt_pos(slen_sq(self));
        }
        self.div_by(l)
    }

    pub fn is_near_zero(self) -> (r: bool)
        ensures
            r == snear_zero(self),
    {
        fx_abs(self.x) < NEAR_ZERO && fx_abs(self.y) < NEAR_ZERO && fx_abs(self.z) < NEAR_ZERO
    }

    pub fn reflect(self, normal: Vec3) -> (r: Vec3)
        ensures
            r == sreflect(self, normal),
    {
        let d = self.dot(normal);
        self.minus(normal.scale(fx_add(d, d)))
    }

    pub fn refract(self, normal: Vec3, etai_over_etat: i64) -> (r: Vec3)
        ensures
            r == srefract(self, normal, etai_over_etat),
    {
        let cos_theta = crate::fixed::fx_min(self.neg().dot(normal), SCALE);
        let r_out_perp = self.plus(normal.scale(cos_theta)).scale(etai_over_etat);
        let gap = fx_abs(fx_sub(SCALE, r_out_perp.len_squared()));
        let r_out_parallel = normal.scale(fx_neg(fx_sqrt(gap)));
        r_out_perp.plus(r_out_parallel)
    }

    /// A vector with each component uniform in `[0, 1)`.
    pub fn random() -> (r: Vec3)
        ensures
            vbounded(r, SCALE as int),
    {
        Vec3 {
            x: rand_fixed_range(0, SCALE),
            y: rand_fixed_range(0, SCALE),
            z: rand_fixed_range(0, SCALE),
        }
    }

    /// A vector with each component uniform in `[min, max)`.
    pub fn random_range(min: i64, max: i64) -> (r: Vec3)
        requires
            min < max,
        ensures
            min <= r.x < max,
            min <= r.y < max,
            min <= r.z < max,
    {
        Vec3 {
            x: rand_fixed_range(min, max),
            y: rand_fixed_range(min, max),
            z: rand_fixed_range(min, max),
        }
    }

    /// Rejection-sampled random unit vector: a draw from the cube is kept
    /// once its squared length lands in `(1/4, 1]` (short draws quantize too
    /// coarsely to normalize near unit), then divided by its true length.
    /// The number of draws is bounded; if every one of them is rejected
    /// (vanishingly unlikely), a fixed axis direction stands in.
    pub fn random_unit() -> (r: Vec3)
        ensures
            exists|p: Vec3| unit_draw(p) && r == #[trigger] sunit(p),
            SCALE - 16 <= slen_sq(r),
            slen_sq(r) <= SCALE + 32,
    {
        let mut tries: u32 = 0;
        while tries < 1000
            invariant
                true,
            decreases 1000 - tries,
        {
            let p = Vec3::random_range(-65536, 65536);
            let ls = p.len_squared();
            if 16384 < ls && ls <= SCALE {
                let u = p.unit();
                proof {
                    lemma_unit_length(p);
                    assert(unit_draw(p) && u == sunit(p));
                }
                return u;
            }
            tries = tries + 1;
        }
        let fallback = Vec3::new(0, 0, SCALE);
        let u = fallback.unit();
        proof {
            lemma_unit_length(fallback);
            assert(unit_draw(fallback) && u == sunit(fallback));
        }
        u
    }

    /// A random unit vector turned to lie on the side of `normal`: kept when
    /// its dot with the normal is positive, negated otherwise (so the dot is
    /// non-negative whenever the normal is far from saturation).
    pub fn random_unit_on_hemisphere(normal: Vec3) -> (r: Vec3)
        ensures
            exists|p: Vec3|
                unit_draw(p) && (if sdot(#[trigger] sunit(p), normal) > 0 {
                    r == sunit(p)
                } else {
                    r == vneg(sunit(p))
                }),
            SCALE - 16 <= slen_sq(r),
            slen_sq(r) <= SCALE + 32,
            vbounded(normal, 0x10000000000) ==> sdot(r, normal) >= 0,
    {
        let u = Vec3::random_unit();
        let ghost p = choose|p: Vec3| unit_draw(p) && u == #[trigger] sunit(p);
        if u.dot(normal) > 0 {
            u
        } else {
            proof {
                lemma_near_unit_bounded(u);
                lemma_slen_sq_neg(u);
                if vbounded(normal, 0x10000000000) {
                    lemma_dot_neg(u, normal);
                }
            }
            u.neg()
        }
    }
}

/// An accepted normalization draw: from the sampling cube, with squared
/// length in `(1/4, 1]`, so that `lemma_unit_length` applies to it.
pub open spec fn unit_draw(p: Vec3) -> bool {
    16384 < slen_sq(p) <= SCALE && vbounded(p, SCALE as int)
}

/// A vector whose squared length is near one has components below two units.
proof fn lemma_near_unit_bounded(u: Vec3)
    requires
        slen_sq(u) <= SCALE + 32,
    ensures
        vbounded(u, 131071),
{
    lemma_fmul_self_nonneg(u.x);
    lemma_fmul_self_nonneg(u.y);
    lemma_fmul_self_nonneg(u.z);
    lemma_comp_sq_bound(u.x, slen_sq(u));
    lemma_comp_sq_bound(u.y, slen_sq(u));
    lemma_comp_sq_bound(u.z, slen_sq(u));
}

/// One component of a near-unit vector: from `fmul(c, c) <= total` with a
/// small total, the component itself is small.
proof fn lemma_comp_sq_bound(c: i64, total: i64)
    requires
        total <= SCALE + 32,
        fmul(c, c) <= total,
        fmul(c, c) >= 0,
    ensures
        -131071 <= c <= 131071,
{
    assert(c * c >= 0) by (nonlinear_arith);
    lemma_floor_div(c * c, 65536);
    assert(tdiv(c * c, SCALE as int) == c * c / 65536);
    assert(c * c / 65536 <= 65568);
    assert(c * c < 65536 * 65569);
    assert(-131071 <= c <= 131071) by (nonlinear_arith)
        requires
            c * c < 65536 * 65569,
    ;
}

/// Negating a bounded vector leaves its squared length unchanged.
proof fn lemma_slen_sq_neg(u: Vec3)
    requires
        vbounded(u, 131071),
    ensures
        slen_sq(vneg(u)) == slen_sq(u),
{
    lemma_fmul_self_neg(u.x);
    lemma_fmul_self_neg(u.y);
    lemma_fmul_self_neg(u.z);
}

/// The fixed-point square of a bounded scalar equals the square of its
/// negation.
proof fn lemma_fmul_self_neg(c: i64)
    requires
        -131071 <= c <= 131071,
    ensures
        fmul(fneg(c), fneg(c)) == fmul(c, c),
{
    assert((-c) * (-c) == c * c) by (nonlinear_arith);
}

/// Negating a small vector negates its dot with any moderate vector: all the
/// intermediate products stay far from saturation, so the truncations agree.
proof fn lemma_dot_neg(u: Vec3, n: Vec3)
    requires
        vbounded(u, 131071),
        vbounded(n, 0x10000000000),
    ensures
        sdot(vneg(u), n) == -sdot(u, n),
{
    lemma_fmul_neg(u.x, n.x);
    lemma_fmul_neg(u.y, n.y);
    lemma_fmul_neg(u.z, n.z);
}

/// Negating one factor of a moderate product negates the fixed-point
/// product, exactly.
proof fn lemma_fmul_neg(a: i64, b: i64)
    requires
        -131071 <= a <= 131071,
        -0x10000000000 <= b <= 0x10000000000,
    ensures
        fmul(fneg(a), b) == fneg(fmul(a, b)),
        -0x200000000000000 <= fmul(a, b) <= 0x200000000000000,
{
    crate::fixed::lemma_mul_bounds(a as int, b as int, 131071, 0x10000000000);
    lemma_tdiv_bounds(a * b, 65536);
    lemma_tdiv_bounds(-(a * b), 65536);
    assert(((-a) as int) * (b as int) == -((a as int) * (b as int))) by (nonlinear_arith);
    assert(tdiv(-(a * b), 65536) == -tdiv(a * b, 65536));
}

/// Magnitude of a scalar, as a mathematical integer.
pub open spec fn iabs(c: i64) -> int {
    if c >= 0 {
        c as int
    } else {
        -(c as int)
    }
}

/// Floor division pinched between consecutive multiples of the divisor.
proof fn lemma_floor_div(a: int, b: int)
    requires
        a >= 0,
        b >= 1,
    ensures
        0 <= a / b,
        b * (a / b) <= a < b * (a / b) + b,
{
    vstd::arithmetic::div_mod::lemma_remainder(a, b);
    vstd::arithmetic::div_mod::lemma_div_pos_is_pos(a, b);
    assert(b * (a / b) == a / b * b) by (nonlinear_arith);
}

/// The fixed-point square of a moderate scalar: its exact value, its range,
/// and the floor-division pinch against the true square of the magnitude.
proof fn lemma_square_floor(c: i64)
    requires
        -0x100000000 <= c <= 0x100000000,
    ensures
        0 <= fmul(c, c) <= 0x1000000000000,
        65536 * (fmul(c, c) as int) <= iabs(c) * iabs(c) < 65536 * (fmul(c, c) as int) + 65536,
{
    let m: int = iabs(c);
    assert(c * c == m * m) by (nonlinear_arith)
        requires
            m == c || m == -c,
    ;
    assert(m * m <= 0x10000000000000000) by (nonlinear_arith)
        requires
            0 <= m <= 0x100000000,
    ;
    lemma_floor_div(m * m, 65536);
    assert(tdiv(c * c, SCALE as int) == m * m / 65536);
    assert(m * m / 65536 <= 0x1000000000000);
}

/// One component of a normalization: the floor-division pinch between the
/// scaled magnitude and the divided component.
proof fn lemma_div_comp(c: i64, l: i64)
    requires
        1 <= l,
        -0x100000000 <= c <= 0x100000000,
    ensures
        iabs(fdiv(c, l)) == iabs(c) * 65536 / (l as int),
        l * (iabs(c) * 65536 / (l as int)) <= iabs(c) * 65536,
        iabs(c) * 65536 < l * (iabs(c) * 65536 / (l as int)) + l,
        0 <= iabs(c) * 65536 / (l as int) <= 0x1000000000000,
{
    let m: int = iabs(c);
    let w: int = m * 65536 / (l as int);
    lemma_floor_div(m * 65536, l as int);
    assert(w <= m * 65536) by (nonlinear_arith)
        requires
            l >= 1,
            w >= 0,
            l * w <= m * 65536,
    ;
    if c >= 0 {
        assert(tdiv(c * SCALE, l as int) == w);
    } else {
        assert(tdiv(c * SCALE, l as int) == -((m * 65536) / (l as int)));
    }
}

/// From `l w <= m s` (all non-negative): `w^2 l^2 <= m^2 s^2`.
proof fn lemma_square_le(w: int, m: int, l: int, s: int)
    requires
        0 <= w,
        0 <= m,
        l >= 1,
        s >= 1,
        l * w <= m * s,
    ensures
        (w * w) * (l * l) <= (m * m) * (s * s),
{
    assert((l * w) * (l * w) <= (m * s) * (m * s)) by (nonlinear_arith)
        requires
            0 <= l * w,
            l * w <= m * s,
    ;
    assert((l * w) * (l * w) == (w * w) * (l * l)) by (nonlinear_arith);
    assert((m * s) * (m * s) == (m * m) * (s * s)) by (nonlinear_arith);
}

/// From `m s < l (w + 1)` (all non-negative): `m^2 s^2 < (w^2 + 2w + 1) l^2`.
proof fn lemma_square_lt(w: int, m: int, l: int, s: int)
    requires
        0 <= w,
        0 <= m,
        l >= 1,
        s >= 1,
        m * s < l * w + l,
    ensures
        (m * m) * (s * s) < (w * w + 2 * w + 1) * (l * l),
{
    assert((m * s) * (m * s) < (l * w + l) * (l * w + l)) by (nonlinear_arith)
        requires
            0 <= m * s,
            m * s < l * w + l,
    ;
    assert((l * w + l) * (l * w + l) == (w * w + 2 * w + 1) * (l * l)) by (nonlinear_arith);
    assert((m * s) * (m * s) == (m * m) * (s * s)) by (nonlinear_arith);
}

/// Normalization law: a vector at least half a unit long, far from
/// saturation, normalizes to a unit vector up to quantization — the squared
/// length of `sunit(v)` lies within 32/65536 of one.  Vectors much shorter
/// quantize too coarsely for such a bound (a vector of 443/65536 along an
/// axis normalizes to squared length about 1.5).
pub proof fn lemma_unit_length(v: Vec3)
    requires
        slen_sq(v) >= 16384,
        vbounded(v, 0x100000000),
    ensures
        SCALE - 16 <= slen_sq(sunit(v)),
        slen_sq(sunit(v)) <= SCALE + 32,
{
    let s: int = 65536;
    let mx: int = iabs(v.x);
    let my: int = iabs(v.y);
    let mz: int = iabs(v.z);
    let q: int = mx * mx + my * my + mz * mz;
    lemma_square_floor(v.x);
    lemma_square_floor(v.y);
    lemma_square_floor(v.z);
    let ls: i64 = slen_sq(v);
    assert(s * ls <= q < s * ls + 3 * s);

    // the length: the integer square root of ls * SCALE
    lemma_isqrt_exists(ls * s);
    let r: int = isqrt(ls * s);
    assert(is_isqrt(r, ls * s));
    assert(ls * s >= 16384 * s) by (nonlinear_arith)
        requires
            ls >= 16384,
            s >= 1,
    ;
    assert(ls * s <= 0x30000000000000000) by (nonlinear_arith)
        requires
            ls <= 3 * 0x1000000000000,
            s == 65536,
    ;
    assert(32768 <= r < 0x200000000) by (nonlinear_arith)
        requires
            is_isqrt(r, ls * s),
            0x40000000 <= ls * s <= 0x30000000000000000,
            s == 65536,
    ;
    let l: i64 = slen(v);
    assert(l == r);

    // the normalized components, pinched against the true quotients
    lemma_div_comp(v.x, l);
    lemma_div_comp(v.y, l);
    lemma_div_comp(v.z, l);
    let wx: int = mx * s / (l as int);
    let wy: int = my * s / (l as int);
    let wz: int = mz * s / (l as int);
    let u: Vec3 = sunit(v);
    assert(iabs(u.x) == wx && iabs(u.y) == wy && iabs(u.z) == wz);

    // component magnitudes stay near one: m <= l + 3, w <= SCALE + 6
    assert(mx <= l + 3 && my <= l + 3 && mz <= l + 3) by (nonlinear_arith)
        requires
            0 <= mx && 0 <= my && 0 <= mz,
            mx * mx + my * my + mz * mz == q,
            q < s * ls + 3 * s,
            s * ls < (r + 1) * (r + 1),
            l == r >= 32768,
            s == 65536,
    ;
    assert(wx <= s + 6 && wy <= s + 6 && wz <= s + 6) by (nonlinear_arith)
        requires
            l >= 32768,
            0 <= wx && 0 <= wy && 0 <= wz,
            l * wx <= mx * s && l * wy <= my * s && l * wz <= mz * s,
            mx <= l + 3 && my <= l + 3 && mz <= l + 3,
            s == 65536,
    ;

    // upper bound: W * l^2 <= q * s^2 < ((l+1)^2 + 3s) * s^2
    let w2: int = wx * wx + wy * wy + wz * wz;
    lemma_square_le(wx, mx, l as int, s);
    lemma_square_le(wy, my, l as int, s);
    lemma_square_le(wz, mz, l as int, s);
    assert(w2 * (l * l) == (wx * wx) * (l * l) + (wy * wy) * (l * l) + (wz * wz) * (l * l))
        by (nonlinear_arith)
        requires
            w2 == wx * wx + wy * wy + wz * wz,
    ;
    assert(q * (s * s) == (mx * mx) * (s * s) + (my * my) * (s * s) + (mz * mz) * (s * s))
        by (nonlinear_arith)
        requires
            q == mx * mx + my * my + mz * mz,
    ;
    assert(w2 * (l * l) <= q * (s * s));
    assert(w2 < s * s + 24 * s) by (nonlinear_arith)
        requires
            w2 * (l * l) <= q * (s * s),
            q < s * ls + 3 * s,
            s * ls < (l + 1) * (l + 1),
            l >= 32768,
            s == 65536,
            w2 >= 0,
    ;

    // lower bound: q * s^2 < (W + 2 (wx+wy+wz) + 3) * l^2 and q * s^2 >= l^2 s^2
    lemma_square_lt(wx, mx, l as int, s);
    lemma_square_lt(wy, my, l as int, s);
    lemma_square_lt(wz, mz, l as int, s);
    assert((w2 + 2 * (wx + wy + wz) + 3) * (l * l) == (wx * wx + 2 * wx + 1) * (l * l) + (wy * wy
        + 2 * wy + 1) * (l * l) + (wz * wz + 2 * wz + 1) * (l * l)) by (nonlinear_arith)
        requires
            w2 == wx * wx + wy * wy + wz * wz,
    ;
    assert(q * (s * s) < (w2 + 2 * (wx + wy + wz) + 3) * (l * l));
    assert(q * (s * s) >= (l * l) * (s * s)) by (nonlinear_arith)
        requires
            q >= s * ls,
            s * ls >= r * r,
            l == r >= 0,
            s >= 1,
    ;
    assert(w2 > s * s - 7 * s) by (nonlinear_arith)
        requires
            (l * l) * (s * s) < (w2 + 2 * (wx + wy + wz) + 3) * (l * l),
            wx + wy + wz <= 3 * s + 18,
            l >= 1,
            s == 65536,
    ;

    // back through the final floor divisions of slen_sq(u)
    assert((u.x * u.x == wx * wx && u.y * u.y == wy * wy && u.z * u.z == wz * wz)) by (nonlinear_arith)
        requires
            iabs(u.x) == wx && iabs(u.y) == wy && iabs(u.z) == wz,
    ;
    assert(-0x100000000 <= u.x <= 0x100000000 && -0x100000000 <= u.y <= 0x100000000
        && -0x100000000 <= u.z <= 0x100000000) by (nonlinear_arith)
        requires
            iabs(u.x) == wx && iabs(u.y) == wy && iabs(u.z) == wz,
            wx <= s + 6 && wy <= s + 6 && wz <= s + 6,
            s == 65536,
    ;
    lemma_square_floor(u.x);
    lemma_square_floor(u.y);
    lemma_square_floor(u.z);
    let lsu: i64 = slen_sq(u);
    assert(s * lsu <= w2 < s * lsu + 3 * s);
    assert(s * lsu < s * (s + 24) && s * lsu > s * (s - 10));
}

/// A vector of unbounded integers: the ideal-arithmetic model in which the
/// reflection laws below are exact.  `sreflect` computes the same formula
/// over fixed-point scalars, rounding each product once.
pub struct Vec3i {
    pub x: int,
    pub y: int,
    pub z: int,
}

/// Exact dot product; carries two fixed-point scale factors.
pub open spec fn edot(a: Vec3i, b: Vec3i) -> int {
    a.x * b.x + a.y * b.y + a.z * b.z
}

/// `SCALE^2` times the exact reflection of `v` about `n`: the dot product
/// carries one scale factor and the scalar-vector product another, so
/// multiplying the identity part by `SCALE^2` keeps the whole formula over
/// integers.
pub open spec fn ereflect(v: Vec3i, n: Vec3i) -> Vec3i {
    Vec3i {
        x: SCALE * SCALE * v.x - 2 * edot(v, n) * n.x,
        y: SCALE * SCALE * v.y - 2 * edot(v, n) * n.y,
        z: SCALE * SCALE * v.z - 2 * edot(v, n) * n.z,
    }
}

/// Reflection law: about a unit normal (squared length `SCALE^2`, i.e. one),
/// the reflected vector's dot with the normal is the negation of the
/// incident vector's, up to the `SCALE^2` factor `ereflect` carries.
pub proof fn lemma_reflect_flips_normal_dot(v: Vec3i, n: Vec3i)
    requires
        edot(n, n) == SCALE * SCALE,
    ensures
        edot(ereflect(v, n), n) == -(SCALE * SCALE * edot(v, n)),
{
    let s2 = SCALE * SCALE;
    let d = edot(v, n);
    let r = ereflect(v, n);
    assert(r.x * n.x == s2 * (v.x * n.x) - 2 * d * (n.x * n.x)) by (nonlinear_arith)
        requires
            r.x == s2 * v.x - 2 * d * n.x,
    ;
    assert(r.y * n.y == s2 * (v.y * n.y) - 2 * d * (n.y * n.y)) by (nonlinear_arith)
        requires
            r.y == s2 * v.y - 2 * d * n.y,
    ;
    assert(r.z * n.z == s2 * (v.z * n.z) - 2 * d * (n.z * n.z)) by (nonlinear_arith)
        requires
            r.z == s2 * v.z - 2 * d * n.z,
    ;
    assert(s2 * (v.x * n.x) + s2 * (v.y * n.y) + s2 * (v.z * n.z) == s2 * d) by (nonlinear_arith)
        requires
            d == v.x * n.x + v.y * n.y + v.z * n.z,
    ;
    assert(2 * d * (n.x * n.x) + 2 * d * (n.y * n.y) + 2 * d * (n.z * n.z) == 2 * d * s2)
        by (nonlinear_arith)
        requires
            n.x * n.x + n.y * n.y + n.z * n.z == s2,
    ;
    assert(s2 * d - 2 * d * s2 == -(s2 * d)) by (nonlinear_arith);
}

/// Reflection law: reflection about a unit normal preserves squared length
/// (the `SCALE^4` factor is the square of the one `ereflect` carries).
pub proof fn lemma_reflect_preserves_len(v: Vec3i, n: Vec3i)
    requires
        edot(n, n) == SCALE * SCALE,
    ensures
        edot(ereflect(v, n), ereflect(v, n)) == (SCALE * SCALE) * (SCALE * SCALE) * edot(v, v),
{
    let s2 = SCALE * SCALE;
    let d = edot(v, n);
    let r = ereflect(v, n);
    lemma_reflect_square(r.x, v.x, n.x, s2, d);
    lemma_reflect_square(r.y, v.y, n.y, s2, d);
    lemma_reflect_square(r.z, v.z, n.z, s2, d);
    assert((2 * (s2 * d)) * (v.x * n.x) + (2 * (s2 * d)) * (v.y * n.y) + (2 * (s2 * d)) * (v.z
        * n.z) == (2 * (s2 * d)) * d) by (nonlinear_arith)
        requires
            d == v.x * n.x + v.y * n.y + v.z * n.z,
    ;
    assert((4 * (d * d)) * (n.x * n.x) + (4 * (d * d)) * (n.y * n.y) + (4 * (d * d)) * (n.z * n.z)
        == (4 * (d * d)) * s2) by (nonlinear_arith)
        requires
            n.x * n.x + n.y * n.y + n.z * n.z == s2,
    ;
    assert(2 * ((2 * (s2 * d)) * d) == (4 * (d * d)) * s2) by (nonlinear_arith);
    assert((s2 * s2) * (v.x * v.x) + (s2 * s2) * (v.y * v.y) + (s2 * s2) * (v.z * v.z) == (s2 * s2)
        * edot(v, v)) by (nonlinear_arith)
        requires
            edot(v, v) == v.x * v.x + v.y * v.y + v.z * v.z,
    ;
}

/// One component of the squared reflection, expanded: with
/// `c == s2 * a - 2 * d * b`, the square of `c` splits into the three
/// product atoms the length proof sums up.
proof fn lemma_reflect_square(c: int, a: int, b: int, s2: int, d: int)
    requires
        c == s2 * a - 2 * d * b,
    ensures
        c * c == (s2 * s2) * (a * a) - 2 * ((2 * (s2 * d)) * (a * b)) + (4 * (d * d)) * (b * b),
{
    assert(c * c == (s2 * a) * (s2 * a) - 2 * ((s2 * a) * (2 * d * b)) + (2 * d * b) * (2 * d
        * b)) by (nonlinear_arith)
        requires
            c == s2 * a - 2 * d * b,
    ;
    assert((s2 * a) * (s2 * a) == (s2 * s2) * (a * a)) by (nonlinear_arith);
    assert((s2 * a) * (2 * d * b) == (2 * (s2 * d)) * (a * b)) by (nonlinear_arith);
    assert((2 * d * b) * (2 * d * b) == (4 * (d * d)) * (b * b)) by (nonlinear_arith);
}

/// Attenuating black gives black.
pub proof fn lemma_vhadamard_zero(a: Vec3)
    ensures
        vhadamard(a, Vec3 { x: 0, y: 0, z: 0 }) == (Vec3 { x: 0, y: 0, z: 0 }),
{
    assert(a.x * 0 == 0) by (nonlinear_arith);
    assert(a.y * 0 == 0) by (nonlinear_arith);
    assert(a.z * 0 == 0) by (nonlinear_arith);
    vstd::arithmetic::div_mod::lemma_div_of0(65536);
}

/// Vector addition commutes.
pub proof fn lemma_plus_comm(a: Vec3, b: Vec3)
    ensures
        vadd(a, b) == vadd(b, a),
{
}

/// Vector addition associates while the sums stay within the scalar range.
pub proof fn lemma_plus_assoc(a: Vec3, b: Vec3, c: Vec3)
    requires
        vbounded(a, 0x2000000000000000),
        vbounded(b, 0x2000000000000000),
        vbounded(c, 0x2000000000000000),
    ensures
        vadd(vadd(a, b), c) == vadd(a, vadd(b, c)),
{
}

/// A vector minus itself is the zero vector.
pub proof fn lemma_minus_self(a: Vec3)
    ensures
        vsub(a, a) == (Vec3 { x: 0, y: 0, z: 0 }),
{
}

/// The dot product of a vector with itself is its squared length.
pub proof fn lemma_dot_self_is_len_squared(a: Vec3)
    ensures
        sdot(a, a) == slen_sq(a),
{
}

} // verus!
