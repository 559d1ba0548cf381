//! Fixed-point circular functions.
//!
//! Angles are micro-degrees (`1_000_000` units per degree) or radians scaled
//! by `1_000_000_000`; function values (sine, cosine) are scaled by
//! `1_000_000_000`. Each executable function returns exactly the value of its
//! specification twin, so callers reason about a pure integer function.
//!
//! Truncated series give the values: every intermediate is non-negative, so
//! executable truncating division and the specification's floor division
//! agree, and every term is clamped to a bound that makes overflow reasoning
//! local. The clamps never fire on the actual series values; they only keep
//! the specification total and the bounds obvious.

use vstd::prelude::*;

verus! {

/// floor(sqrt(2)/2 * 10^9), the argument where the arcsine series switches
/// to the complementary form.
pub const HALF_SQRT2_Q9: i64 = 707_106_781;

/// floor(pi/2 * 10^9) + 1, an upper bound on scaled radians of a right angle.
pub const RIGHT_ANGLE_RAD9: i64 = 1_570_796_327;

pub proof fn lemma_mul_bound(a: u128, b: u128, ab: u128, bb: u128) by (nonlinear_arith)
    requires
        a <= ab,
        b <= bb,
    ensures
        a * b <= ab * bb,
{
}

/// The non-negative integer square root, as a mathematical function.
pub open spec fn sqrt_floor(n: int) -> int {
    choose|r: int| 0 <= r && #[trigger] (r * r) <= n && (r + 1) * (r + 1) > n
}

/// A value with the two defining inequalities of `sqrt_floor` is `sqrt_floor`.
pub proof fn lemma_sqrt_floor_is(n: int, r: int)
    requires
        0 <= r,
        r * r <= n,
        (r + 1) * (r + 1) > n,
    ensures
        sqrt_floor(n) == r,
{
    assert(exists|s: int| 0 <= s && #[trigger] (s * s) <= n && (s + 1) * (s + 1) > n) by {
        assert(0 <= r && r * r <= n && (r + 1) * (r + 1) > n);
    }
    let s = sqrt_floor(n);
    assert(0 <= s && s * s <= n && (s + 1) * (s + 1) > n);
    assert(s == r) by (nonlinear_arith)
        requires
            0 <= r,
            0 <= s,
            r * r <= n,
            (r + 1) * (r + 1) > n,
            s * s <= n,
            (s + 1) * (s + 1) > n,
    ;
}

/// Integer square root by bisection.
pub fn isqrt(n: u128) -> (r: u128)
    requires
        n < 9_000_000_000_000_000_000_000_000_000_000_000_000,
    ensures
        r == sqrt_floor(n as int),
        r * r <= n,
        (r + 1) * (r + 1) > n,
        r < 3_000_000_000_000_000_000,
{
    let mut lo: u128 = 0;
    let mut hi: u128 = 3_000_000_000_000_000_000;
    proof {
        assert(hi * hi > n);
    }
    while lo + 1 < hi
        invariant
            lo < hi,
            hi <= 3_000_000_000_000_000_000,
            lo * lo <= n,
            hi * hi > n,
        decreases hi - lo,
    {
        let mid: u128 = lo + (hi - lo) / 2;
        proof {
            lemma_mul_bound(mid, mid, 3_000_000_000_000_000_000, 3_000_000_000_000_000_000);
        }
        if mid * mid <= n {
            lo = mid;
        } else {
            hi = mid;
        }
    }
    proof {
        assert((lo + 1) * (lo + 1) >= hi * hi) by (nonlinear_arith)
            requires
                lo + 1 >= hi,
                hi >= 1,
        ;
        lemma_sqrt_floor_is(n as int, lo as int);
    }
    lo
}

/// Sine of an angle in the first quarter, micro-degrees in, scale 10^9 out.
///
/// Taylor series through the 11th power; the omitted tail is below one part
/// in 10^7 of the scale.
pub open spec fn sin_quarter_spec(x: int) -> int {
    let raw9: int = x * 17_453_292_519_943 / 1_000_000_000_000;
    let r9: int = if raw9 > 1_600_000_000 { 1_600_000_000 } else { raw9 };
    let r2: int = r9 * r9;
    let t1: int = r9;
    let u2: int = t1 * r2 / 6_000_000_000_000_000_000;
    let t2: int = if u2 > 1_600_000_000 { 1_600_000_000 } else { u2 };
    let u3: int = t2 * r2 / 20_000_000_000_000_000_000;
    let t3: int = if u3 > 1_600_000_000 { 1_600_000_000 } else { u3 };
    let u4: int = t3 * r2 / 42_000_000_000_000_000_000;
    let t4: int = if u4 > 1_600_000_000 { 1_600_000_000 } else { u4 };
    let u5: int = t4 * r2 / 72_000_000_000_000_000_000;
    let t5: int = if u5 > 1_600_000_000 { 1_600_000_000 } else { u5 };
    let u6: int = t5 * r2 / 110_000_000_000_000_000_000;
    let t6: int = if u6 > 1_600_000_000 { 1_600_000_000 } else { u6 };
    let pos: int = t1 + t3 + t5;
    let neg: int = t2 + t4 + t6;
    let raw: int = if pos >= neg { pos - neg } else { 0 };
    if raw > 1_000_000_000 { 1_000_000_000 } else { raw }
}

pub fn sin_quarter(x: i64) -> (r: i64)
    requires
        0 <= x <= 90_000_000,
    ensures
        r == sin_quarter_spec(x as int),
        0 <= r <= 1_000_000_000,
{
    let xw: u128 = x as u128;
    let raw9: u128 = xw * 17_453_292_519_943 / 1_000_000_000_000;
    let r9: u128 = if raw9 > 1_600_000_000 { 1_600_000_000 } else { raw9 };
    proof {
        lemma_mul_bound(r9, r9, 1_600_000_000, 1_600_000_000);
    }
    let r2: u128 = r9 * r9;
    let t1: u128 = r9;
    proof {
        lemma_mul_bound(t1, r2, 1_600_000_000, 2_560_000_000_000_000_000);
    }
    let u2: u128 = t1 * r2 / 6_000_000_000_000_000_000;
    let t2: u128 = if u2 > 1_600_000_000 { 1_600_000_000 } else { u2 };
    proof {
        lemma_mul_bound(t2, r2, 1_600_000_000, 2_560_000_000_000_000_000);
    }
    let u3: u128 = t2 * r2 / 20_000_000_000_000_000_000;
    let t3: u128 = if u3 > 1_600_000_000 { 1_600_000_000 } else { u3 };
    proof {
        lemma_mul_bound(t3, r2, 1_600_000_000, 2_560_000_000_000_000_000);
    }
    let u4: u128 = t3 * r2 / 42_000_000_000_000_000_000;
    let t4: u128 = if u4 > 1_600_000_000 { 1_600_000_000 } else { u4 };
    proof {
        lemma_mul_bound(t4, r2, 1_600_000_000, 2_560_000_000_000_000_000);
    }
    let u5: u128 = t4 * r2 / 72_000_000_000_000_000_000;
    let t5: u128 = if u5 > 1_600_000_000 { 1_600_000_000 } else { u5 };
    proof {
        lemma_mul_bound(t5, r2, 1_600_000_000, 2_560_000_000_000_000_000);
    }
    let u6: u128 = t5 * r2 / 110_000_000_000_000_000_000;
    let t6: u128 = if u6 > 1_600_000_000 { 1_600_000_000 } else { u6 };
    let pos: u128 = t1 + t3 + t5;
    let neg: u128 = t2 + t4 + t6;
    let raw: u128 = if pos >= neg { pos - neg } else { 0 };
    let res: u128 = if raw > 1_000_000_000 { 1_000_000_000 } else { raw };
    res as i64
}

/// Arcsine on [0, sqrt(2)/2]: scale 10^9 in, radians scaled by 10^9 out.
///
/// Maclaurin series through the 23rd power; on this domain the term ratio is
/// below one half, so the omitted tail is below 3 parts in 10^6 of the scale.
pub open spec fn asin_core_spec(z: int) -> int {
    let z2: int = z * z;
    let t0: int = z;
    let s1: int = t0 * z2 * 1 / 6_000_000_000_000_000_000;
    let t1: int = if s1 > 800_000_000 { 800_000_000 } else { s1 };
    let s2: int = t1 * z2 * 9 / 20_000_000_000_000_000_000;
    let t2: int = if s2 > 800_000_000 { 800_000_000 } else { s2 };
    let s3: int = t2 * z2 * 25 / 42_000_000_000_000_000_000;
    let t3: int = if s3 > 800_000_000 { 800_000_000 } else { s3 };
    let s4: int = t3 * z2 * 49 / 72_000_000_000_000_000_000;
    let t4: int = if s4 > 800_000_000 { 800_000_000 } else { s4 };
    let s5: int = t4 * z2 * 81 / 110_000_000_000_000_000_000;
    let t5: int = if s5 > 800_000_000 { 800_000_000 } else { s5 };
    let s6: int = t5 * z2 * 121 / 156_000_000_000_000_000_000;
    let t6: int = if s6 > 800_000_000 { 800_000_000 } else { s6 };
    let s7: int = t6 * z2 * 169 / 210_000_000_000_000_000_000;
    let t7: int = if s7 > 800_000_000 { 800_000_000 } else { s7 };
    let s8: int = t7 * z2 * 225 / 272_000_000_000_000_000_000;
    let t8: int = if s8 > 800_000_000 { 800_000_000 } else { s8 };
    let s9: int = t8 * z2 * 289 / 342_000_000_000_000_000_000;
    let t9: int = if s9 > 800_000_000 { 800_000_000 } else { s9 };
    let s10: int = t9 * z2 * 361 / 420_000_000_000_000_000_000;
    let t10: int = if s10 > 800_000_000 { 800_000_000 } else { s10 };
    let s11: int = t10 * z2 * 441 / 506_000_000_000_000_000_000;
    let t11: int = if s11 > 800_000_000 { 800_000_000 } else { s11 };
    let sum: int = t0 + t1 + t2 + t3 + t4 + t5 + t6 + t7 + t8 + t9 + t10 + t11;
    if sum > 786_000_000 { 786_000_000 } else { sum }
}

pub fn asin_core(z: i64) -> (r: i64)
    requires
        0 <= z <= HALF_SQRT2_Q9,
    ensures
        r == asin_core_spec(z as int),
        0 <= r <= 786_000_000,
{
    let zw: u128 = z as u128;
    proof {
        lemma_mul_bound(zw, zw, 707_106_781, 707_106_781);
    }
    let z2: u128 = zw * zw;
    let t0: u128 = zw;
    proof {
        lemma_mul_bound(t0, z2, 800_000_000, 510_000_000_000_000_000);
    }
    let s1: u128 = t0 * z2 * 1 / 6_000_000_000_000_000_000;
    let t1: u128 = if s1 > 800_000_000 { 800_000_000 } else { s1 };
    proof {
        lemma_mul_bound(t1, z2, 800_000_000, 510_000_000_000_000_000);
    }
    let s2: u128 = t1 * z2 * 9 / 20_000_000_000_000_000_000;
    let t2: u128 = if s2 > 800_000_000 { 800_000_000 } else { s2 };
    proof {
        lemma_mul_bound(t2, z2, 800_000_000, 510_000_000_000_000_000);
    }
    let s3: u128 = t2 * z2 * 25 / 42_000_000_000_000_000_000;
    let t3: u128 = if s3 > 800_000_000 { 800_000_000 } else { s3 };
    proof {
        lemma_mul_bound(t3, z2, 800_000_000, 510_000_000_000_000_000);
    }
    let s4: u128 = t3 * z2 * 49 / 72_000_000_000_000_000_000;
    let t4: u128 = if s4 > 800_000_000 { 800_000_000 } else { s4 };
    proof {
        lemma_mul_bound(t4, z2, 800_000_000, 510_000_000_000_000_000);
    }
    let s5: u128 = t4 * z2 * 81 / 110_000_000_000_000_000_000;
    let t5: u128 = if s5 > 800_000_000 { 800_000_000 } else { s5 };
    proof {
        lemma_mul_bound(t5, z2, 800_000_000, 510_000_000_000_000_000);
    }
    let s6: u128 = t5 * z2 * 121 / 156_000_000_000_000_000_000;
    let t6: u128 = if s6 > 800_000_000 { 800_000_000 } else { s6 };
    proof {
        lemma_mul_bound(t6, z2, 800_000_000, 510_000_000_000_000_000);
    }
    let s7: u128 = t6 * z2 * 169 / 210_000_000_000_000_000_000;
    let t7: u128 = if s7 > 800_000_000 { 800_000_000 } else { s7 };
    proof {
        lemma_mul_bound(t7, z2, 800_000_000, 510_000_000_000_000_000);
    }
    let s8: u128 = t7 * z2 * 225 / 272_000_000_000_000_000_000;
    let t8: u128 = if s8 > 800_000_000 { 800_000_000 } else { s8 };
    proof {
        lemma_mul_bound(t8, z2, 800_000_000, 510_000_000_000_000_000);
    }
    let s9: u128 = t8 * z2 * 289 / 342_000_000_000_000_000_000;
    let t9: u128 = if s9 > 800_000_000 { 800_000_000 } else { s9 };
    proof {
        lemma_mul_bound(t9, z2, 800_000_000, 510_000_000_000_000_000);
    }
    let s10: u128 = t9 * z2 * 361 / 420_000_000_000_000_000_000;
    let t10: u128 = if s10 > 800_000_000 { 800_000_000 } else { s10 };
    proof {
        lemma_mul_bound(t10, z2, 800_000_000, 510_000_000_000_000_000);
    }
    let s11: u128 = t10 * z2 * 441 / 506_000_000_000_000_000_000;
    let t11: u128 = if s11 > 800_000_000 { 800_000_000 } else { s11 };
    let sum: u128 = t0 + t1 + t2 + t3 + t4 + t5 + t6 + t7 + t8 + t9 + t10 + t11;
    let res: u128 = if sum > 786_000_000 { 786_000_000 } else { sum };
    res as i64
}

/// Arcsine over the whole domain: scale 10^9 in, radians scaled by 10^9 out.
///
/// Above sqrt(2)/2 it uses asin(z) = pi/2 - 2 asin(sqrt((1 - z)/2)).
pub open spec fn asin_rad9_spec(z: int) -> int {
    let m: int = if z < 0 { -z } else { z };
    let mag: int = if m <= HALF_SQRT2_Q9 {
        asin_core_spec(m)
    } else {
        let w0: int = sqrt_floor((1_000_000_000 - m) * 500_000_000);
        let w: int = if w0 > HALF_SQRT2_Q9 { HALF_SQRT2_Q9 as int } else { w0 };
        let raw: int = RIGHT_ANGLE_RAD9 - 2 * asin_core_spec(w);
        if raw < 0 { 0 } else { raw }
    };
    if z < 0 { -mag } else { mag }
}

#[verifier::rlimit(60)]
pub fn asin_rad9(z: i64) -> (r: i64)
    requires
        -1_000_000_000 <= z <= 1_000_000_000,
    ensures
        r == asin_rad9_spec(z as int),
        -RIGHT_ANGLE_RAD9 <= r <= RIGHT_ANGLE_RAD9,
        z >= 0 ==> r >= 0,
        z < 0 ==> r <= 0,
{
    let m: i64 = if z < 0 { -z } else { z };
    let mag: i64 = if m <= HALF_SQRT2_Q9 {
        asin_core(m)
    } else {
        let inner: u128 = (1_000_000_000 - m) as u128 * 500_000_000;
        let w0: u128 = isqrt(inner);
        let w: i64 = if w0 > HALF_SQRT2_Q9 as u128 { HALF_SQRT2_Q9 } else { w0 as i64 };
        let core: i64 = asin_core(w);
        let raw: i64 = RIGHT_ANGLE_RAD9 - 2 * core;
        if raw < 0 { 0 } else { raw }
    };
    if z < 0 { -mag } else { mag }
}

/// Arcsine in micro-degrees: scale 10^9 in, micro-degrees out.
pub open spec fn asin_udeg_spec(z: int) -> int {
    let r9: int = asin_rad9_spec(z);
    let m: int = if r9 < 0 { -r9 } else { r9 };
    let d: int = m * 57_295_779_513 / 1_000_000_000_000;
    let dm: int = if d > 90_000_000 { 90_000_000 } else { d };
    if r9 < 0 { -dm } else { dm }
}

pub fn asin_udeg(z: i64) -> (r: i64)
    requires
        -1_000_000_000 <= z <= 1_000_000_000,
    ensures
        r == asin_udeg_spec(z as int),
        -90_000_000 <= r <= 90_000_000,
        z >= 0 ==> r >= 0,
        z < 0 ==> r <= 0,
{
    let r9: i64 = asin_rad9(z);
    let m: i64 = if r9 < 0 { -r9 } else { r9 };
    proof {
        lemma_mul_bound(m as u128, 57_295_779_513, 1_570_796_327, 57_295_779_513);
    }
    let d: u128 = m as u128 * 57_295_779_513 / 1_000_000_000_000;
    let dm: i64 = if d > 90_000_000 { 90_000_000 } else { d as i64 };
    if r9 < 0 { -dm } else { dm }
}

/// Angle of the vector (x, y), measured like a bearing's raw azimuth:
/// micro-degrees in (-180_000_000, 180_000_000], from atan2(y, x).
///
/// Both arguments share the (arbitrary) scale of the trig products.
pub open spec fn atan2_udeg_spec(y: int, x: int) -> int {
    let ay: int = if y < 0 { -y } else { y };
    let ax: int = if x < 0 { -x } else { x };
    if ay == 0 && ax == 0 {
        0
    } else {
        let h: int = sqrt_floor(ax * ax + ay * ay);
        let z0: int = ay * 1_000_000_000 / h;
        let z: int = if z0 > 1_000_000_000 { 1_000_000_000 } else { z0 };
        let t: int = asin_udeg_spec(z);
        if x >= 0 {
            if y >= 0 { t } else { -t }
        } else {
            if y >= 0 { 180_000_000 - t } else { -(180_000_000 - t) }
        }
    }
}

#[verifier::rlimit(60)]
pub fn atan2_udeg(y: i64, x: i64) -> (r: i64)
    requires
        -2_100_000_000 <= y <= 2_100_000_000,
        -2_100_000_000 <= x <= 2_100_000_000,
    ensures
        r == atan2_udeg_spec(y as int, x as int),
        -180_000_000 <= r <= 180_000_000,
{
    let ay: i64 = if y < 0 { -y } else { y };
    let ax: i64 = if x < 0 { -x } else { x };
    if ay == 0 && ax == 0 {
        return 0;
    }
    let ayw: u128 = ay as u128;
    let axw: u128 = ax as u128;
    proof {
        lemma_mul_bound(axw, axw, 2_100_000_000, 2_100_000_000);
        lemma_mul_bound(ayw, ayw, 2_100_000_000, 2_100_000_000);
    }
    let n: u128 = axw * axw + ayw * ayw;
    let h: u128 = isqrt(n);
    proof {
        assert(n >= 1) by (nonlinear_arith)
            requires
                n == axw * axw + ayw * ayw,
                axw >= 1 || ayw >= 1,
        ;
        assert(h >= 1) by (nonlinear_arith)
            requires
                (h + 1) * (h + 1) > n,
                n >= 1,
        ;
    }
    let z0: u128 = ayw * 1_000_000_000 / h;
    let z: i64 = if z0 > 1_000_000_000 { 1_000_000_000 } else { z0 as i64 };
    let t: i64 = asin_udeg(z);
    if x >= 0 {
        if y >= 0 { t } else { -t }
    } else {
        if y >= 0 { 180_000_000 - t } else { -(180_000_000 - t) }
    }
}

/// Sine of an angle in micro-degrees, one turn around allowed on each side;
/// scale 10^9 out. Reduces to the first quarter by symmetry.
pub open spec fn sin_udeg_spec(a: int) -> int {
    let n: int = if a < 0 {
        a + 360_000_000
    } else if a >= 360_000_000 {
        a - 360_000_000
    } else {
        a
    };
    if n <= 90_000_000 {
        sin_quarter_spec(n)
    } else if n <= 180_000_000 {
        sin_quarter_spec(180_000_000 - n)
    } else if n <= 270_000_000 {
        -sin_quarter_spec(n - 180_000_000)
    } else {
        -sin_quarter_spec(360_000_000 - n)
    }
}

pub fn sin_udeg(a: i64) -> (r: i64)
    requires
        -360_000_000 <= a <= 720_000_000,
    ensures
        r == sin_udeg_spec(a as int),
        -1_000_000_000 <= r <= 1_000_000_000,
{
    let n: i64 = if a < 0 {
        a + 360_000_000
    } else if a >= 360_000_000 {
        a - 360_000_000
    } else {
        a
    };
    if n <= 90_000_000 {
        sin_quarter(n)
    } else if n <= 180_000_000 {
        sin_quarter(180_000_000 - n)
    } else if n <= 270_000_000 {
        -sin_quarter(n - 180_000_000)
    } else {
        -sin_quarter(360_000_000 - n)
    }
}

/// Cosine of an angle in micro-degrees, scale 10^9 out.
pub open spec fn cos_udeg_spec(a: int) -> int {
    sin_udeg_spec(a + 90_000_000)
}

pub fn cos_udeg(a: i64) -> (r: i64)
    requires
        -360_000_000 <= a <= 630_000_000,
    ensures
        r == cos_udeg_spec(a as int),
        -1_000_000_000 <= r <= 1_000_000_000,
{
    sin_udeg(a + 90_000_000)
}

/// Product of two scale-10^9 values, rescaled to 10^9, rounded toward zero.
pub open spec fn fixmul_spec(a: int, b: int) -> int {
    let ma: int = if a < 0 { -a } else { a };
    let mb: int = if b < 0 { -b } else { b };
    let m: int = ma * mb / 1_000_000_000;
    if (a < 0) != (b < 0) { -m } else { m }
}

pub fn fixmul(a: i64, b: i64) -> (r: i64)
    requires
        -1_600_000_000 <= a <= 1_600_000_000,
        -1_600_000_000 <= b <= 1_600_000_000,
    ensures
        r == fixmul_spec(a as int, b as int),
        -2_560_000_000 <= r <= 2_560_000_000,
        (-1_000_000_000 <= a <= 1_000_000_000 && -1_000_000_000 <= b <= 1_000_000_000)
            ==> -1_000_000_000 <= r <= 1_000_000_000,
{
    let ma: u128 = (if a < 0 { -a } else { a }) as u128;
    let mb: u128 = (if b < 0 { -b } else { b }) as u128;
    proof {
        lemma_mul_bound(ma, mb, 1_600_000_000, 1_600_000_000);
        if -1_000_000_000 <= a <= 1_000_000_000 && -1_000_000_000 <= b <= 1_000_000_000 {
            lemma_mul_bound(ma, mb, 1_000_000_000, 1_000_000_000);
        }
    }
    let m: u128 = ma * mb / 1_000_000_000;
    let ms: i64 = m as i64;
    if (a < 0) != (b < 0) { -ms } else { ms }
}

} // verus!
