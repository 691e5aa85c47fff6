//! Scalar integer arithmetic under the simulation: truncating signed
//! division and integer square roots, with the bounds the vector layer
//! builds on.

use vstd::prelude::*;

verus! {

/// Truncating (round toward zero) signed division: the spec-level meaning
/// of every scalar division the simulation performs.
pub open spec fn sdiv(a: int, d: int) -> int
    recommends
        d >= 1,
{
    if a >= 0 {
        a / d
    } else {
        -((-a) / d)
    }
}

/// Absolute value.
pub open spec fn iabs(a: int) -> int {
    if a >= 0 {
        a
    } else {
        -a
    }
}

/// Floor of the square root, defined by counting up.
pub open spec fn sqrt_floor(n: int) -> int
    decreases n,
{
    if n < 1 {
        0
    } else {
        let s = sqrt_floor(n - 1);
        if (s + 1) * (s + 1) <= n {
            s + 1
        } else {
            s
        }
    }
}

/// Ceiling of the square root.
pub open spec fn sqrt_ceil(n: int) -> int {
    if sqrt_floor(n) * sqrt_floor(n) == n {
        sqrt_floor(n)
    } else {
        sqrt_floor(n) + 1
    }
}

/// Squaring is monotone on the non-negative integers.
pub proof fn lemma_sq_monotone(a: int, b: int)
    by (nonlinear_arith)
    requires
        0 <= a <= b,
    ensures
        a * a <= b * b,
{
}

/// `sqrt_floor(n)` really is the floor of the square root of `n`.
pub proof fn lemma_sqrt_floor(n: int)
    requires
        n >= 0,
    ensures
        sqrt_floor(n) >= 0,
        sqrt_floor(n) * sqrt_floor(n) <= n,
        n < (sqrt_floor(n) + 1) * (sqrt_floor(n) + 1),
    decreases n,
{
    if n == 0 {
    } else {
        lemma_sqrt_floor(n - 1);
        let s = sqrt_floor(n - 1);
        if (s + 1) * (s + 1) <= n {
            assert((s + 1) * (s + 1) < (s + 2) * (s + 2)) by (nonlinear_arith)
                requires
                    s >= 0,
            ;
        }
    }
}

/// The floor square root is unique: any `r` with `r^2 <= n < (r+1)^2` is it.
pub proof fn lemma_sqrt_floor_unique(n: int, r: int)
    requires
        n >= 0,
        r >= 0,
        r * r <= n,
        n < (r + 1) * (r + 1),
    ensures
        r == sqrt_floor(n),
{
    lemma_sqrt_floor(n);
    let s = sqrt_floor(n);
    if r < s {
        lemma_sq_monotone(r + 1, s);
        assert(false);
    }
    if s < r {
        lemma_sq_monotone(s + 1, r);
        assert(false);
    }
}

/// `sqrt_ceil(n)` bounds `n` from above, and is positive when `n` is.
pub proof fn lemma_sqrt_ceil(n: int)
    requires
        n >= 0,
    ensures
        sqrt_ceil(n) >= 0,
        n <= sqrt_ceil(n) * sqrt_ceil(n),
        n >= 1 ==> sqrt_ceil(n) >= 1,
        sqrt_floor(n) <= sqrt_ceil(n),
{
    lemma_sqrt_floor(n);
}

/// Division of a non-negative integer by a positive one shrinks it and
/// rounds down.
pub proof fn lemma_div_nonneg_props(a: int, d: int)
    requires
        a >= 0,
        d >= 1,
    ensures
        0 <= a / d <= a,
        (a / d) * d <= a,
{
    vstd::arithmetic::div_mod::lemma_fundamental_div_mod(a, d);
    vstd::arithmetic::div_mod::lemma_mod_division_less_than_divisor(a, d);
    vstd::arithmetic::div_mod::lemma_div_pos_is_pos(a, d);
    assert((a / d) * d == d * (a / d)) by (nonlinear_arith);
    assert(a / d <= (a / d) * d) by (nonlinear_arith)
        requires
            a / d >= 0,
            d >= 1,
    ;
}

/// Truncating division keeps the sign and shrinks the magnitude.
pub proof fn lemma_sdiv_props(a: int, d: int)
    requires
        d >= 1,
    ensures
        iabs(sdiv(a, d)) <= iabs(a),
        iabs(sdiv(a, d)) * d <= iabs(a),
        a >= 0 ==> sdiv(a, d) >= 0,
        a <= 0 ==> sdiv(a, d) <= 0,
{
    if a >= 0 {
        lemma_div_nonneg_props(a, d);
    } else {
        lemma_div_nonneg_props(-a, d);
    }
}

/// If `|a| <= d * m` then `|a / d| <= m`: dividing an accumulated sum by the
/// number of its summands stays within the summands' bound.
pub proof fn lemma_sdiv_bound(a: int, d: int, m: int)
    requires
        d >= 1,
        m >= 0,
        iabs(a) <= d * m,
    ensures
        iabs(sdiv(a, d)) <= m,
{
    let aa = iabs(a);
    lemma_sdiv_props(a, d);
    lemma_div_nonneg_props(aa, d);
    vstd::arithmetic::div_mod::lemma_div_is_ordered(aa, d * m, d);
    vstd::arithmetic::div_mod::lemma_div_by_multiple(m, d);
    assert(d * m == m * d) by (nonlinear_arith);
    if a >= 0 {
    } else {
        assert(iabs(sdiv(a, d)) == (-a) / d);
    }
}

/// The square of an absolute value is the square.
pub proof fn lemma_sq_abs(z: int)
    ensures
        iabs(z) * iabs(z) == z * z,
{
    if z >= 0 {
    } else {
        assert((-z) * (-z) == z * z) by (nonlinear_arith);
    }
}

/// Squared truncating division: `(a/d)^2 * d^2 <= a^2`.
pub proof fn lemma_sdiv_sq(a: int, d: int)
    requires
        d >= 1,
    ensures
        sdiv(a, d) * sdiv(a, d) * (d * d) <= a * a,
{
    let s = sdiv(a, d);
    let q = iabs(s);
    let aa = iabs(a);
    lemma_sdiv_props(a, d);
    lemma_sq_abs(s);
    lemma_sq_abs(a);
    assert(q * q * (d * d) <= aa * aa) by (nonlinear_arith)
        requires
            q >= 0,
            aa >= 0,
            d >= 1,
            q * d <= aa,
    ;
}

/// Scaling a vector component by `t / l` with `l` at least the vector's
/// length keeps the squared norm within `t^2`.
pub proof fn lemma_scaled_norm_sq(x: int, y: int, t: int, l: int)
    requires
        t >= 0,
        l >= 1,
        x * x + y * y <= l * l,
    ensures
        sdiv(x * t, l) * sdiv(x * t, l) + sdiv(y * t, l) * sdiv(y * t, l) <= t * t,
{
    let qx = sdiv(x * t, l);
    let qy = sdiv(y * t, l);
    lemma_sdiv_sq(x * t, l);
    lemma_sdiv_sq(y * t, l);
    assert((x * t) * (x * t) == (x * x) * (t * t)) by (nonlinear_arith);
    assert((y * t) * (y * t) == (y * y) * (t * t)) by (nonlinear_arith);
    assert((x * x) * (t * t) + (y * y) * (t * t) <= (l * l) * (t * t)) by (nonlinear_arith)
        requires
            x * x + y * y <= l * l,
    ;
    assert(qx * qx + qy * qy <= t * t) by (nonlinear_arith)
        requires
            l >= 1,
            qx * qx * (l * l) + qy * qy * (l * l) <= (l * l) * (t * t),
    ;
}

/// Scaling a component by `t / l` with `|x| <= l` keeps it within `t`.
pub proof fn lemma_scaled_component(x: int, t: int, l: int)
    requires
        t >= 0,
        l >= 1,
        iabs(x) <= l,
    ensures
        iabs(sdiv(x * t, l)) <= t,
{
    assert(iabs(x * t) == iabs(x) * t) by (nonlinear_arith)
        requires
            t >= 0,
    ;
    assert(iabs(x) * t <= l * t) by (nonlinear_arith)
        requires
            t >= 0,
            iabs(x) <= l,
    ;
    lemma_sdiv_bound(x * t, l, t);
}

/// A component of a vector is bounded by any bound on the norm:
/// `x^2 + y^2 <= m^2` with `m >= 0` gives `|x| <= m`.
pub proof fn lemma_norm_component(x: int, y: int, m: int)
    requires
        m >= 0,
        x * x + y * y <= m * m,
    ensures
        iabs(x) <= m,
        iabs(y) <= m,
{
    assert((m + 1) * (m + 1) > m * m) by (nonlinear_arith)
        requires
            m >= 0,
    ;
    if iabs(x) > m {
        lemma_sq_monotone(m + 1, iabs(x));
        lemma_sq_abs(x);
        assert(y * y >= 0) by (nonlinear_arith);
        assert(false);
    }
    if iabs(y) > m {
        lemma_sq_monotone(m + 1, iabs(y));
        lemma_sq_abs(y);
        assert(x * x >= 0) by (nonlinear_arith);
        assert(false);
    }
}

/// A positive integer has a positive floor square root.
pub proof fn lemma_sqrt_floor_pos(n: int)
    requires
        n >= 1,
    ensures
        sqrt_floor(n) >= 1,
{
    lemma_sqrt_floor(n);
    if sqrt_floor(n) == 0 {
        assert((0int + 1) * (0int + 1) == 1) by (nonlinear_arith);
        assert(false);
    }
}

/// A bound on the magnitude bounds the square.
pub proof fn lemma_sq_bound(x: int, m: int)
    requires
        m >= 0,
        iabs(x) <= m,
    ensures
        0 <= x * x <= m * m,
{
    lemma_sq_abs(x);
    lemma_sq_monotone(iabs(x), m);
    assert(iabs(x) * iabs(x) >= 0) by (nonlinear_arith)
        requires
            iabs(x) >= 0,
    ;
}

/// A non-zero integer has a square of at least one.
pub proof fn lemma_sq_pos(x: int)
    requires
        x != 0,
    ensures
        x * x >= 1,
{
    lemma_sq_abs(x);
    lemma_sq_monotone(1, iabs(x));
}

/// Binary-search floor square root on `u64`.
pub fn isqrt64(n: u64) -> (r: u64)
    ensures
        r as int == sqrt_floor(n as int),
        r < 0x1_0000_0000,
{
    proof {
        lemma_sqrt_floor(n as int);
        assert(0x1_0000_0000int * 0x1_0000_0000int > u64::MAX as int);
    }
    let mut lo: u64 = 0;
    let mut hi: u64 = 0x1_0000_0000;
    while lo + 1 < hi
        invariant
            lo < hi <= 0x1_0000_0000,
            (lo as int) * (lo as int) <= n as int,
            (n as int) < (hi as int) * (hi as int),
        decreases hi - lo,
    {
        let mid = lo + (hi - lo) / 2;
        proof {
            lemma_sq_monotone(mid as int, 0xffff_ffff);
            assert(0xffff_ffffint * 0xffff_ffffint <= u64::MAX as int);
        }
        if mid * mid <= n {
            lo = mid;
        } else {
            hi = mid;
        }
    }
    proof {
        lemma_sqrt_floor_unique(n as int, lo as int);
    }
    lo
}

/// Binary-search ceiling square root on `u64`.
pub fn isqrt64_ceil(n: u64) -> (r: u64)
    ensures
        r as int == sqrt_ceil(n as int),
        r <= 0x1_0000_0000,
        n >= 1 ==> r >= 1,
{
    proof {
        lemma_sqrt_ceil(n as int);
    }
    let r = isqrt64(n);
    proof {
        lemma_sq_monotone(r as int, 0xffff_ffff);
        assert(0xffff_ffffint * 0xffff_ffffint <= u64::MAX as int);
    }
    if r * r == n {
        r
    } else {
        r + 1
    }
}

/// Truncating signed division on machine integers.
pub fn div_to_zero(a: i64, d: i64) -> (r: i64)
    requires
        d >= 1,
        a > i64::MIN,
    ensures
        r as int == sdiv(a as int, d as int),
{
    if a >= 0 {
        proof {
            lemma_div_nonneg_props(a as int, d as int);
        }
        let q: u64 = (a as u64) / (d as u64);
        q as i64
    } else {
        proof {
            lemma_div_nonneg_props(-(a as int), d as int);
        }
        let q: u64 = ((-a) as u64) / (d as u64);
        -(q as i64)
    }
}

} // verus!
