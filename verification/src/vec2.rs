//! Fixed-point 2D vectors and the two geometric primitives every steering
//! rule is built from: rescaling a vector to a target length and clamping
//! its length.

use vstd::prelude::*;
use crate::intmath::{
    sdiv, iabs, sqrt_ceil, lemma_sqrt_ceil, lemma_scaled_norm_sq, lemma_scaled_component,
    lemma_norm_component, lemma_sq_bound, lemma_sq_pos, isqrt64_ceil, div_to_zero,
};

verus! {

/// A 2D vector in fixed-point milli-units.
#[derive(Clone, Copy, PartialEq, Eq, Structural, Debug)]
pub struct Vec2 {
    pub x: i64,
    pub y: i64,
}

/// The mathematical model of a vector: a pair of unbounded integers.
pub ghost struct Gv2 {
    pub x: int,
    pub y: int,
}

impl View for Vec2 {
    type V = Gv2;

    open spec fn view(&self) -> Gv2 {
        Gv2 { x: self.x as int, y: self.y as int }
    }
}

pub open spec fn v2_zero() -> Gv2 {
    Gv2 { x: 0, y: 0 }
}

pub open spec fn v2_add(a: Gv2, b: Gv2) -> Gv2 {
    Gv2 { x: a.x + b.x, y: a.y + b.y }
}

pub open spec fn v2_sub(a: Gv2, b: Gv2) -> Gv2 {
    Gv2 { x: a.x - b.x, y: a.y - b.y }
}

pub open spec fn v2_scale(a: Gv2, k: int) -> Gv2 {
    Gv2 { x: a.x * k, y: a.y * k }
}

/// Componentwise truncating division, used for averaging and weighting.
pub open spec fn v2_sdiv(a: Gv2, d: int) -> Gv2
    recommends
        d >= 1,
{
    Gv2 { x: sdiv(a.x, d), y: sdiv(a.y, d) }
}

/// Squared Euclidean norm.
pub open spec fn norm_sq(a: Gv2) -> int {
    a.x * a.x + a.y * a.y
}

/// Squared Euclidean distance.
pub open spec fn dist_sq(a: Gv2, b: Gv2) -> int {
    norm_sq(v2_sub(a, b))
}

/// Both components within `[-c, c]`.
pub open spec fn in_box(a: Gv2, c: int) -> bool {
    -c <= a.x <= c && -c <= a.y <= c
}

/// A vector with the direction of `v` and length at most `t` (exactly the
/// fixed-point rescaling the simulation performs: each component is
/// multiplied by `t` and divided, truncating, by the ceiling of `|v|`).
/// The zero vector stays zero.
pub open spec fn spec_scale_to(v: Gv2, t: int) -> Gv2
    recommends
        t >= 0,
{
    if v.x == 0 && v.y == 0 {
        v
    } else {
        v2_sdiv(v2_scale(v, t), sqrt_ceil(norm_sq(v)))
    }
}

/// `v` unchanged if its length is within `m`, else rescaled to length at
/// most `m`.
pub open spec fn spec_limit(v: Gv2, m: int) -> Gv2
    recommends
        m >= 0,
{
    if norm_sq(v) <= m * m {
        v
    } else {
        v2_sdiv(v2_scale(v, m), sqrt_ceil(norm_sq(v)))
    }
}

/// The zero vector has zero norm.
pub proof fn lemma_norm_sq_zero()
    ensures
        norm_sq(v2_zero()) == 0,
{
    assert(0int * 0int == 0) by (nonlinear_arith);
}

/// The clamped vector has length at most `m`, in norm and per component.
pub proof fn lemma_spec_limit_bounds(v: Gv2, m: int)
    requires
        m >= 0,
    ensures
        norm_sq(spec_limit(v, m)) <= m * m,
        in_box(spec_limit(v, m), m),
{
    let ns = norm_sq(v);
    if ns <= m * m {
        lemma_norm_component(v.x, v.y, m);
    } else {
        lemma_sq_bound(m, m);
        if v.x == 0 && v.y == 0 {
            assert(false);
        }
        let l = sqrt_ceil(ns);
        lemma_sqrt_ceil(ns);
        lemma_norm_component(v.x, v.y, l);
        lemma_scaled_norm_sq(v.x, v.y, m, l);
        lemma_scaled_component(v.x, m, l);
        lemma_scaled_component(v.y, m, l);
    }
}

impl Vec2 {
    /// The zero vector.
    pub fn zero() -> (r: Vec2)
        ensures
            r@ == v2_zero(),
    {
        Vec2 { x: 0, y: 0 }
    }

    /// Componentwise sum.
    pub fn add(self, o: Vec2) -> (r: Vec2)
        requires
            i64::MIN <= self@.x + o@.x <= i64::MAX,
            i64::MIN <= self@.y + o@.y <= i64::MAX,
        ensures
            r@ == v2_add(self@, o@),
    {
        Vec2 { x: self.x + o.x, y: self.y + o.y }
    }

    /// Componentwise difference.
    pub fn sub(self, o: Vec2) -> (r: Vec2)
        requires
            i64::MIN <= self@.x - o@.x <= i64::MAX,
            i64::MIN <= self@.y - o@.y <= i64::MAX,
        ensures
            r@ == v2_sub(self@, o@),
    {
        Vec2 { x: self.x - o.x, y: self.y - o.y }
    }

    /// Squared norm, exact in `u64`.
    pub fn norm_sq64(&self) -> (r: u64)
        requires
            in_box(self@, 2_000_000_000),
        ensures
            r as int == norm_sq(self@),
    {
        proof {
            lemma_sq_bound(self@.x, 2_000_000_000);
            lemma_sq_bound(self@.y, 2_000_000_000);
        }
        let xx = self.x * self.x;
        let yy = self.y * self.y;
        (xx + yy) as u64
    }

    /// Shared core of `scale_to` and `limit`: rescale by `t / sqrt_ceil(ns)`.
    fn scale_by_norm(self, t: i64, ns: u64) -> (r: Vec2)
        requires
            in_box(self@, 1_000_000_000),
            0 <= t <= 1_000_000_000,
            ns as int == norm_sq(self@),
            ns >= 1,
        ensures
            r@ == v2_sdiv(v2_scale(self@, t as int), sqrt_ceil(norm_sq(self@))),
            norm_sq(r@) <= (t as int) * (t as int),
            in_box(r@, t as int),
    {
        let l64 = isqrt64_ceil(ns);
        let l = l64 as i64;
        proof {
            lemma_sqrt_ceil(ns as int);
            lemma_norm_component(self@.x, self@.y, l as int);
            lemma_scaled_norm_sq(self@.x, self@.y, t as int, l as int);
            lemma_scaled_component(self@.x, t as int, l as int);
            lemma_scaled_component(self@.y, t as int, l as int);
            assert(-1_000_000_000_000_000_000 <= self@.x * (t as int) <= 1_000_000_000_000_000_000)
                by (nonlinear_arith)
                requires
                    -1_000_000_000 <= self@.x <= 1_000_000_000,
                    0 <= t as int <= 1_000_000_000,
            ;
            assert(-1_000_000_000_000_000_000 <= self@.y * (t as int) <= 1_000_000_000_000_000_000)
                by (nonlinear_arith)
                requires
                    -1_000_000_000 <= self@.y <= 1_000_000_000,
                    0 <= t as int <= 1_000_000_000,
            ;
        }
        let rx = div_to_zero(self.x * t, l);
        let ry = div_to_zero(self.y * t, l);
        Vec2 { x: rx, y: ry }
    }

    /// A vector with the direction of `self` and length (at most) `t`; the
    /// zero vector stays zero.
    pub fn scale_to(self, t: i64) -> (r: Vec2)
        requires
            in_box(self@, 1_000_000_000),
            0 <= t <= 1_000_000_000,
        ensures
            r@ == spec_scale_to(self@, t as int),
            norm_sq(r@) <= (t as int) * (t as int),
            in_box(r@, t as int),
    {
        if self.x == 0 && self.y == 0 {
            proof {
                lemma_sq_bound(t as int, t as int);
            }
            self
        } else {
            proof {
                if self@.x != 0 {
                    lemma_sq_pos(self@.x);
                    lemma_sq_bound(self@.y, iabs(self@.y));
                } else {
                    lemma_sq_pos(self@.y);
                    lemma_sq_bound(self@.x, iabs(self@.x));
                }
            }
            let ns = self.norm_sq64();
            self.scale_by_norm(t, ns)
        }
    }

    /// `self` if its length is within `m`, else rescaled to length at most
    /// `m` (the integrator's speed clamp and the steering force clamp).
    pub fn limit(self, m: i64) -> (r: Vec2)
        requires
            in_box(self@, 1_000_000_000),
            0 <= m <= 1_000_000_000,
        ensures
            r@ == spec_limit(self@, m as int),
            norm_sq(r@) <= (m as int) * (m as int),
            in_box(r@, m as int),
    {
        let ns = self.norm_sq64();
        proof {
            lemma_sq_bound(m as int, 1_000_000_000);
        }
        let mm: u64 = (m as u64) * (m as u64);
        if ns <= mm {
            proof {
                lemma_norm_component(self@.x, self@.y, m as int);
            }
            self
        } else {
            self.scale_by_norm(m, ns)
        }
    }
}

} // verus!
