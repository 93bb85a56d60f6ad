//! 2D fixed-point vectors, the boid state record, and the vector operations
//! the force model is built from: squared norm, magnitude, normalization.

use crate::num::{
    ceil_isqrt_i128, ceil_sqrt, lemma_abs_le_ceil_sqrt, lemma_ceil_sqrt, lemma_ceil_sqrt_pos,
    lemma_tdiv_bound, tdiv, tdiv_i128, SCALE,
};
use vstd::arithmetic::mul::lemma_mul_inequality;
use vstd::prelude::*;

verus! {

/// Largest magnitude allowed for any coordinate, velocity component or
/// configuration gain handed to the core. Keeping every input within this
/// bound keeps every intermediate product of the force model inside `i128`.
pub const COORD_LIMIT: i64 = 16777216;

/// A 2D vector in fixed-point world units (counts of `1/SCALE`).
#[derive(Clone, Copy, PartialEq, Eq, Structural, Debug)]
pub struct V2 {
    pub x: i64,
    pub y: i64,
}

impl View for V2 {
    type V = (int, int);

    open spec fn view(&self) -> (int, int) {
        (self.x as int, self.y as int)
    }
}

impl V2 {
    pub fn new(x: i64, y: i64) -> (r: V2)
        ensures
            r@ == (x as int, y as int),
    {
        V2 { x, y }
    }
}

/// One simulated agent: a position and a velocity.
#[derive(Clone, Copy, PartialEq, Eq, Structural, Debug)]
pub struct Boid {
    pub position: V2,
    pub velocity: V2,
}

impl Boid {
    pub fn new(position: V2, velocity: V2) -> (r: Boid)
        ensures
            r.position == position,
            r.velocity == velocity,
    {
        Boid { position, velocity }
    }

    /// Both components of both vectors are within the magnitude limit.
    pub open spec fn bounded(self) -> bool {
        bounded_pair(self.position@) && bounded_pair(self.velocity@)
    }
}

pub open spec fn bounded_pair(v: (int, int)) -> bool {
    &&& -COORD_LIMIT <= v.0 <= COORD_LIMIT
    &&& -COORD_LIMIT <= v.1 <= COORD_LIMIT
}

/// Loose bound met by any difference of two bounded vectors.
pub open spec fn diff_bounded(v: (int, int)) -> bool {
    &&& -2 * COORD_LIMIT <= v.0 <= 2 * COORD_LIMIT
    &&& -2 * COORD_LIMIT <= v.1 <= 2 * COORD_LIMIT
}

/// Every boid of the sequence is within the magnitude limit.
pub open spec fn all_bounded(s: Seq<Boid>) -> bool {
    forall|i: int| 0 <= i < s.len() ==> #[trigger] s[i].bounded()
}

/// Squared Euclidean norm.
pub open spec fn vnorm_sq(v: (int, int)) -> int {
    v.0 * v.0 + v.1 * v.1
}

/// Fixed-point magnitude: the ceiling square root of the squared norm.
pub open spec fn vmag(v: (int, int)) -> int {
    ceil_sqrt(vnorm_sq(v))
}

/// Fixed-point unit vector: `v` scaled to length (at most) `SCALE`.
/// The zero vector normalizes to the zero vector.
pub open spec fn vnormalize(v: (int, int)) -> (int, int) {
    if v.0 == 0 && v.1 == 0 {
        (0, 0)
    } else {
        (tdiv(v.0 * SCALE, vmag(v)), tdiv(v.1 * SCALE, vmag(v)))
    }
}

/// Squared distance between two points.
pub open spec fn dist_sq(p: (int, int), q: (int, int)) -> int {
    vnorm_sq((p.0 - q.0, p.1 - q.1))
}

pub proof fn lemma_vnorm_sq_nonneg(v: (int, int))
    ensures
        vnorm_sq(v) >= 0,
        (v.0 != 0 || v.1 != 0) ==> vnorm_sq(v) >= 1,
{
    assert(v.0 * v.0 >= 0 && v.1 * v.1 >= 0) by (nonlinear_arith);
    if v.0 != 0 || v.1 != 0 {
        assert(v.0 != 0 ==> v.0 * v.0 >= 1) by (nonlinear_arith);
        assert(v.1 != 0 ==> v.1 * v.1 >= 1) by (nonlinear_arith);
    }
}

/// Each component is bounded by the magnitude, and the magnitude of a
/// nonzero vector is at least 1.
pub proof fn lemma_component_le_vmag(v: (int, int))
    ensures
        vmag(v) >= 0,
        -vmag(v) <= v.0 <= vmag(v),
        -vmag(v) <= v.1 <= vmag(v),
        (v.0 != 0 || v.1 != 0) ==> vmag(v) >= 1,
{
    lemma_vnorm_sq_nonneg(v);
    lemma_ceil_sqrt(vnorm_sq(v));
    assert(v.0 * v.0 <= vnorm_sq(v) && v.1 * v.1 <= vnorm_sq(v)) by (nonlinear_arith);
    lemma_abs_le_ceil_sqrt(v.0, vnorm_sq(v));
    lemma_abs_le_ceil_sqrt(v.1, vnorm_sq(v));
    if v.0 != 0 || v.1 != 0 {
        lemma_ceil_sqrt_pos(vnorm_sq(v));
    }
}

/// A normalized vector has components no larger than `SCALE` in magnitude.
pub proof fn lemma_vnormalize_bounds(v: (int, int))
    ensures
        -SCALE <= vnormalize(v).0 <= SCALE,
        -SCALE <= vnormalize(v).1 <= SCALE,
{
    if v.0 == 0 && v.1 == 0 {
    } else {
        let m = vmag(v);
        lemma_component_le_vmag(v);
        lemma_mul_inequality(v.0, m, SCALE as int);
        lemma_mul_inequality(-m, v.0, SCALE as int);
        lemma_mul_inequality(v.1, m, SCALE as int);
        lemma_mul_inequality(-m, v.1, SCALE as int);
        assert((-m) * SCALE == -(m * SCALE)) by (nonlinear_arith);
        lemma_tdiv_bound(v.0 * SCALE, m, SCALE as int);
        lemma_tdiv_bound(v.1 * SCALE, m, SCALE as int);
    }
}

/// The squared norm of a bounded vector, computed exactly in `i128`.
pub fn norm_sq_i128(v: &V2) -> (r: i128)
    requires
        diff_bounded(v@),
    ensures
        r == vnorm_sq(v@),
        0 <= r <= 8 * (COORD_LIMIT as int) * (COORD_LIMIT as int),
{
    proof {
        lemma_vnorm_sq_nonneg(v@);
        assert(0 <= v.x as int * v.x as int <= 4 * (COORD_LIMIT as int * COORD_LIMIT as int)
            && 0 <= v.y as int * v.y as int <= 4 * (COORD_LIMIT as int * COORD_LIMIT as int))
            by (nonlinear_arith)
            requires diff_bounded(v@);
    }
    (v.x as i128) * (v.x as i128) + (v.y as i128) * (v.y as i128)
}

/// Fixed-point magnitude of a vector (the length of `v` in world units,
/// times `SCALE`).
pub fn norm(v: &V2) -> (r: i64)
    requires
        diff_bounded(v@),
    ensures
        r == vmag(v@),
        0 <= r <= 3 * COORD_LIMIT,
{
    let nsq: i128 = norm_sq_i128(v);
    let r = ceil_isqrt_i128(nsq);
    proof {
        let lim = 3 * COORD_LIMIT as int;
        assert(r <= lim) by {
            if r > lim {
                assert((r - 1) * (r - 1) > 8 * (COORD_LIMIT as int * COORD_LIMIT as int))
                    by (nonlinear_arith)
                    requires r - 1 >= 3 * COORD_LIMIT as int, COORD_LIMIT as int >= 1;
            }
        }
    }
    r as i64
}

/// Fixed-point normalization: `v` rescaled to length (at most) `SCALE`;
/// the zero vector stays zero.
pub fn normalize(v: &V2) -> (r: V2)
    requires
        diff_bounded(v@),
    ensures
        r@ == vnormalize(v@),
        -SCALE <= r.x <= SCALE,
        -SCALE <= r.y <= SCALE,
{
    proof {
        lemma_vnormalize_bounds(v@);
    }
    if v.x == 0 && v.y == 0 {
        V2 { x: 0, y: 0 }
    } else {
        let nsq: i128 = norm_sq_i128(v);
        let m = ceil_isqrt_i128(nsq);
        proof {
            lemma_component_le_vmag(v@);
        }
        let rx = tdiv_i128((v.x as i128) * (SCALE as i128), m);
        let ry = tdiv_i128((v.y as i128) * (SCALE as i128), m);
        V2 { x: rx as i64, y: ry as i64 }
    }
}

} // verus!
