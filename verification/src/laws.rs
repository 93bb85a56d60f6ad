//! The library's laws: properties of the force model, the speed policies and
//! the boundary responses, each proved once and for all from the
//! specification functions that the executable contracts are stated over.

use crate::boundary::{boundary_one_spec, contact_side, Side, WallLocation};
use crate::config::{CollisionPolicy, Config};
use crate::flocking::{
    apply_speed_policy, candidate_velocity, cohesion_term, flock_init, flock_step, flock_sums,
    new_velocity, rescale, FlockAcc,
};
use crate::geom::{vmag, vnorm_sq, Boid};
use crate::num::{lemma_ceil_sqrt, lemma_tdiv_times_divisor, tdiv};
use crate::sim::{next_boid, tick_contacts};
use vstd::arithmetic::mul::lemma_mul_inequality;
use vstd::prelude::*;
use vstd::seq_lib::{commutative_foldl, lemma_fold_left_permutation};

verus! {

pub proof fn lemma_neighbor_count_nonneg(s: Seq<Boid>, b: Boid, cfg: Config)
    ensures
        flock_sums(s, b, cfg).3 >= 0,
    decreases s.len(),
{
    if s.len() > 0 {
        lemma_neighbor_count_nonneg(s.drop_last(), b, cfg);
    }
}

/// A boid with zero in-range neighbors receives exactly zero alignment,
/// separation and cohesion contributions: its candidate velocity differs
/// from its previous velocity by the wall term alone.
pub proof fn lemma_no_neighbors(s: Seq<Boid>, b: Boid, cfg: Config)
    requires
        flock_sums(s, b, cfg).3 == 0,
    ensures
        flock_sums(s, b, cfg) == flock_init(),
        cohesion_term(b, cfg, flock_sums(s, b, cfg).2, flock_sums(s, b, cfg).3) == (0int, 0int),
        candidate_velocity(s, b, cfg) == (
            b.velocity@.0 - crate::flocking::wall_sum(b, cfg).0,
            b.velocity@.1 - crate::flocking::wall_sum(b, cfg).1,
        ),
    decreases s.len(),
{
    if s.len() > 0 {
        lemma_neighbor_count_nonneg(s.drop_last(), b, cfg);
        assert(!crate::flocking::in_range(b, s.last(), cfg.vision_radius as int));
        lemma_no_neighbors(s.drop_last(), b, cfg);
    }
}

/// Determinism: the next state and the contact count are functions of the
/// input snapshot and the configuration alone. Two runs of the executable
/// `tick` on equal inputs return these very values, hence equal outputs.
pub proof fn lemma_tick_deterministic(s1: Seq<Boid>, s2: Seq<Boid>, cfg: Config, i: int)
    requires
        s1 == s2,
    ensures
        next_boid(s1, cfg, i) == next_boid(s2, cfg, i),
        tick_contacts(s1, cfg, s1.len() as int) == tick_contacts(s2, cfg, s2.len() as int),
{
}

proof fn lemma_flock_step_commutes(b: Boid, cfg: Config)
    ensures
        commutative_foldl(flock_step(b, cfg)),
{
    let f = flock_step(b, cfg);
    assert forall|x: Boid, y: Boid, v: FlockAcc| #[trigger] f(f(v, x), y) == f(f(v, y), x) by {
        assert(f(f(v, x), y) == f(f(v, y), x));
    }
}

/// Order independence: the read phase folds a commutative step over the
/// snapshot, so permuting the iteration order over the boids changes no
/// boid's resulting velocity.
pub proof fn lemma_order_independent(s1: Seq<Boid>, s2: Seq<Boid>, b: Boid, cfg: Config)
    requires
        s1.to_multiset() == s2.to_multiset(),
    ensures
        candidate_velocity(s1, b, cfg) == candidate_velocity(s2, b, cfg),
        new_velocity(s1, b, cfg) == new_velocity(s2, b, cfg),
{
    lemma_flock_step_commutes(b, cfg);
    lemma_fold_left_permutation(s1, s2, flock_step(b, cfg), flock_init());
}

/// Rescaling a vector to magnitude `m` never overshoots: the squared norm of
/// the result is at most `m * m` (the ceiling square root and the truncating
/// division both shorten, never lengthen).
pub proof fn lemma_rescale_norm_le(c: (int, int), m: int)
    requires
        m >= 0,
    ensures
        vnorm_sq(rescale(c, m)) <= m * m,
{
    if c.0 == 0 && c.1 == 0 {
        assert(vnorm_sq((0int, 0int)) == 0);
        assert(m * m >= 0) by (nonlinear_arith)
            requires m >= 0;
    } else {
        let n = vmag(c);
        crate::geom::lemma_component_le_vmag(c);
        lemma_ceil_sqrt(vnorm_sq(c));
        let r0 = tdiv(c.0 * m, n);
        let r1 = tdiv(c.1 * m, n);
        lemma_tdiv_times_divisor(c.0 * m, n);
        lemma_tdiv_times_divisor(c.1 * m, n);
        assert(r0 * r0 * (n * n) <= (c.0 * m) * (c.0 * m)) by (nonlinear_arith)
            requires
                (c.0 * m >= 0 ==> 0 <= r0 * n <= c.0 * m) && (c.0 * m < 0 ==> c.0 * m <= r0 * n
                    <= 0);
        assert(r1 * r1 * (n * n) <= (c.1 * m) * (c.1 * m)) by (nonlinear_arith)
            requires
                (c.1 * m >= 0 ==> 0 <= r1 * n <= c.1 * m) && (c.1 * m < 0 ==> c.1 * m <= r1 * n
                    <= 0);
        assert((c.0 * m) * (c.0 * m) + (c.1 * m) * (c.1 * m) == vnorm_sq(c) * (m * m))
            by (nonlinear_arith);
        assert(vnorm_sq(c) * (m * m) <= (n * n) * (m * m)) by {
            lemma_mul_inequality(vnorm_sq(c), n * n, m * m);
            assert(m * m >= 0) by (nonlinear_arith)
                requires m >= 0;
        }
        assert((r0 * r0 + r1 * r1) * (n * n) <= (n * n) * (m * m)) by (nonlinear_arith)
            requires
                r0 * r0 * (n * n) <= (c.0 * m) * (c.0 * m),
                r1 * r1 * (n * n) <= (c.1 * m) * (c.1 * m),
                (c.0 * m) * (c.0 * m) + (c.1 * m) * (c.1 * m) <= (n * n) * (m * m);
        assert(r0 * r0 + r1 * r1 <= m * m) by (nonlinear_arith)
            requires
                (r0 * r0 + r1 * r1) * (n * n) <= (n * n) * (m * m),
                n >= 1;
    }
}

/// Constant mode is exact on an axis-aligned candidate: a nonzero candidate
/// along the x axis is rescaled to squared magnitude exactly `m * m`. (On
/// oblique candidates the integer magnitude and division round, so the speed
/// is only bounded by `m`; see `lemma_rescale_norm_le`.)
pub proof fn lemma_rescale_exact_on_axis(c: (int, int), m: int)
    requires
        m >= 0,
        c.1 == 0,
        c.0 != 0,
    ensures
        vnorm_sq(rescale(c, m)) == m * m,
{
    let a = if c.0 >= 0 { c.0 } else { -c.0 };
    assert(vnorm_sq(c) == a * a) by (nonlinear_arith)
        requires c.1 == 0, a == (if c.0 >= 0 { c.0 } else { -c.0 });
    crate::num::lemma_ceil_sqrt_exact(a);
    assert(vmag(c) == a);
    vstd::arithmetic::div_mod::lemma_div_of0(a);
    assert(tdiv(c.1 * m, a) == 0);
    if c.0 >= 0 {
        assert(c.0 * m >= 0) by (nonlinear_arith)
            requires c.0 >= 0, m >= 0;
        vstd::arithmetic::div_mod::lemma_div_multiples_vanish(m, a);
        assert(tdiv(c.0 * m, a) == m);
    } else {
        assert(c.0 * m <= 0 && -(c.0 * m) == a * m) by (nonlinear_arith)
            requires c.0 < 0, m >= 0, a == -c.0;
        vstd::arithmetic::div_mod::lemma_div_multiples_vanish(m, a);
        assert(tdiv(c.0 * m, a) == -m);
    }
    assert(m * m + 0 * 0 == m * m) by (nonlinear_arith);
    assert((-m) * (-m) + 0 * 0 == m * m) by (nonlinear_arith);
}

/// Rescaling also never undershoots by more than the rounding slack: writing
/// `n` for the integer magnitude of the candidate, the squared norm of the
/// rescaled vector, scaled by `n^2`, is at least `|c|^2 m^2 - 4 m n^2`.
/// Dividing by `n^2` (and using `|c|^2 > (n-1)^2`), the squared speed misses
/// `m^2` by at most `2 m^2 / n + 4 m` — vanishing as the candidate grows, the
/// "within epsilon" half of the constant-speed guarantee.
pub proof fn lemma_rescale_norm_lower(c: (int, int), m: int)
    requires
        m >= 0,
        !(c.0 == 0 && c.1 == 0),
    ensures
        ({
            let n = vmag(c);
            vnorm_sq(rescale(c, m)) * (n * n) >= vnorm_sq(c) * (m * m) - 4 * m * (n * n)
        }),
        vnorm_sq(c) > (vmag(c) - 1) * (vmag(c) - 1),
{
    let n = vmag(c);
    crate::geom::lemma_component_le_vmag(c);
    crate::geom::lemma_vnorm_sq_nonneg(c);
    lemma_ceil_sqrt(vnorm_sq(c));
    let r0 = tdiv(c.0 * m, n);
    let r1 = tdiv(c.1 * m, n);
    crate::num::lemma_tdiv_remainder(c.0 * m, n);
    crate::num::lemma_tdiv_remainder(c.1 * m, n);
    assert(r0 * r0 * (n * n) >= (c.0 * c.0) * (m * m) - 2 * m * (n * n)) by (nonlinear_arith)
        requires
            n >= 1,
            m >= 0,
            -n <= c.0 <= n,
            -n < r0 * n - c.0 * m < n;
    assert(r1 * r1 * (n * n) >= (c.1 * c.1) * (m * m) - 2 * m * (n * n)) by (nonlinear_arith)
        requires
            n >= 1,
            m >= 0,
            -n <= c.1 <= n,
            -n < r1 * n - c.1 * m < n;
    assert(rescale(c, m) == (r0, r1));
    assert(vnorm_sq(rescale(c, m)) == r0 * r0 + r1 * r1);
    assert((r0 * r0 + r1 * r1) * (n * n) >= (c.0 * c.0 + c.1 * c.1) * (m * m) - 4 * m * (n * n))
        by (nonlinear_arith)
        requires
            r0 * r0 * (n * n) >= (c.0 * c.0) * (m * m) - 2 * m * (n * n),
            r1 * r1 * (n * n) >= (c.1 * c.1) * (m * m) - 2 * m * (n * n);
}

/// Both speed policies respect the speed bound: for every candidate, the
/// returned velocity has a squared norm between 0 and `max_speed^2`. In range
/// mode a candidate already within the bound passes through unchanged.
pub proof fn lemma_speed_policy_bounds(c: (int, int), cfg: Config)
    ensures
        0 <= vnorm_sq(apply_speed_policy(c, cfg)),
        vnorm_sq(apply_speed_policy(c, cfg)) <= cfg.max_speed * cfg.max_speed,
        cfg.speed_policy == crate::config::SpeedPolicy::Range && vnorm_sq(c) <= cfg.max_speed
            * cfg.max_speed && cfg.max_speed > 0 ==> apply_speed_policy(c, cfg) == c,
{
    crate::geom::lemma_vnorm_sq_nonneg(apply_speed_policy(c, cfg));
    if cfg.max_speed <= 0 {
        assert(vnorm_sq((0int, 0int)) == 0);
        assert(cfg.max_speed * cfg.max_speed >= 0) by (nonlinear_arith);
    } else {
        match cfg.speed_policy {
            crate::config::SpeedPolicy::Range => {
                if vnorm_sq(c) <= cfg.max_speed * cfg.max_speed {
                } else {
                    lemma_rescale_norm_le(c, cfg.max_speed as int);
                }
            },
            crate::config::SpeedPolicy::Constant => {
                lemma_rescale_norm_le(c, cfg.max_speed as int);
            },
        }
    }
}

/// For every boid of every snapshot, the committed next velocity respects
/// the configured speed bound: `0 <= |new velocity|^2 <= max_speed^2`.
pub proof fn lemma_new_velocity_speed_bound(s: Seq<Boid>, b: Boid, cfg: Config)
    ensures
        0 <= vnorm_sq(new_velocity(s, b, cfg)),
        vnorm_sq(new_velocity(s, b, cfg)) <= cfg.max_speed * cfg.max_speed,
{
    lemma_speed_policy_bounds(candidate_velocity(s, b, cfg), cfg);
}

/// Reflect policy: on a classified contact the velocity component
/// perpendicular to the contacted side is sign-flipped exactly when it
/// pointed into the wall, the parallel component is unchanged, and the
/// position is untouched by the boundary response.
pub proof fn lemma_reflect_policy(p: (int, int), v: (int, int), loc: WallLocation, cfg: Config)
    requires
        cfg.collision_policy == CollisionPolicy::Reflect,
    ensures
        boundary_one_spec(p, v, loc, cfg).0 == p,
        ({
            let r = boundary_one_spec(p, v, loc, cfg);
            match contact_side(p, loc, cfg) {
                Some(side) => match side {
                    Side::Left => r.1 == (if v.0 > 0 { (-v.0, v.1) } else { v }),
                    Side::Right => r.1 == (if v.0 < 0 { (-v.0, v.1) } else { v }),
                    Side::Bottom => r.1 == (if v.1 > 0 { (v.0, -v.1) } else { v }),
                    Side::Top => r.1 == (if v.1 < 0 { (v.0, -v.1) } else { v }),
                    Side::Inside => r.1 == v,
                },
                None => r.1 == v,
            }
        }),
{
}

/// Clamp policy: the velocity is never changed, and a contact on the arena
/// side of a wall repositions the boid to the wall coordinate offset one
/// wall thickness toward the arena — strictly inside the arena bound — with
/// the parallel coordinate untouched.
pub proof fn lemma_clamp_policy(p: (int, int), v: (int, int), loc: WallLocation, cfg: Config)
    requires
        cfg.collision_policy == CollisionPolicy::Clamp,
        cfg.valid(),
    ensures
        boundary_one_spec(p, v, loc, cfg).1 == v,
        loc == WallLocation::Right && contact_side(p, loc, cfg) == Some(Side::Left)
            ==> boundary_one_spec(p, v, loc, cfg).0 == (
            cfg.right_wall - cfg.wall_thickness,
            p.1,
        ) && cfg.right_wall - cfg.wall_thickness < cfg.right_wall,
        loc == WallLocation::Left && contact_side(p, loc, cfg) == Some(Side::Right)
            ==> boundary_one_spec(p, v, loc, cfg).0 == (
            cfg.left_wall + cfg.wall_thickness,
            p.1,
        ) && cfg.left_wall + cfg.wall_thickness > cfg.left_wall,
        loc == WallLocation::Top && contact_side(p, loc, cfg) == Some(Side::Bottom)
            ==> boundary_one_spec(p, v, loc, cfg).0 == (
            p.0,
            cfg.top_wall - cfg.wall_thickness,
        ) && cfg.top_wall - cfg.wall_thickness < cfg.top_wall,
        loc == WallLocation::Bottom && contact_side(p, loc, cfg) == Some(Side::Top)
            ==> boundary_one_spec(p, v, loc, cfg).0 == (
            p.0,
            cfg.bottom_wall + cfg.wall_thickness,
        ) && cfg.bottom_wall + cfg.wall_thickness > cfg.bottom_wall,
{
}

} // verus!
