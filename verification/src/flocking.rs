//! The flocking force model: neighbor scan, alignment / separation / cohesion
//! steering terms, wall softening, and the speed policy. Everything is stated
//! and computed in fixed-point integers; each executable function returns
//! exactly the value of its specification function.

use crate::config::{Config, SpeedPolicy, MAX_BOIDS};
use crate::geom::{
    all_bounded, bounded_pair, dist_sq, norm_sq_i128, normalize, vmag, vnorm_sq, vnormalize,
    Boid, V2, COORD_LIMIT,
};
use crate::num::{
    ceil_isqrt_i128, lemma_abs_le_ceil_sqrt, lemma_abs_le_of_sq_le, lemma_mul_abs_bound,
    lemma_tdiv_bound, lemma_tdiv_bound_div_ge_one, tdiv, tdiv_i128, SCALE,
};
use vstd::prelude::*;

verus! {

/// Largest magnitude of one alignment term: `2 * COORD_LIMIT`.
pub const ALIGN_TERM_BOUND: i128 = 33554432;

/// Largest magnitude of one separation term: `COORD_LIMIT * SCALE * SCALE`.
pub const SEP_TERM_BOUND: i128 = 16777216000000;

/// Largest magnitude of the cohesion term.
pub const COH_TERM_BOUND: i128 = 40000000000000000;

/// Largest magnitude of one wall force term: `COORD_LIMIT * SCALE * SCALE`.
pub const WALL_TERM_BOUND: i128 = 16777216000000;

/// Largest magnitude of a candidate velocity component before the speed
/// policy is applied.
pub const CAND_LIMIT: i128 = 600000000000000000;

/// A boid sees another iff their distance is strictly between 0 and the
/// vision radius. Distance exactly 0 (the boid itself, or a coincident boid)
/// is excluded, which guards every later division by the distance.
pub open spec fn in_range(b: Boid, o: Boid, radius: int) -> bool {
    &&& radius > 0
    &&& 0 < dist_sq(b.position@, o.position@)
    &&& dist_sq(b.position@, o.position@) < radius * radius
}

/// Neighbor test (compares squared distances, so it is exact).
pub fn within_range(boid: &Boid, other: &Boid, radius: i64) -> (r: bool)
    requires
        boid.bounded(),
        other.bounded(),
    ensures
        r == in_range(*boid, *other, radius as int),
{
    if radius <= 0 {
        return false;
    }
    let d = V2 { x: boid.position.x - other.position.x, y: boid.position.y - other.position.y };
    let dsq = norm_sq_i128(&d);
    proof {
        lemma_mul_abs_bound(radius as int, radius as int, i64::MAX as int, i64::MAX as int);
    }
    dsq > 0 && dsq < (radius as i128) * (radius as i128)
}

/// One neighbor's alignment contribution:
/// `k_align * (normalize(o.velocity) - normalize(b.velocity))`, scaled.
pub open spec fn align_term(b: Boid, o: Boid, cfg: Config) -> (int, int) {
    let nb = vnormalize(b.velocity@);
    let no = vnormalize(o.velocity@);
    (tdiv(cfg.k_align * (no.0 - nb.0), SCALE as int),
     tdiv(cfg.k_align * (no.1 - nb.1), SCALE as int))
}

/// One neighbor's separation contribution: inverse-square repulsion away
/// from the neighbor, `k_space * normalize(b.pos - o.pos) / |b.pos - o.pos|^2`.
pub open spec fn sep_term(b: Boid, o: Boid, cfg: Config) -> (int, int) {
    let u = vnormalize((b.position@.0 - o.position@.0, b.position@.1 - o.position@.1));
    let d = dist_sq(b.position@, o.position@);
    (tdiv(cfg.k_space * u.0 * SCALE, d), tdiv(cfg.k_space * u.1 * SCALE, d))
}

/// Running sums of the read phase for one boid: alignment sum, separation
/// sum, sum of neighbor positions, and the neighbor count.
pub type FlockAcc = ((int, int), (int, int), (int, int), int);

pub open spec fn flock_init() -> FlockAcc {
    ((0, 0), (0, 0), (0, 0), 0)
}

/// Folding one boid `o` of the snapshot into the running sums of `b`.
pub open spec fn flock_step(b: Boid, cfg: Config) -> spec_fn(FlockAcc, Boid) -> FlockAcc {
    |acc: FlockAcc, o: Boid|
        if in_range(b, o, cfg.vision_radius as int) {
            ((acc.0.0 + align_term(b, o, cfg).0, acc.0.1 + align_term(b, o, cfg).1),
             (acc.1.0 + sep_term(b, o, cfg).0, acc.1.1 + sep_term(b, o, cfg).1),
             (acc.2.0 + o.position@.0, acc.2.1 + o.position@.1),
             acc.3 + 1)
        } else {
            acc
        }
}

/// The read-phase sums of boid `b` over the whole snapshot `s`.
pub open spec fn flock_sums(s: Seq<Boid>, b: Boid, cfg: Config) -> FlockAcc {
    s.fold_left(flock_init(), flock_step(b, cfg))
}

pub proof fn lemma_flock_sums_take_step(s: Seq<Boid>, b: Boid, cfg: Config, j: int)
    requires
        0 <= j < s.len(),
    ensures
        flock_sums(s.take(j + 1), b, cfg)
            == flock_step(b, cfg)(flock_sums(s.take(j), b, cfg), s[j]),
{
    assert(s.take(j + 1).drop_last() =~= s.take(j));
    assert(s.take(j + 1).last() == s[j]);
}

/// The cohesion contribution of `b` given the position sum and count of its
/// in-range neighbors: `k_attr * |c - b.pos|^2 * normalize(c - b.pos)` for
/// the neighbor centroid `c`, zero when there are no neighbors.
pub open spec fn cohesion_term(b: Boid, cfg: Config, psum: (int, int), k: int) -> (int, int) {
    if k <= 0 {
        (0, 0)
    } else {
        let c = (tdiv(psum.0, k), tdiv(psum.1, k));
        let diff = (c.0 - b.position@.0, c.1 - b.position@.1);
        let u = vnormalize(diff);
        let sval = vnorm_sq(diff);
        let t1 = tdiv(cfg.k_attr * sval, SCALE as int);
        (tdiv(t1 * u.0, SCALE * SCALE), tdiv(t1 * u.1, SCALE * SCALE))
    }
}

/// Inverse-square wall force along one axis at signed residual distance
/// `res` from the wall line; defined as zero at residual zero.
pub open spec fn wall_force(scale: int, res: int) -> int {
    if res == 0 {
        0
    } else {
        tdiv(scale * SCALE * SCALE, res * res)
    }
}

/// The combined wall-softening vector (subtracted from the candidate).
pub open spec fn wall_sum(b: Boid, cfg: Config) -> (int, int) {
    let px = b.position@.0;
    let py = b.position@.1;
    (wall_force(cfg.wall_force_scale as int, cfg.right_wall - px)
        - wall_force(cfg.wall_force_scale as int, cfg.left_wall - px),
     wall_force(cfg.wall_force_scale as int, cfg.top_wall - py)
        - wall_force(cfg.wall_force_scale as int, cfg.bottom_wall - py))
}

/// The candidate velocity of `b` over snapshot `s`: previous velocity plus
/// alignment, separation and cohesion sums, minus the wall vector.
pub open spec fn candidate_velocity(s: Seq<Boid>, b: Boid, cfg: Config) -> (int, int) {
    let acc = flock_sums(s, b, cfg);
    let coh = cohesion_term(b, cfg, acc.2, acc.3);
    let w = wall_sum(b, cfg);
    (b.velocity@.0 + acc.0.0 + acc.1.0 + coh.0 - w.0,
     b.velocity@.1 + acc.0.1 + acc.1.1 + coh.1 - w.1)
}

/// `c` rescaled to magnitude (at most) `m`, preserving direction; the zero
/// vector stays zero.
pub open spec fn rescale(c: (int, int), m: int) -> (int, int) {
    if c.0 == 0 && c.1 == 0 {
        (0, 0)
    } else {
        (tdiv(c.0 * m, vmag(c)), tdiv(c.1 * m, vmag(c)))
    }
}

/// The configured speed policy applied to a candidate velocity. A
/// non-positive maximum speed is degenerate and yields the zero vector.
pub open spec fn apply_speed_policy(c: (int, int), cfg: Config) -> (int, int) {
    if cfg.max_speed <= 0 {
        (0, 0)
    } else {
        match cfg.speed_policy {
            SpeedPolicy::Range => if vnorm_sq(c) <= cfg.max_speed * cfg.max_speed {
                c
            } else {
                rescale(c, cfg.max_speed as int)
            },
            SpeedPolicy::Constant => rescale(c, cfg.max_speed as int),
        }
    }
}

/// The committed next velocity of boid `b` for one tick over snapshot `s`.
pub open spec fn new_velocity(s: Seq<Boid>, b: Boid, cfg: Config) -> (int, int) {
    apply_speed_policy(candidate_velocity(s, b, cfg), cfg)
}

fn align_term_exec(b: &Boid, o: &Boid, cfg: &Config) -> (r: (i128, i128))
    requires
        b.bounded(),
        o.bounded(),
        cfg.valid(),
    ensures
        (r.0 as int, r.1 as int) == align_term(*b, *o, *cfg),
        -ALIGN_TERM_BOUND <= r.0 <= ALIGN_TERM_BOUND,
        -ALIGN_TERM_BOUND <= r.1 <= ALIGN_TERM_BOUND,
{
    let nb = normalize(&b.velocity);
    let no = normalize(&o.velocity);
    let dx: i64 = no.x - nb.x;
    let dy: i64 = no.y - nb.y;
    proof {
        lemma_mul_abs_bound(cfg.k_align as int, dx as int, COORD_LIMIT as int, 2 * SCALE as int);
        lemma_mul_abs_bound(cfg.k_align as int, dy as int, COORD_LIMIT as int, 2 * SCALE as int);
        lemma_tdiv_bound(cfg.k_align as int * (dx as int), SCALE as int, ALIGN_TERM_BOUND as int);
        lemma_tdiv_bound(cfg.k_align as int * (dy as int), SCALE as int, ALIGN_TERM_BOUND as int);
    }
    let tx = tdiv_i128((cfg.k_align as i128) * (dx as i128), SCALE as i128);
    let ty = tdiv_i128((cfg.k_align as i128) * (dy as i128), SCALE as i128);
    (tx, ty)
}

fn sep_term_exec(b: &Boid, o: &Boid, cfg: &Config) -> (r: (i128, i128))
    requires
        b.bounded(),
        o.bounded(),
        cfg.valid(),
        in_range(*b, *o, cfg.vision_radius as int),
    ensures
        (r.0 as int, r.1 as int) == sep_term(*b, *o, *cfg),
        -SEP_TERM_BOUND <= r.0 <= SEP_TERM_BOUND,
        -SEP_TERM_BOUND <= r.1 <= SEP_TERM_BOUND,
{
    let dv = V2 { x: b.position.x - o.position.x, y: b.position.y - o.position.y };
    let u = normalize(&dv);
    let d = norm_sq_i128(&dv);
    proof {
        lemma_mul_abs_bound(cfg.k_space as int, u.x as int, COORD_LIMIT as int, SCALE as int);
        lemma_mul_abs_bound(
            cfg.k_space as int * (u.x as int),
            SCALE as int,
            COORD_LIMIT as int * SCALE as int,
            SCALE as int,
        );
        lemma_mul_abs_bound(cfg.k_space as int, u.y as int, COORD_LIMIT as int, SCALE as int);
        lemma_mul_abs_bound(
            cfg.k_space as int * (u.y as int),
            SCALE as int,
            COORD_LIMIT as int * SCALE as int,
            SCALE as int,
        );
        lemma_tdiv_bound_div_ge_one(
            cfg.k_space as int * (u.x as int) * (SCALE as int),
            d as int,
            SEP_TERM_BOUND as int,
        );
        lemma_tdiv_bound_div_ge_one(
            cfg.k_space as int * (u.y as int) * (SCALE as int),
            d as int,
            SEP_TERM_BOUND as int,
        );
    }
    let tx = tdiv_i128((cfg.k_space as i128) * (u.x as i128) * (SCALE as i128), d);
    let ty = tdiv_i128((cfg.k_space as i128) * (u.y as i128) * (SCALE as i128), d);
    (tx, ty)
}

fn cohesion_exec(b: &Boid, cfg: &Config, px: i128, py: i128, k: usize) -> (r: (i128, i128))
    requires
        b.bounded(),
        cfg.valid(),
        k >= 1,
        -(k as int) * COORD_LIMIT <= px <= (k as int) * COORD_LIMIT,
        -(k as int) * COORD_LIMIT <= py <= (k as int) * COORD_LIMIT,
    ensures
        (r.0 as int, r.1 as int) == cohesion_term(*b, *cfg, (px as int, py as int), k as int),
        -COH_TERM_BOUND <= r.0 <= COH_TERM_BOUND,
        -COH_TERM_BOUND <= r.1 <= COH_TERM_BOUND,
{
    proof {
        lemma_tdiv_bound(px as int, k as int, COORD_LIMIT as int);
        lemma_tdiv_bound(py as int, k as int, COORD_LIMIT as int);
    }
    // The centroid stays within COORD_LIMIT; the squared distance to it is
    // under 8 * COORD_LIMIT^2, so after the division by SCALE the scaled
    // attraction t1 stays under 4e19 and every product below fits in i128.
    let cx = tdiv_i128(px, k as i128);
    let cy = tdiv_i128(py, k as i128);
    let dv = V2 { x: (cx as i64) - b.position.x, y: (cy as i64) - b.position.y };
    let u = normalize(&dv);
    let sval = norm_sq_i128(&dv);
    proof {
        lemma_mul_abs_bound(
            cfg.k_attr as int,
            sval as int,
            COORD_LIMIT as int,
            8 * (COORD_LIMIT as int) * (COORD_LIMIT as int),
        );
        lemma_tdiv_bound(
            cfg.k_attr as int * (sval as int),
            SCALE as int,
            40000000000000000000,
        );
    }
    let t1 = tdiv_i128((cfg.k_attr as i128) * sval, SCALE as i128);
    proof {
        lemma_mul_abs_bound(t1 as int, u.x as int, 40000000000000000000, SCALE as int);
        lemma_mul_abs_bound(t1 as int, u.y as int, 40000000000000000000, SCALE as int);
        lemma_tdiv_bound(t1 as int * (u.x as int), SCALE * SCALE, COH_TERM_BOUND as int);
        lemma_tdiv_bound(t1 as int * (u.y as int), SCALE * SCALE, COH_TERM_BOUND as int);
    }
    let tx = tdiv_i128(t1 * (u.x as i128), (SCALE as i128) * (SCALE as i128));
    let ty = tdiv_i128(t1 * (u.y as i128), (SCALE as i128) * (SCALE as i128));
    (tx, ty)
}

fn wall_force_exec(scale: i64, res: i64) -> (f: i128)
    requires
        -COORD_LIMIT <= scale <= COORD_LIMIT,
        -2 * COORD_LIMIT <= res <= 2 * COORD_LIMIT,
    ensures
        f as int == wall_force(scale as int, res as int),
        -WALL_TERM_BOUND <= f <= WALL_TERM_BOUND,
{
    if res == 0 {
        0
    } else {
        proof {
            lemma_mul_abs_bound(res as int, res as int, 2 * COORD_LIMIT as int, 2 * COORD_LIMIT as int);
            assert(res as int * (res as int) >= 1) by (nonlinear_arith)
                requires res as int != 0;
            lemma_tdiv_bound_div_ge_one(
                scale as int * (SCALE as int) * (SCALE as int),
                res as int * (res as int),
                WALL_TERM_BOUND as int,
            );
            lemma_mul_abs_bound(scale as int, SCALE as int, COORD_LIMIT as int, SCALE as int);
            lemma_mul_abs_bound(
                scale as int * (SCALE as int),
                SCALE as int,
                COORD_LIMIT as int * (SCALE as int),
                SCALE as int,
            );
        }
        let r2 = (res as i128) * (res as i128);
        tdiv_i128((scale as i128) * (SCALE as i128) * (SCALE as i128), r2)
    }
}

fn wall_sum_exec(b: &Boid, cfg: &Config) -> (r: (i128, i128))
    requires
        b.bounded(),
        cfg.valid(),
    ensures
        (r.0 as int, r.1 as int) == wall_sum(*b, *cfg),
        -2 * WALL_TERM_BOUND <= r.0 <= 2 * WALL_TERM_BOUND,
        -2 * WALL_TERM_BOUND <= r.1 <= 2 * WALL_TERM_BOUND,
{
    let fr = wall_force_exec(cfg.wall_force_scale, cfg.right_wall - b.position.x);
    let fl = wall_force_exec(cfg.wall_force_scale, cfg.left_wall - b.position.x);
    let ft = wall_force_exec(cfg.wall_force_scale, cfg.top_wall - b.position.y);
    let fb = wall_force_exec(cfg.wall_force_scale, cfg.bottom_wall - b.position.y);
    (fr - fl, ft - fb)
}

/// The candidate velocity of `b` over the snapshot, before the speed policy.
fn candidate_exec(boids: &Vec<Boid>, b: &Boid, cfg: &Config) -> (r: (i128, i128))
    requires
        all_bounded(boids@),
        boids@.len() <= MAX_BOIDS,
        b.bounded(),
        cfg.valid(),
    ensures
        (r.0 as int, r.1 as int) == candidate_velocity(boids@, *b, *cfg),
        -CAND_LIMIT <= r.0 <= CAND_LIMIT,
        -CAND_LIMIT <= r.1 <= CAND_LIMIT,
{
    let ghost s = boids@;
    let mut ax: i128 = 0;
    let mut ay: i128 = 0;
    let mut sx: i128 = 0;
    let mut sy: i128 = 0;
    let mut px: i128 = 0;
    let mut py: i128 = 0;
    let mut k: usize = 0;
    let mut j: usize = 0;
    while j < boids.len()
        invariant
            boids@ == s,
            all_bounded(s),
            s.len() <= MAX_BOIDS,
            b.bounded(),
            cfg.valid(),
            0 <= j <= s.len(),
            k <= j,
            ({
                let acc = flock_sums(s.take(j as int), *b, *cfg);
                &&& acc.0.0 == ax as int
                &&& acc.0.1 == ay as int
                &&& acc.1.0 == sx as int
                &&& acc.1.1 == sy as int
                &&& acc.2.0 == px as int
                &&& acc.2.1 == py as int
                &&& acc.3 == k as int
            }),
            -(j as int) * ALIGN_TERM_BOUND <= ax as int <= (j as int) * ALIGN_TERM_BOUND,
            -(j as int) * ALIGN_TERM_BOUND <= ay as int <= (j as int) * ALIGN_TERM_BOUND,
            -(j as int) * SEP_TERM_BOUND <= sx as int <= (j as int) * SEP_TERM_BOUND,
            -(j as int) * SEP_TERM_BOUND <= sy as int <= (j as int) * SEP_TERM_BOUND,
            -(k as int) * COORD_LIMIT <= px as int <= (k as int) * COORD_LIMIT,
            -(k as int) * COORD_LIMIT <= py as int <= (k as int) * COORD_LIMIT,
        decreases s.len() - j,
    {
        let o = boids[j];
        proof {
            assert(s[j as int].bounded());
            lemma_flock_sums_take_step(s, *b, *cfg, j as int);
        }
        if within_range(b, &o, cfg.vision_radius) {
            let at = align_term_exec(b, &o, cfg);
            let st = sep_term_exec(b, &o, cfg);
            ax = ax + at.0;
            ay = ay + at.1;
            sx = sx + st.0;
            sy = sy + st.1;
            px = px + (o.position.x as i128);
            py = py + (o.position.y as i128);
            k = k + 1;
        }
        j = j + 1;
    }
    proof {
        assert(s.take(s.len() as int) =~= s);
    }
    let coh = if k >= 1 {
        cohesion_exec(b, cfg, px, py, k)
    } else {
        (0i128, 0i128)
    };
    let w = wall_sum_exec(b, cfg);
    let cx = (b.velocity.x as i128) + ax + sx + coh.0 - w.0;
    let cy = (b.velocity.y as i128) + ay + sy + coh.1 - w.1;
    (cx, cy)
}

fn rescale_exec(cx: i128, cy: i128, m: i64) -> (r: V2)
    requires
        1 <= m <= COORD_LIMIT,
        -CAND_LIMIT <= cx <= CAND_LIMIT,
        -CAND_LIMIT <= cy <= CAND_LIMIT,
    ensures
        r@ == rescale((cx as int, cy as int), m as int),
        -m <= r.x <= m,
        -m <= r.y <= m,
{
    if cx == 0 && cy == 0 {
        V2 { x: 0, y: 0 }
    } else {
        proof {
            lemma_mul_abs_bound(cx as int, cx as int, CAND_LIMIT as int, CAND_LIMIT as int);
            lemma_mul_abs_bound(cy as int, cy as int, CAND_LIMIT as int, CAND_LIMIT as int);
            assert(cx as int * cx as int >= 0 && cy as int * cy as int >= 0) by (nonlinear_arith);
        }
        let nsq: i128 = cx * cx + cy * cy;
        let n = ceil_isqrt_i128(nsq);
        proof {
            assert(cx as int * cx as int <= nsq as int && cy as int * cy as int <= nsq as int);
            lemma_abs_le_ceil_sqrt(cx as int, nsq as int);
            lemma_abs_le_ceil_sqrt(cy as int, nsq as int);
            crate::geom::lemma_vnorm_sq_nonneg((cx as int, cy as int));
            crate::num::lemma_ceil_sqrt_pos(nsq as int);
            lemma_mul_abs_bound(cx as int, m as int, n as int, m as int);
            lemma_mul_abs_bound(cy as int, m as int, n as int, m as int);
            lemma_mul_abs_bound(cx as int, m as int, CAND_LIMIT as int, COORD_LIMIT as int);
            lemma_mul_abs_bound(cy as int, m as int, CAND_LIMIT as int, COORD_LIMIT as int);
            lemma_tdiv_bound(cx as int * (m as int), n as int, m as int);
            lemma_tdiv_bound(cy as int * (m as int), n as int, m as int);
        }
        let rx = tdiv_i128(cx * (m as i128), n);
        let ry = tdiv_i128(cy * (m as i128), n);
        V2 { x: rx as i64, y: ry as i64 }
    }
}

/// Applies the configured speed policy to a candidate velocity.
fn limit_speed(cx: i128, cy: i128, cfg: &Config) -> (r: V2)
    requires
        cfg.valid(),
        -CAND_LIMIT <= cx <= CAND_LIMIT,
        -CAND_LIMIT <= cy <= CAND_LIMIT,
    ensures
        r@ == apply_speed_policy((cx as int, cy as int), *cfg),
        bounded_pair(r@),
{
    let m = cfg.max_speed;
    if m <= 0 {
        return V2 { x: 0, y: 0 };
    }
    let constant = match cfg.speed_policy {
        SpeedPolicy::Constant => true,
        SpeedPolicy::Range => false,
    };
    if constant {
        rescale_exec(cx, cy, m)
    } else {
        proof {
            lemma_mul_abs_bound(cx as int, cx as int, CAND_LIMIT as int, CAND_LIMIT as int);
            lemma_mul_abs_bound(cy as int, cy as int, CAND_LIMIT as int, CAND_LIMIT as int);
            assert(cx as int * cx as int >= 0 && cy as int * cy as int >= 0) by (nonlinear_arith);
        }
        let nsq: i128 = cx * cx + cy * cy;
        proof {
            lemma_mul_abs_bound(m as int, m as int, COORD_LIMIT as int, COORD_LIMIT as int);
        }
        if nsq <= (m as i128) * (m as i128) {
            proof {
                assert(cx as int * cx as int <= m as int * (m as int)
                    && cy as int * cy as int <= m as int * (m as int));
                lemma_abs_le_of_sq_le(cx as int, m as int);
                lemma_abs_le_of_sq_le(cy as int, m as int);
            }
            V2 { x: cx as i64, y: cy as i64 }
        } else {
            rescale_exec(cx, cy, m)
        }
    }
}

/// The committed next velocity of one boid: its candidate velocity under the
/// configured speed policy, computed from the immutable snapshot `boids`.
pub fn compute_velocity(boids: &Vec<Boid>, b: &Boid, cfg: &Config) -> (r: V2)
    requires
        all_bounded(boids@),
        boids@.len() <= MAX_BOIDS,
        b.bounded(),
        cfg.valid(),
    ensures
        r@ == new_velocity(boids@, *b, *cfg),
        bounded_pair(r@),
{
    let c = candidate_exec(boids, b, cfg);
    limit_speed(c.0, c.1, cfg)
}

/// The sequence of indices of the in-range neighbors of `b`, scanning the
/// first `n` boids of `s` in order.
pub open spec fn neighbors_upto(s: Seq<Boid>, b: Boid, radius: int, n: int) -> Seq<usize>
    decreases n,
{
    if n <= 0 {
        Seq::empty()
    } else if in_range(b, s[n - 1], radius) {
        neighbors_upto(s, b, radius, n - 1).push((n - 1) as usize)
    } else {
        neighbors_upto(s, b, radius, n - 1)
    }
}

/// The neighbor-scan capability: all indices of boids within the vision
/// radius of the query boid, in ascending order (the query boid itself is
/// excluded by the zero-distance rule). Brute force over the population.
pub fn neighbor_indices(boids: &Vec<Boid>, query: &Boid, radius: i64) -> (r: Vec<usize>)
    requires
        all_bounded(boids@),
        query.bounded(),
    ensures
        r@ == neighbors_upto(boids@, *query, radius as int, boids@.len() as int),
{
    let mut r: Vec<usize> = Vec::new();
    let mut j: usize = 0;
    while j < boids.len()
        invariant
            all_bounded(boids@),
            query.bounded(),
            0 <= j <= boids@.len(),
            r@ == neighbors_upto(boids@, *query, radius as int, j as int),
        decreases boids@.len() - j,
    {
        let o = boids[j];
        proof {
            assert(boids@[j as int].bounded());
        }
        if within_range(query, &o, radius) {
            r.push(j);
        }
        j = j + 1;
    }
    r
}

/// The read phase of one tick: every boid's new velocity, computed from one
/// immutable snapshot of the previous state and committed all at once, so no
/// freshly written velocity is read within the same tick.
pub fn boid_logic(boids: &Vec<Boid>, cfg: &Config) -> (r: Vec<Boid>)
    requires
        all_bounded(boids@),
        boids@.len() <= MAX_BOIDS,
        cfg.valid(),
    ensures
        r@.len() == boids@.len(),
        forall|i: int| #![trigger r@[i]] 0 <= i < boids@.len() ==> {
            &&& r@[i].position == boids@[i].position
            &&& r@[i].velocity@ == new_velocity(boids@, boids@[i], *cfg)
        },
        all_bounded(r@),
{
    let mut r: Vec<Boid> = Vec::new();
    let mut j: usize = 0;
    while j < boids.len()
        invariant
            all_bounded(boids@),
            boids@.len() <= MAX_BOIDS,
            cfg.valid(),
            0 <= j <= boids@.len(),
            r@.len() == j,
            forall|i: int| #![trigger r@[i]] 0 <= i < j ==> {
                &&& r@[i].position == boids@[i].position
                &&& r@[i].velocity@ == new_velocity(boids@, boids@[i], *cfg)
                &&& r@[i].bounded()
            },
        decreases boids@.len() - j,
    {
        let b = boids[j];
        proof {
            assert(boids@[j as int].bounded());
        }
        let v = compute_velocity(boids, &b, cfg);
        r.push(Boid { position: b.position, velocity: v });
        j = j + 1;
    }
    r
}

} // verus!
