//! Tick orchestration: one tick computes every boid's new velocity from the
//! previous snapshot (read phase), integrates positions, then resolves wall
//! contacts — in that fixed order for the whole run.

use crate::boundary::{boundary_all, boundary_walls, pos_bounded};
use crate::config::{Config, MAX_BOIDS};
use crate::flocking::{boid_logic, new_velocity};
use crate::geom::{all_bounded, bounded_pair, Boid, V2, COORD_LIMIT};
use crate::num::{lemma_mul_abs_bound, lemma_tdiv_bound_div_ge_one, tdiv, tdiv_i128, SCALE};
use vstd::prelude::*;

verus! {

/// A position advanced by one tick: `p + v * tick_dt`, axis-wise, in fixed
/// point (the product is divided back by `SCALE`).
pub open spec fn integrate_pos(p: (int, int), v: (int, int), cfg: Config) -> (int, int) {
    (p.0 + tdiv(v.0 * cfg.tick_dt, SCALE as int), p.1 + tdiv(v.1 * cfg.tick_dt, SCALE as int))
}

/// The integration step: every boid's position advances by its velocity
/// times the tick duration, whether or not it had a contact this tick.
pub fn apply_velocity(boids: &mut Vec<Boid>, cfg: &Config)
    requires
        all_bounded(old(boids)@),
        cfg.valid(),
    ensures
        final(boids)@.len() == old(boids)@.len(),
        forall|i: int| #![trigger final(boids)@[i]] 0 <= i < old(boids)@.len() ==> {
            &&& final(boids)@[i].velocity == old(boids)@[i].velocity
            &&& final(boids)@[i].position@ == integrate_pos(
                old(boids)@[i].position@,
                old(boids)@[i].velocity@,
                *cfg,
            )
            &&& pos_bounded(final(boids)@[i].position@)
            &&& bounded_pair(final(boids)@[i].velocity@)
        },
{
    let ghost s = old(boids)@;
    let mut j: usize = 0;
    while j < boids.len()
        invariant
            cfg.valid(),
            all_bounded(s),
            boids@.len() == s.len(),
            0 <= j <= s.len(),
            forall|i: int| j <= i < s.len() ==> boids@[i] == s[i],
            forall|i: int| #![trigger boids@[i]] 0 <= i < j ==> {
                &&& boids@[i].velocity == s[i].velocity
                &&& boids@[i].position@ == integrate_pos(s[i].position@, s[i].velocity@, *cfg)
                &&& pos_bounded(boids@[i].position@)
                &&& bounded_pair(boids@[i].velocity@)
            },
        decreases s.len() - j,
    {
        let b = boids[j];
        proof {
            assert(s[j as int].bounded());
            lemma_mul_abs_bound(
                b.velocity.x as int,
                cfg.tick_dt as int,
                COORD_LIMIT as int,
                COORD_LIMIT as int,
            );
            lemma_mul_abs_bound(
                b.velocity.y as int,
                cfg.tick_dt as int,
                COORD_LIMIT as int,
                COORD_LIMIT as int,
            );
            lemma_tdiv_bound_div_ge_one(
                b.velocity.x as int * (cfg.tick_dt as int),
                SCALE as int,
                COORD_LIMIT as int * (COORD_LIMIT as int),
            );
            lemma_tdiv_bound_div_ge_one(
                b.velocity.y as int * (cfg.tick_dt as int),
                SCALE as int,
                COORD_LIMIT as int * (COORD_LIMIT as int),
            );
        }
        let dx = tdiv_i128((b.velocity.x as i128) * (cfg.tick_dt as i128), SCALE as i128) as i64;
        let dy = tdiv_i128((b.velocity.y as i128) * (cfg.tick_dt as i128), SCALE as i128) as i64;
        let np = V2 { x: b.position.x + dx, y: b.position.y + dy };
        boids[j] = Boid { position: np, velocity: b.velocity };
        j = j + 1;
    }
}

/// The contacts of one boid against the four walls this tick (0 to 4).
pub open spec fn wall_contacts(b: Boid, cfg: Config) -> int {
    boundary_all(b.position@, b.velocity@, cfg).2
}

/// Total contacts of the first `n` boids of `s`.
pub open spec fn total_contacts(s: Seq<Boid>, cfg: Config, n: int) -> int
    decreases n,
{
    if n <= 0 {
        0
    } else {
        total_contacts(s, cfg, n - 1) + wall_contacts(s[n - 1], cfg)
    }
}

/// The boundary pass: every boid is tested against the four walls and the
/// configured response applied; returns how many contacts were detected
/// (one per boid-wall overlap, the payload-free contact notifications).
pub fn check_for_collisions(boids: &mut Vec<Boid>, cfg: &Config) -> (hits: usize)
    requires
        cfg.valid(),
        old(boids)@.len() <= MAX_BOIDS,
        forall|i: int| #![trigger old(boids)@[i]] 0 <= i < old(boids)@.len() ==> {
            &&& pos_bounded(old(boids)@[i].position@)
            &&& bounded_pair(old(boids)@[i].velocity@)
        },
    ensures
        final(boids)@.len() == old(boids)@.len(),
        forall|i: int| #![trigger final(boids)@[i]] 0 <= i < old(boids)@.len() ==> {
            let r = boundary_all(old(boids)@[i].position@, old(boids)@[i].velocity@, *cfg);
            &&& final(boids)@[i].position@ == r.0
            &&& final(boids)@[i].velocity@ == r.1
        },
        hits as int == total_contacts(old(boids)@, *cfg, old(boids)@.len() as int),
{
    let ghost s = old(boids)@;
    let mut hits: usize = 0;
    let mut j: usize = 0;
    while j < boids.len()
        invariant
            cfg.valid(),
            s.len() <= MAX_BOIDS,
            boids@.len() == s.len(),
            0 <= j <= s.len(),
            hits <= 4 * j,
            hits as int == total_contacts(s, *cfg, j as int),
            forall|i: int| #![trigger s[i]] 0 <= i < s.len() ==> {
                &&& pos_bounded(s[i].position@)
                &&& bounded_pair(s[i].velocity@)
            },
            forall|i: int| j <= i < s.len() ==> boids@[i] == s[i],
            forall|i: int| #![trigger boids@[i]] 0 <= i < j ==> {
                let r = boundary_all(s[i].position@, s[i].velocity@, *cfg);
                &&& boids@[i].position@ == r.0
                &&& boids@[i].velocity@ == r.1
            },
        decreases s.len() - j,
    {
        let mut b = boids[j];
        proof {
            assert(boids@[j as int] == s[j as int]);
            assert(pos_bounded(s[j as int].position@) && bounded_pair(s[j as int].velocity@));
        }
        let h = boundary_walls(&mut b, cfg);
        boids[j] = b;
        proof {
            assert(boundary_all(s[j as int].position@, s[j as int].velocity@, *cfg).2 <= 4);
            assert(total_contacts(s, *cfg, j + 1)
                == total_contacts(s, *cfg, j as int) + wall_contacts(s[j as int], *cfg));
        }
        hits = hits + h;
        j = j + 1;
    }
    hits
}

/// The full state of one boid after one tick: new velocity from the read
/// phase, position integrated, wall contacts resolved. The third component
/// is that boid's contact count.
pub open spec fn next_boid(s: Seq<Boid>, cfg: Config, i: int) -> ((int, int), (int, int), int) {
    let nv = new_velocity(s, s[i], cfg);
    let p1 = integrate_pos(s[i].position@, nv, cfg);
    boundary_all(p1, nv, cfg)
}

/// Total contacts of one whole tick over the first `n` boids.
pub open spec fn tick_contacts(s: Seq<Boid>, cfg: Config, n: int) -> int
    decreases n,
{
    if n <= 0 {
        0
    } else {
        tick_contacts(s, cfg, n - 1) + next_boid(s, cfg, n - 1).2
    }
}

proof fn lemma_contacts_agree(s: Seq<Boid>, mid: Seq<Boid>, cfg: Config, n: int)
    requires
        0 <= n <= s.len(),
        mid.len() == s.len(),
        forall|i: int| #![trigger mid[i]] 0 <= i < s.len() ==> {
            &&& mid[i].velocity@ == new_velocity(s, s[i], cfg)
            &&& mid[i].position@ == integrate_pos(s[i].position@, new_velocity(s, s[i], cfg), cfg)
        },
    ensures
        total_contacts(mid, cfg, n) == tick_contacts(s, cfg, n),
    decreases n,
{
    if n > 0 {
        lemma_contacts_agree(s, mid, cfg, n - 1);
    }
}

/// One whole tick as a pure transformation: `(boids, config)` to
/// `(next boids, contact count)`. The input snapshot is never mutated; the
/// order within the tick is fixed for the run: read phase (all new velocities
/// from the snapshot), integration, then boundary response.
pub fn tick(boids: &Vec<Boid>, cfg: &Config) -> (r: (Vec<Boid>, usize))
    requires
        all_bounded(boids@),
        boids@.len() <= MAX_BOIDS,
        cfg.valid(),
    ensures
        r.0@.len() == boids@.len(),
        forall|i: int| #![trigger r.0@[i]] 0 <= i < boids@.len() ==> {
            let nb = next_boid(boids@, *cfg, i);
            &&& r.0@[i].position@ == nb.0
            &&& r.0@[i].velocity@ == nb.1
        },
        r.1 as int == tick_contacts(boids@, *cfg, boids@.len() as int),
{
    let mut out = boid_logic(boids, cfg);
    apply_velocity(&mut out, cfg);
    let ghost mid = out@;
    let hits = check_for_collisions(&mut out, cfg);
    proof {
        lemma_contacts_agree(boids@, mid, *cfg, boids@.len() as int);
    }
    (out, hits)
}

} // verus!
