//! The boundary model: the four arena walls, axis-aligned overlap detection
//! with contact-side classification, and the two response policies.

use crate::config::{CollisionPolicy, Config};
use crate::geom::{bounded_pair, Boid, V2, COORD_LIMIT};
use crate::num::{tdiv, tdiv_i128};
use vstd::math::abs;
use vstd::prelude::*;

verus! {

/// Largest magnitude a position coordinate can reach inside a tick: a bounded
/// coordinate moved once by a bounded velocity over a bounded duration.
pub const POS_LIMIT: i64 = 300000000000000;

/// Which side of the arena a wall closes.
#[derive(Clone, Copy, PartialEq, Eq, Structural, Debug)]
pub enum WallLocation {
    Left,
    Right,
    Bottom,
    Top,
}

/// How a detected overlap is classified: the side of the wall the boid sits
/// on (along the axis of least penetration), or `Inside` when the penetration
/// depths tie and no single side can be named.
#[derive(Clone, Copy, PartialEq, Eq, Structural, Debug)]
pub enum Side {
    Left,
    Right,
    Top,
    Bottom,
    Inside,
}

/// Center of a wall's rectangle: on its wall line, at the arena's midpoint
/// along the other axis.
pub open spec fn spec_wall_position(loc: WallLocation, cfg: Config) -> (int, int) {
    let cx = tdiv(cfg.left_wall + cfg.right_wall, 2);
    let cy = tdiv(cfg.bottom_wall + cfg.top_wall, 2);
    match loc {
        WallLocation::Left => (cfg.left_wall as int, cy),
        WallLocation::Right => (cfg.right_wall as int, cy),
        WallLocation::Bottom => (cx, cfg.bottom_wall as int),
        WallLocation::Top => (cx, cfg.top_wall as int),
    }
}

/// Full extent of a wall's rectangle: the wall thickness across, and the
/// arena side length plus one thickness along (so the four walls close the
/// corners).
pub open spec fn spec_wall_size(loc: WallLocation, cfg: Config) -> (int, int) {
    let w = cfg.right_wall - cfg.left_wall;
    let h = cfg.top_wall - cfg.bottom_wall;
    match loc {
        WallLocation::Left | WallLocation::Right => (
            cfg.wall_thickness as int,
            h + cfg.wall_thickness,
        ),
        WallLocation::Bottom | WallLocation::Top => (
            w + cfg.wall_thickness,
            cfg.wall_thickness as int,
        ),
    }
}

impl WallLocation {
    /// Where this wall's rectangle is centered.
    pub fn position(&self, cfg: &Config) -> (r: V2)
        requires
            cfg.valid(),
        ensures
            r@ == spec_wall_position(*self, *cfg),
            bounded_pair(r@),
    {
        let cx = tdiv_i128((cfg.left_wall as i128) + (cfg.right_wall as i128), 2) as i64;
        let cy = tdiv_i128((cfg.bottom_wall as i128) + (cfg.top_wall as i128), 2) as i64;
        proof {
            crate::num::lemma_tdiv_bound(
                cfg.left_wall as int + cfg.right_wall as int,
                2,
                COORD_LIMIT as int,
            );
            crate::num::lemma_tdiv_bound(
                cfg.bottom_wall as int + cfg.top_wall as int,
                2,
                COORD_LIMIT as int,
            );
        }
        match self {
            WallLocation::Left => V2 { x: cfg.left_wall, y: cy },
            WallLocation::Right => V2 { x: cfg.right_wall, y: cy },
            WallLocation::Bottom => V2 { x: cx, y: cfg.bottom_wall },
            WallLocation::Top => V2 { x: cx, y: cfg.top_wall },
        }
    }

    /// The full extent of this wall's rectangle.
    pub fn size(&self, cfg: &Config) -> (r: V2)
        requires
            cfg.valid(),
        ensures
            r@ == spec_wall_size(*self, *cfg),
            1 <= r.x <= 3 * COORD_LIMIT,
            1 <= r.y <= 3 * COORD_LIMIT,
    {
        let w = cfg.right_wall - cfg.left_wall;
        let h = cfg.top_wall - cfg.bottom_wall;
        match self {
            WallLocation::Left | WallLocation::Right => V2 {
                x: cfg.wall_thickness,
                y: h + cfg.wall_thickness,
            },
            WallLocation::Bottom | WallLocation::Top => V2 {
                x: w + cfg.wall_thickness,
                y: cfg.wall_thickness,
            },
        }
    }
}

/// Classify the overlap of two axis-aligned boxes whose centers differ by
/// `(dx, dy)` and whose half extents sum to `(hx, hy)`: `None` when they do
/// not strictly overlap, otherwise the side of the second box the first sits
/// on, decided by the axis of smaller penetration; equal penetrations give
/// `Side::Inside`.
pub open spec fn classify(dx: int, dy: int, hx: int, hy: int) -> Option<Side> {
    if abs(dx) < hx && abs(dy) < hy {
        let xpen = hx - abs(dx);
        let ypen = hy - abs(dy);
        if xpen < ypen {
            Some(if dx < 0 { Side::Left } else { Side::Right })
        } else if ypen < xpen {
            Some(if dy < 0 { Side::Bottom } else { Side::Top })
        } else {
            Some(Side::Inside)
        }
    } else {
        None
    }
}

/// The reflect response: invert the velocity component perpendicular to the
/// contacted side, but only when it currently points into the wall; the
/// parallel component is untouched, and `Inside` contacts change nothing.
pub open spec fn reflect_velocity(v: (int, int), side: Side) -> (int, int) {
    match side {
        Side::Left => if v.0 > 0 { (-v.0, v.1) } else { v },
        Side::Right => if v.0 < 0 { (-v.0, v.1) } else { v },
        Side::Bottom => if v.1 > 0 { (v.0, -v.1) } else { v },
        Side::Top => if v.1 < 0 { (v.0, -v.1) } else { v },
        Side::Inside => v,
    }
}

/// The clamp response: snap the coordinate perpendicular to the contacted
/// side to one wall thickness inside the wall line (half thickness for the
/// wall's own extent, half as margin); `Inside` contacts change nothing.
pub open spec fn clamp_position(p: (int, int), side: Side, loc: WallLocation, cfg: Config) -> (
    int,
    int,
) {
    let w = spec_wall_position(loc, cfg);
    match side {
        Side::Left => (w.0 - cfg.wall_thickness, p.1),
        Side::Right => (w.0 + cfg.wall_thickness, p.1),
        Side::Bottom => (p.0, w.1 - cfg.wall_thickness),
        Side::Top => (p.0, w.1 + cfg.wall_thickness),
        Side::Inside => p,
    }
}

/// The classification of a boid centered at `p` against one wall: `None`
/// when their boxes do not overlap, otherwise the contact side.
pub open spec fn contact_side(p: (int, int), loc: WallLocation, cfg: Config) -> Option<Side> {
    let w = spec_wall_position(loc, cfg);
    let sz = spec_wall_size(loc, cfg);
    let hx = tdiv(cfg.boid_size as int, 2) + tdiv(sz.0, 2);
    let hy = tdiv(cfg.boid_size as int, 2) + tdiv(sz.1, 2);
    classify(p.0 - w.0, p.1 - w.1, hx, hy)
}

/// One boid against one wall: detection, classification, and the configured
/// response. Returns the new position, the new velocity, and whether a
/// contact was detected (of any classification, `Inside` included).
pub open spec fn boundary_one_spec(p: (int, int), v: (int, int), loc: WallLocation, cfg: Config) -> (
    (int, int),
    (int, int),
    bool,
) {
    match contact_side(p, loc, cfg) {
        Some(side) => match cfg.collision_policy {
            CollisionPolicy::Reflect => (p, reflect_velocity(v, side), true),
            CollisionPolicy::Clamp => (clamp_position(p, side, loc, cfg), v, true),
        },
        None => (p, v, false),
    }
}

/// One boid against all four walls, tested in the fixed order Left, Right,
/// Bottom, Top, each test seeing the corrections of the previous ones.
/// The third component counts the detected contacts (0 to 4).
pub open spec fn boundary_all(p: (int, int), v: (int, int), cfg: Config) -> (
    (int, int),
    (int, int),
    int,
) {
    let r1 = boundary_one_spec(p, v, WallLocation::Left, cfg);
    let r2 = boundary_one_spec(r1.0, r1.1, WallLocation::Right, cfg);
    let r3 = boundary_one_spec(r2.0, r2.1, WallLocation::Bottom, cfg);
    let r4 = boundary_one_spec(r3.0, r3.1, WallLocation::Top, cfg);
    (r4.0, r4.1,
     (if r1.2 { 1int } else { 0int }) + (if r2.2 { 1int } else { 0int })
        + (if r3.2 { 1int } else { 0int }) + (if r4.2 { 1int } else { 0int }))
}

/// A position that stayed within one tick's reach of the bounded state.
pub open spec fn pos_bounded(p: (int, int)) -> bool {
    &&& -POS_LIMIT <= p.0 <= POS_LIMIT
    &&& -POS_LIMIT <= p.1 <= POS_LIMIT
}

fn half_of(a: i64) -> (r: i64)
    requires
        -COORD_LIMIT <= a,
        a <= 4 * COORD_LIMIT,
    ensures
        r == tdiv(a as int, 2),
        -COORD_LIMIT <= r <= 2 * COORD_LIMIT,
{
    proof {
        crate::num::lemma_tdiv_bound_div_ge_one(a as int, 2, 4 * COORD_LIMIT as int);
        crate::num::lemma_tdiv_bound(a as int, 2, 2 * COORD_LIMIT as int);
    }
    tdiv_i128(a as i128, 2) as i64
}

/// One boid against one wall, applying the configured response in place.
pub fn boundary_one(b: &mut Boid, loc: WallLocation, cfg: &Config) -> (hit: bool)
    requires
        cfg.valid(),
        pos_bounded(old(b).position@),
        bounded_pair(old(b).velocity@),
    ensures
        ({
            let r = boundary_one_spec(old(b).position@, old(b).velocity@, loc, *cfg);
            &&& final(b).position@ == r.0
            &&& final(b).velocity@ == r.1
            &&& hit == r.2
        }),
        pos_bounded(final(b).position@),
        bounded_pair(final(b).velocity@),
{
    let w = loc.position(cfg);
    let sz = loc.size(cfg);
    let hx = half_of(cfg.boid_size) + half_of(sz.x);
    let hy = half_of(cfg.boid_size) + half_of(sz.y);
    let dx = b.position.x - w.x;
    let dy = b.position.y - w.y;
    let adx = if dx < 0 { -dx } else { dx };
    let ady = if dy < 0 { -dy } else { dy };
    if !(adx < hx && ady < hy) {
        return false;
    }
    let xpen = hx - adx;
    let ypen = hy - ady;
    let side = if xpen < ypen {
        if dx < 0 { Side::Left } else { Side::Right }
    } else if ypen < xpen {
        if dy < 0 { Side::Bottom } else { Side::Top }
    } else {
        Side::Inside
    };
    let clamp = match cfg.collision_policy {
        CollisionPolicy::Clamp => true,
        CollisionPolicy::Reflect => false,
    };
    if clamp {
        match side {
            Side::Left => { b.position.x = w.x - cfg.wall_thickness; },
            Side::Right => { b.position.x = w.x + cfg.wall_thickness; },
            Side::Bottom => { b.position.y = w.y - cfg.wall_thickness; },
            Side::Top => { b.position.y = w.y + cfg.wall_thickness; },
            Side::Inside => {},
        }
    } else {
        match side {
            Side::Left => { if b.velocity.x > 0 { b.velocity.x = -b.velocity.x; } },
            Side::Right => { if b.velocity.x < 0 { b.velocity.x = -b.velocity.x; } },
            Side::Bottom => { if b.velocity.y > 0 { b.velocity.y = -b.velocity.y; } },
            Side::Top => { if b.velocity.y < 0 { b.velocity.y = -b.velocity.y; } },
            Side::Inside => {},
        }
    }
    true
}

/// One boid against all four walls in the fixed order, counting contacts.
pub fn boundary_walls(b: &mut Boid, cfg: &Config) -> (hits: usize)
    requires
        cfg.valid(),
        pos_bounded(old(b).position@),
        bounded_pair(old(b).velocity@),
    ensures
        ({
            let r = boundary_all(old(b).position@, old(b).velocity@, *cfg);
            &&& final(b).position@ == r.0
            &&& final(b).velocity@ == r.1
            &&& hits as int == r.2
        }),
        pos_bounded(final(b).position@),
        bounded_pair(final(b).velocity@),
{
    let mut hits: usize = 0;
    if boundary_one(b, WallLocation::Left, cfg) {
        hits = hits + 1;
    }
    if boundary_one(b, WallLocation::Right, cfg) {
        hits = hits + 1;
    }
    if boundary_one(b, WallLocation::Bottom, cfg) {
        hits = hits + 1;
    }
    if boundary_one(b, WallLocation::Top, cfg) {
        hits = hits + 1;
    }
    hits
}

} // verus!
