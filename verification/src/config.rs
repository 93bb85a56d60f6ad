//! Per-run simulation parameters, validated once at construction.

use crate::geom::COORD_LIMIT;
use vstd::prelude::*;

verus! {

/// Largest population the core accepts in one tick; together with
/// `COORD_LIMIT` this keeps every force accumulator inside `i128`.
pub const MAX_BOIDS: usize = 16384;

/// How the speed of a freshly computed velocity is constrained.
#[derive(Clone, Copy, PartialEq, Eq, Structural, Debug)]
pub enum SpeedPolicy {
    /// Clamp the speed into `[0, max_speed]`, preserving direction; boids may
    /// slow down or stop.
    Range,
    /// Rescale to exactly `max_speed` in the current direction; boids only
    /// ever change heading.
    Constant,
}

/// How a wall contact is resolved.
#[derive(Clone, Copy, PartialEq, Eq, Structural, Debug)]
pub enum CollisionPolicy {
    /// Invert the velocity component that points into the wall; leave the
    /// position alone.
    Reflect,
    /// Snap the position to just inside the wall; leave the velocity alone.
    Clamp,
}

/// Why a configuration was rejected.
#[derive(Clone, Copy, PartialEq, Eq, Structural, Debug)]
pub enum ConfigError {
    /// Some parameter exceeds `COORD_LIMIT` in magnitude.
    Magnitude,
    /// The arena bounds are empty or inverted.
    ArenaBounds,
    /// A wall with non-positive thickness.
    WallThickness,
    /// A boid with negative bounding size.
    BoidSize,
}

/// Immutable per-run parameters. All lengths, speeds and gains are
/// fixed-point integers (counts of `1/SCALE` world units).
#[derive(Clone, Copy, PartialEq, Eq, Structural, Debug)]
pub struct Config {
    /// A boid sees another iff their distance is strictly between 0 and this.
    pub vision_radius: i64,
    /// Gain of the alignment steering term.
    pub k_align: i64,
    /// Gain of the separation (inverse-square repulsion) term.
    pub k_space: i64,
    /// Gain of the cohesion (centroid-seeking) term.
    pub k_attr: i64,
    /// Gain of the wall-softening force; zero makes the term inert.
    pub wall_force_scale: i64,
    /// Speed bound used by the speed policy.
    pub max_speed: i64,
    pub speed_policy: SpeedPolicy,
    pub collision_policy: CollisionPolicy,
    /// Fixed tick duration.
    pub tick_dt: i64,
    /// x coordinate of the left wall line.
    pub left_wall: i64,
    /// x coordinate of the right wall line.
    pub right_wall: i64,
    /// y coordinate of the bottom wall line.
    pub bottom_wall: i64,
    /// y coordinate of the top wall line.
    pub top_wall: i64,
    /// Thickness of each of the four walls.
    pub wall_thickness: i64,
    /// Side length of a boid's square bounding box.
    pub boid_size: i64,
}

pub open spec fn in_limit(v: int) -> bool {
    -COORD_LIMIT <= v <= COORD_LIMIT
}

impl Config {
    /// Every numeric parameter is within the machine magnitude limit.
    pub open spec fn magnitudes_ok(self) -> bool {
        &&& in_limit(self.vision_radius as int)
        &&& in_limit(self.k_align as int)
        &&& in_limit(self.k_space as int)
        &&& in_limit(self.k_attr as int)
        &&& in_limit(self.wall_force_scale as int)
        &&& in_limit(self.max_speed as int)
        &&& in_limit(self.tick_dt as int)
        &&& in_limit(self.left_wall as int)
        &&& in_limit(self.right_wall as int)
        &&& in_limit(self.bottom_wall as int)
        &&& in_limit(self.top_wall as int)
        &&& in_limit(self.wall_thickness as int)
        &&& in_limit(self.boid_size as int)
    }

    /// The arena rectangle is non-empty.
    pub open spec fn arena_ok(self) -> bool {
        self.left_wall < self.right_wall && self.bottom_wall < self.top_wall
    }

    /// Walls have positive thickness and boids a nonnegative bounding size.
    pub open spec fn sizes_ok(self) -> bool {
        self.wall_thickness >= 1 && self.boid_size >= 0
    }

    /// A configuration the core accepts. Degenerate dynamics (vision radius
    /// or max speed of zero or below) are allowed and yield trivial ticks;
    /// only malformed static geometry is ruled out.
    pub open spec fn valid(self) -> bool {
        self.magnitudes_ok() && self.arena_ok() && self.sizes_ok()
    }

    fn check(self) -> (r: Result<Config, ConfigError>)
        ensures
            r == (if !self.magnitudes_ok() {
                Err::<Config, ConfigError>(ConfigError::Magnitude)
            } else if !self.arena_ok() {
                Err::<Config, ConfigError>(ConfigError::ArenaBounds)
            } else if self.wall_thickness < 1 {
                Err::<Config, ConfigError>(ConfigError::WallThickness)
            } else if self.boid_size < 0 {
                Err::<Config, ConfigError>(ConfigError::BoidSize)
            } else {
                Ok::<Config, ConfigError>(self)
            }),
            r is Ok ==> r->Ok_0 == self && self.valid(),
    {
        let ok = {
            let a = in_limit_exec(self.vision_radius) && in_limit_exec(self.k_align)
                && in_limit_exec(self.k_space) && in_limit_exec(self.k_attr)
                && in_limit_exec(self.wall_force_scale) && in_limit_exec(self.max_speed)
                && in_limit_exec(self.tick_dt);
            let b = in_limit_exec(self.left_wall) && in_limit_exec(self.right_wall)
                && in_limit_exec(self.bottom_wall) && in_limit_exec(self.top_wall)
                && in_limit_exec(self.wall_thickness) && in_limit_exec(self.boid_size);
            a && b
        };
        if !ok {
            Err(ConfigError::Magnitude)
        } else if !(self.left_wall < self.right_wall && self.bottom_wall < self.top_wall) {
            Err(ConfigError::ArenaBounds)
        } else if self.wall_thickness < 1 {
            Err(ConfigError::WallThickness)
        } else if self.boid_size < 0 {
            Err(ConfigError::BoidSize)
        } else {
            Ok(self)
        }
    }

    /// Validate a configuration: rejects malformed static geometry and
    /// out-of-limit magnitudes, and accepts everything else.
    pub fn new(
        vision_radius: i64,
        k_align: i64,
        k_space: i64,
        k_attr: i64,
        wall_force_scale: i64,
        max_speed: i64,
        speed_policy: SpeedPolicy,
        collision_policy: CollisionPolicy,
        tick_dt: i64,
        left_wall: i64,
        right_wall: i64,
        bottom_wall: i64,
        top_wall: i64,
        wall_thickness: i64,
        boid_size: i64,
    ) -> (r: Result<Config, ConfigError>)
        ensures
            ({
                let c = (Config {
                    vision_radius,
                    k_align,
                    k_space,
                    k_attr,
                    wall_force_scale,
                    max_speed,
                    speed_policy,
                    collision_policy,
                    tick_dt,
                    left_wall,
                    right_wall,
                    bottom_wall,
                    top_wall,
                    wall_thickness,
                    boid_size,
                });
                &&& (r is Ok <==> c.valid())
                &&& (r is Ok ==> r->Ok_0 == c)
                &&& (r == Err::<Config, ConfigError>(ConfigError::Magnitude) <==> !c.magnitudes_ok())
                &&& (r == Err::<Config, ConfigError>(ConfigError::ArenaBounds) <==> c.magnitudes_ok()
                    && !c.arena_ok())
                &&& (r == Err::<Config, ConfigError>(ConfigError::WallThickness) <==> c.magnitudes_ok()
                    && c.arena_ok() && wall_thickness < 1)
                &&& (r == Err::<Config, ConfigError>(ConfigError::BoidSize) <==> c.magnitudes_ok()
                    && c.arena_ok() && wall_thickness >= 1 && boid_size < 0)
            }),
    {
        let c = Config {
            vision_radius,
            k_align,
            k_space,
            k_attr,
            wall_force_scale,
            max_speed,
            speed_policy,
            collision_policy,
            tick_dt,
            left_wall,
            right_wall,
            bottom_wall,
            top_wall,
            wall_thickness,
            boid_size,
        };
        c.check()
    }
}

fn in_limit_exec(v: i64) -> (r: bool)
    ensures
        r == in_limit(v as int),
{
    -COORD_LIMIT <= v && v <= COORD_LIMIT
}

} // verus!
