//! A verified core for a 2D flocking ("boids") simulation.
//!
//! Every boid carries a position and a velocity in a bounded arena walled on
//! four sides. Once per tick the core computes, for every boid, a new velocity
//! from three local steering rules (alignment, separation, cohesion) plus a
//! wall-softening force, advances positions by the fixed tick duration, and
//! resolves wall contacts under a configurable response policy. The whole tick
//! is a pure transformation `(boids, config) -> (next boids, contact count)`;
//! entity storage, rendering and the fixed-timestep loop are the caller's.
//!
//! All quantities are fixed-point integers: a coordinate is a count of
//! `1/SCALE` world units. Contracts state the exact integer value of every
//! result, so a tick is deterministic and independent of iteration order.

pub mod boundary;
pub mod config;
pub mod flocking;
pub mod geom;
pub mod laws;
pub mod num;
pub mod sim;

pub use boundary::{Side, WallLocation};
pub use config::{CollisionPolicy, Config, ConfigError, SpeedPolicy, MAX_BOIDS};
pub use flocking::{boid_logic, compute_velocity, neighbor_indices, within_range};
pub use geom::{norm, normalize, Boid, V2, COORD_LIMIT};
pub use num::SCALE;
pub use sim::{apply_velocity, check_for_collisions, tick};
