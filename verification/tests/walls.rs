//! Tests of the boundary model: wall geometry, the two response policies,
//! and the contact notifications.

use boids::{
    check_for_collisions, tick, Boid, CollisionPolicy, Config, ConfigError, SpeedPolicy, V2,
    WallLocation,
};

fn wall_config(collision_policy: CollisionPolicy, tick_dt: i64) -> Config {
    Config::new(
        25_000, // vision radius 25.0
        0,
        0,
        0,
        0,       // wall force disabled
        100_000, // max speed 100.0
        SpeedPolicy::Constant,
        collision_policy,
        tick_dt,
        -600_000,
        600_000,
        -300_000,
        300_000,
        10_000,
        10_000,
    )
    .unwrap()
}

fn boid(px: i64, py: i64, vx: i64, vy: i64) -> Boid {
    Boid {
        position: V2 { x: px, y: py },
        velocity: V2 { x: vx, y: vy },
    }
}

#[test]
fn scenario_clamp_at_right_wall() {
    // Boid at x = 595 moving at (100, 0) toward the right wall at x = 600
    // (thickness 10). A 0.04 s step puts it at 599, overlapping the wall;
    // under the clamp policy it is snapped to exactly 590 = 600 - 10.
    let cfg = wall_config(CollisionPolicy::Clamp, 40);
    let state = vec![boid(595_000, 0, 100_000, 0)];
    let (next, hits) = tick(&state, &cfg);
    assert_eq!(next[0].position, V2 { x: 590_000, y: 0 });
    assert_eq!(next[0].velocity, V2 { x: 100_000, y: 0 });
    assert_eq!(hits, 1);
}

#[test]
fn scenario_reflect_at_right_wall() {
    // Same approach under the reflect policy: the x velocity flips sign and
    // the position is left where integration put it.
    let cfg = wall_config(CollisionPolicy::Reflect, 40);
    let state = vec![boid(595_000, 0, 100_000, 0)];
    let (next, hits) = tick(&state, &cfg);
    assert_eq!(next[0].position, V2 { x: 599_000, y: 0 });
    assert_eq!(next[0].velocity, V2 { x: -100_000, y: 0 });
    assert_eq!(hits, 1);
}

#[test]
fn reflect_flips_only_inward_perpendicular_component() {
    let cfg = wall_config(CollisionPolicy::Reflect, 40);
    // Overlapping the right wall, moving into it: x flips, y untouched.
    let mut into_wall = vec![boid(599_000, 0, 50_000, 20_000)];
    let hits = check_for_collisions(&mut into_wall, &cfg);
    assert_eq!(into_wall[0].velocity, V2 { x: -50_000, y: 20_000 });
    assert_eq!(into_wall[0].position, V2 { x: 599_000, y: 0 });
    assert_eq!(hits, 1);
    // Overlapping but already moving away: nothing flips (no jitter).
    let mut away = vec![boid(599_000, 0, -50_000, 20_000)];
    let hits = check_for_collisions(&mut away, &cfg);
    assert_eq!(away[0].velocity, V2 { x: -50_000, y: 20_000 });
    assert_eq!(hits, 1);
}

#[test]
fn clamp_keeps_velocity_and_snaps_each_wall() {
    let cfg = wall_config(CollisionPolicy::Clamp, 40);
    let mut left = vec![boid(-598_000, 0, -10_000, 5_000)];
    check_for_collisions(&mut left, &cfg);
    assert_eq!(left[0].position, V2 { x: -590_000, y: 0 });
    assert_eq!(left[0].velocity, V2 { x: -10_000, y: 5_000 });
    let mut top = vec![boid(0, 298_000, 0, 10_000)];
    check_for_collisions(&mut top, &cfg);
    assert_eq!(top[0].position, V2 { x: 0, y: 290_000 });
    let mut bottom = vec![boid(0, -298_000, 0, -10_000)];
    check_for_collisions(&mut bottom, &cfg);
    assert_eq!(bottom[0].position, V2 { x: 0, y: -290_000 });
}

#[test]
fn no_contact_away_from_walls() {
    let cfg = wall_config(CollisionPolicy::Reflect, 40);
    let mut state = vec![boid(0, 0, 100_000, 0), boid(100_000, 50_000, 0, -100_000)];
    let hits = check_for_collisions(&mut state, &cfg);
    assert_eq!(hits, 0);
    assert_eq!(state[0], boid(0, 0, 100_000, 0));
}

#[test]
fn wall_geometry_matches_arena() {
    let cfg = wall_config(CollisionPolicy::Clamp, 40);
    assert_eq!(WallLocation::Left.position(&cfg), V2 { x: -600_000, y: 0 });
    assert_eq!(WallLocation::Right.position(&cfg), V2 { x: 600_000, y: 0 });
    assert_eq!(WallLocation::Bottom.position(&cfg), V2 { x: 0, y: -300_000 });
    assert_eq!(WallLocation::Top.position(&cfg), V2 { x: 0, y: 300_000 });
    // Side walls: one thickness across, arena height plus thickness along.
    assert_eq!(WallLocation::Left.size(&cfg), V2 { x: 10_000, y: 610_000 });
    assert_eq!(WallLocation::Top.size(&cfg), V2 { x: 1_210_000, y: 10_000 });
}

#[test]
fn config_rejects_malformed_geometry() {
    let bad_arena = Config::new(
        25_000, 0, 0, 0, 0, 100_000, SpeedPolicy::Range, CollisionPolicy::Clamp, 40, 600_000,
        -600_000, -300_000, 300_000, 10_000, 10_000,
    );
    assert_eq!(bad_arena.unwrap_err(), ConfigError::ArenaBounds);
    let bad_thickness = Config::new(
        25_000, 0, 0, 0, 0, 100_000, SpeedPolicy::Range, CollisionPolicy::Clamp, 40, -600_000,
        600_000, -300_000, 300_000, 0, 10_000,
    );
    assert_eq!(bad_thickness.unwrap_err(), ConfigError::WallThickness);
    let bad_size = Config::new(
        25_000, 0, 0, 0, 0, 100_000, SpeedPolicy::Range, CollisionPolicy::Clamp, 40, -600_000,
        600_000, -300_000, 300_000, 10_000, -1,
    );
    assert_eq!(bad_size.unwrap_err(), ConfigError::BoidSize);
    let too_big = Config::new(
        25_000, 0, 0, 0, 0, 100_000_000, SpeedPolicy::Range, CollisionPolicy::Clamp, 40,
        -600_000, 600_000, -300_000, 300_000, 10_000, 10_000,
    );
    assert_eq!(too_big.unwrap_err(), boids::ConfigError::Magnitude);
    let fine = Config::new(
        25_000, 0, 0, 0, 0, 100_000, SpeedPolicy::Range, CollisionPolicy::Clamp, 40, -600_000,
        600_000, -300_000, 300_000, 10_000, 10_000,
    );
    assert!(fine.is_ok());
}
