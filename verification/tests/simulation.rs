//! End-to-end tests of the force model and the speed policies, with exact
//! fixed-point expected values (SCALE = 1000: a world unit is 1000 raw).

use boids::{tick, Boid, CollisionPolicy, Config, SpeedPolicy, V2};

fn config(
    k_align: i64,
    k_space: i64,
    k_attr: i64,
    wall_force_scale: i64,
    max_speed: i64,
    speed_policy: SpeedPolicy,
) -> Config {
    Config::new(
        50_000, // vision radius 50.0
        k_align,
        k_space,
        k_attr,
        wall_force_scale,
        max_speed,
        speed_policy,
        CollisionPolicy::Clamp,
        1_000, // tick duration 1.0
        -600_000,
        600_000,
        -300_000,
        300_000,
        10_000, // wall thickness 10.0
        10_000, // boid size 10.0
    )
    .unwrap()
}

fn boid(px: i64, py: i64, vx: i64, vy: i64) -> Boid {
    Boid {
        position: V2 { x: px, y: py },
        velocity: V2 { x: vx, y: vy },
    }
}

#[test]
fn scenario_two_boids_separation_only() {
    // Two mutually visible boids 10 units apart: separation k_space = 5000.
    // For the left boid: u = (-1000, 0), d = 10^8, term = 5e6 * (-1000) * 1000 / 1e8.
    let cfg = config(0, 5_000_000, 0, 0, 200_000, SpeedPolicy::Range);
    let state = vec![boid(0, 0, 1_000, 0), boid(10_000, 0, -1_000, 0)];
    let (next, _) = tick(&state, &cfg);
    assert_eq!(next[0].velocity, V2 { x: -49_000, y: 0 });
    assert_eq!(next[1].velocity, V2 { x: 49_000, y: 0 });
    // Separation pushes them apart along x.
    assert!(next[0].velocity.x < 0 && next[1].velocity.x > 0);
}

#[test]
fn scenario_two_boids_alignment_and_separation() {
    // Same pair with alignment gain 10: each alignment residual is
    // proportional to the difference of the normalized headings, which point
    // oppositely here (a residual of -2 unit vectors for the left boid), so
    // the alignment term adds -20000 to the -50000 separation push.
    let cfg = config(10_000, 5_000_000, 0, 0, 200_000, SpeedPolicy::Range);
    let state = vec![boid(0, 0, 1_000, 0), boid(10_000, 0, -1_000, 0)];
    let (next, _) = tick(&state, &cfg);
    assert_eq!(next[0].velocity, V2 { x: -69_000, y: 0 });
    assert_eq!(next[1].velocity, V2 { x: 69_000, y: 0 });
}

#[test]
fn cohesion_pulls_toward_neighbor_centroid() {
    // One visible neighbor at (10, 0): centroid (10, 0), squared distance
    // 10^8, unit vector (1000, 0), k_attr = 1: term = 1e8 * 1000 / 1e6 * 1.
    let cfg = config(0, 0, 1_000, 0, 200_000, SpeedPolicy::Range);
    let state = vec![boid(0, 0, 0, 0), boid(10_000, 0, 0, 0)];
    let (next, _) = tick(&state, &cfg);
    assert_eq!(next[0].velocity, V2 { x: 100_000, y: 0 });
}

#[test]
fn zero_neighbors_only_wall_term_changes_velocity() {
    // Single boid near the right wall with the wall force enabled: only the
    // wall term moves the velocity. Residual 50: force = 1e6*1e6/2.5e9 = 400;
    // top/bottom forces cancel at y = 0; left wall force truncates to 0.
    let cfg = config(10_000, 5_000_000, 1_000, 1_000_000, 200_000, SpeedPolicy::Range);
    let state = vec![boid(550_000, 0, 1_000, 0)];
    let (next, _) = tick(&state, &cfg);
    assert_eq!(next[0].velocity, V2 { x: 600, y: 0 });
}

#[test]
fn scenario_single_boid_velocity_and_position_advance() {
    // No neighbors, wall force disabled: velocity unchanged tick over tick,
    // position advances by exactly velocity * tick duration.
    let cfg = config(10_000, 5_000_000, 1_000, 0, 200_000, SpeedPolicy::Range);
    let state = vec![boid(5_000, 7_000, 3_000, 4_000)];
    let (after_one, hits1) = tick(&state, &cfg);
    assert_eq!(after_one[0].velocity, V2 { x: 3_000, y: 4_000 });
    assert_eq!(after_one[0].position, V2 { x: 8_000, y: 11_000 });
    assert_eq!(hits1, 0);
    let (after_two, hits2) = tick(&after_one, &cfg);
    assert_eq!(after_two[0].velocity, V2 { x: 3_000, y: 4_000 });
    assert_eq!(after_two[0].position, V2 { x: 11_000, y: 15_000 });
    assert_eq!(hits2, 0);
}

#[test]
fn constant_mode_rescales_to_max_speed_exactly() {
    // Candidate (3000, 4000) has magnitude exactly 5000; at max speed 10000
    // the rescale gives (6000, 8000), of magnitude exactly 10000.
    let cfg = config(0, 0, 0, 0, 10_000, SpeedPolicy::Constant);
    let state = vec![boid(0, 0, 3_000, 4_000)];
    let (next, _) = tick(&state, &cfg);
    assert_eq!(next[0].velocity, V2 { x: 6_000, y: 8_000 });
    let v = next[0].velocity;
    assert_eq!(v.x * v.x + v.y * v.y, 10_000i64 * 10_000);
}

#[test]
fn range_mode_clamps_speed_into_bound() {
    // Candidate (30000, 40000) has magnitude 50000 > max 5000: clamped to
    // (3000, 4000), magnitude exactly 5000. Direction is preserved.
    let cfg = config(0, 0, 0, 0, 5_000, SpeedPolicy::Range);
    let state = vec![boid(0, 0, 30_000, 40_000)];
    let (next, _) = tick(&state, &cfg);
    assert_eq!(next[0].velocity, V2 { x: 3_000, y: 4_000 });
}

#[test]
fn range_mode_keeps_slow_boids_unchanged() {
    let cfg = config(0, 0, 0, 0, 5_000, SpeedPolicy::Range);
    let state = vec![boid(0, 0, -300, 400)];
    let (next, _) = tick(&state, &cfg);
    assert_eq!(next[0].velocity, V2 { x: -300, y: 400 });
}

#[test]
fn determinism_two_runs_agree() {
    let cfg = config(10_000, 5_000_000, 100, 200_000, 200_000, SpeedPolicy::Constant);
    let state = vec![
        boid(0, 0, 1_000, 2_000),
        boid(10_000, -3_000, -1_000, 500),
        boid(-8_000, 4_000, 700, -900),
    ];
    let (a, ha) = tick(&state, &cfg);
    let (b, hb) = tick(&state, &cfg);
    assert_eq!(a, b);
    assert_eq!(ha, hb);
}

#[test]
fn order_independence_of_read_phase() {
    // Permuting the snapshot does not change a given boid's new velocity.
    let cfg = config(10_000, 5_000_000, 100, 0, 200_000, SpeedPolicy::Range);
    let b0 = boid(0, 0, 1_000, 2_000);
    let b1 = boid(10_000, -3_000, -1_000, 500);
    let b2 = boid(-8_000, 4_000, 700, -900);
    let forward = vec![b0, b1, b2];
    let shuffled = vec![b2, b0, b1];
    let v_forward = boids::compute_velocity(&forward, &b1, &cfg);
    let v_shuffled = boids::compute_velocity(&shuffled, &b1, &cfg);
    assert_eq!(v_forward, v_shuffled);
}

#[test]
fn empty_population_is_a_trivial_tick() {
    let cfg = config(10_000, 5_000_000, 100, 0, 200_000, SpeedPolicy::Range);
    let state: Vec<Boid> = vec![];
    let (next, hits) = tick(&state, &cfg);
    assert!(next.is_empty());
    assert_eq!(hits, 0);
}

#[test]
fn degenerate_vision_radius_sees_no_neighbors() {
    let mut cfg = config(0, 5_000_000, 0, 0, 200_000, SpeedPolicy::Range);
    cfg.vision_radius = 0;
    let state = vec![boid(0, 0, 1_000, 0), boid(10_000, 0, -1_000, 0)];
    let (next, _) = tick(&state, &cfg);
    assert_eq!(next[0].velocity, V2 { x: 1_000, y: 0 });
    assert_eq!(next[1].velocity, V2 { x: -1_000, y: 0 });
}

#[test]
fn degenerate_max_speed_stops_every_boid() {
    let cfg = config(0, 0, 0, 0, 0, SpeedPolicy::Constant);
    let state = vec![boid(0, 0, 1_000, 2_000)];
    let (next, _) = tick(&state, &cfg);
    assert_eq!(next[0].velocity, V2 { x: 0, y: 0 });
}

#[test]
fn coincident_boids_are_not_neighbors() {
    // Distance exactly zero is excluded, so no separation blowup occurs.
    let cfg = config(0, 5_000_000, 0, 0, 200_000, SpeedPolicy::Range);
    let state = vec![boid(0, 0, 1_000, 0), boid(0, 0, -1_000, 0)];
    let (next, _) = tick(&state, &cfg);
    assert_eq!(next[0].velocity, V2 { x: 1_000, y: 0 });
    assert_eq!(next[1].velocity, V2 { x: -1_000, y: 0 });
}

#[test]
fn boid_logic_commits_from_one_snapshot() {
    // Two-phase discipline, alignment only: each boid's update reads the
    // other's OLD velocity. From opposite unit headings the terms are
    // symmetric: (-19000, 0) and (19000, 0). Had the second update read the
    // first boid's freshly written (negative) velocity, its alignment term
    // would flip sign. Positions are untouched by the read phase.
    let cfg = config(10_000, 0, 0, 0, 200_000, SpeedPolicy::Range);
    let state = vec![boid(0, 0, 1_000, 0), boid(10_000, 0, -1_000, 0)];
    let next = boids::boid_logic(&state, &cfg);
    assert_eq!(next[0].position, V2 { x: 0, y: 0 });
    assert_eq!(next[1].position, V2 { x: 10_000, y: 0 });
    assert_eq!(next[0].velocity, V2 { x: -19_000, y: 0 });
    assert_eq!(next[1].velocity, V2 { x: 19_000, y: 0 });
}

#[test]
fn apply_velocity_advances_positions_only() {
    let cfg = config(0, 0, 0, 0, 200_000, SpeedPolicy::Range);
    let mut state = vec![boid(5_000, -2_000, 1_500, -2_500)];
    boids::apply_velocity(&mut state, &cfg);
    assert_eq!(state[0].position, V2 { x: 6_500, y: -4_500 });
    assert_eq!(state[0].velocity, V2 { x: 1_500, y: -2_500 });
}

#[test]
fn within_range_excludes_zero_and_radius() {
    let a = boid(0, 0, 1, 1);
    let same = boid(0, 0, 2, 2);
    let near = boid(10_000, 0, 0, 0);
    let at_radius = boid(50_000, 0, 0, 0);
    assert!(!boids::within_range(&a, &same, 50_000));
    assert!(boids::within_range(&a, &near, 50_000));
    assert!(!boids::within_range(&a, &at_radius, 50_000));
    assert!(!boids::within_range(&a, &near, 0));
}

#[test]
fn neighbor_indices_lists_in_range_boids_in_order() {
    let q = boid(0, 0, 0, 0);
    let state = vec![
        boid(0, 0, 0, 0),        // the query itself: excluded (distance 0)
        boid(10_000, 0, 0, 0),   // in range
        boid(90_000, 0, 0, 0),   // out of range
        boid(0, -20_000, 0, 0),  // in range
    ];
    let ids = boids::neighbor_indices(&state, &q, 50_000);
    assert_eq!(ids, vec![1, 3]);
}

#[test]
fn norm_and_normalize_are_exact_on_pythagorean_vectors() {
    assert_eq!(boids::norm(&V2 { x: 3_000, y: 4_000 }), 5_000);
    assert_eq!(boids::norm(&V2 { x: 1, y: 1 }), 2); // ceiling square root
    let u = boids::normalize(&V2 { x: 2_000, y: 0 });
    assert_eq!(u, V2 { x: 1_000, y: 0 });
    let z = boids::normalize(&V2 { x: 0, y: 0 });
    assert_eq!(z, V2 { x: 0, y: 0 });
}
