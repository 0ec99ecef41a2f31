//! Tests of the physics pass: collision separation, boundary clamping,
//! distance queries and the spatial grid.
use rust_engine::agents::{AgentEngine, Personality, Vec2, distance_vec};
use rust_engine::mathutil::distance;
use rust_engine::randutil::rng_from_seed;
use rust_engine::simulation::CityPhysics;

const SCALE: i64 = 1_000_000;

fn default_personality() -> Personality {
    Personality { risk_tolerance: Some(500_000), social_preference: Some(500_000) }
}

#[test]
fn collision_separates_close_pair_to_twice_radius() {
    // Two citizens one unit apart with collision radius 5 end at least 10
    // units apart after one collision pass.
    let mut store = AgentEngine::new();
    store.add_citizen(0, 0, default_personality());
    store.add_citizen(SCALE, 0, default_personality());
    store.handle_collisions(5 * SCALE);
    let d = distance_vec(store.agents[0].position, store.agents[1].position);
    assert!(d >= 10 * SCALE);
}

#[test]
fn coincident_pair_separates_symmetrically() {
    // Two agents at exactly the same point split along the fallback x
    // direction: each moves by the radius, for a separation of exactly the
    // collision diameter, with no undefined direction.
    let mut store = AgentEngine::new();
    store.add_citizen(50 * SCALE, 50 * SCALE, default_personality());
    store.add_citizen(50 * SCALE, 50 * SCALE, default_personality());
    let r = 5 * SCALE;
    store.handle_collisions(r);
    assert_eq!(store.agents[0].position, Vec2 { x: 45 * SCALE, y: 50 * SCALE });
    assert_eq!(store.agents[1].position, Vec2 { x: 55 * SCALE, y: 50 * SCALE });
    let d = distance_vec(store.agents[0].position, store.agents[1].position);
    assert_eq!(d, 2 * r);
}

#[test]
fn distant_agents_are_not_moved_by_collisions() {
    let mut store = AgentEngine::new();
    store.add_citizen(0, 0, default_personality());
    store.add_citizen(90 * SCALE, 90 * SCALE, default_personality());
    store.handle_collisions(5 * SCALE);
    assert_eq!(store.agents[0].position, Vec2 { x: 0, y: 0 });
    assert_eq!(store.agents[1].position, Vec2 { x: 90 * SCALE, y: 90 * SCALE });
}

#[test]
fn boundary_clamp_pins_positions_into_area() {
    let mut store = AgentEngine::new();
    store.add_citizen(-3 * SCALE, 120 * SCALE, default_personality());
    store.add_citizen(50 * SCALE, 50 * SCALE, default_personality());
    store.apply_boundary_constraints(100 * SCALE, 100 * SCALE);
    assert_eq!(store.agents[0].position, Vec2 { x: 0, y: 100 * SCALE });
    assert_eq!(store.agents[1].position, Vec2 { x: 50 * SCALE, y: 50 * SCALE });
}

#[test]
fn integration_advances_by_velocity_times_dt() {
    let mut store = AgentEngine::new();
    store.add_citizen(10 * SCALE, 10 * SCALE, default_personality());
    store.agents[0].velocity = Vec2 { x: 2 * SCALE, y: -SCALE };
    // Half a second: the agent moves by (1, -0.5).
    store.update_positions(SCALE / 2);
    assert_eq!(store.agents[0].position, Vec2 { x: 11 * SCALE, y: 9_500_000 });
}

#[test]
fn distance_is_exact_on_integer_triangles() {
    // A 3-4-5 triangle in world units.
    assert_eq!(distance(0, 0, 3 * SCALE, 4 * SCALE), 5 * SCALE);
    // Floor rounding: the diagonal of a unit square is 1.414213 (micro).
    assert_eq!(distance(0, 0, SCALE, SCALE), 1_414_213);
    assert_eq!(distance(7, 9, 7, 9), 0);
}

#[test]
fn bounds_queries_match_the_area() {
    let physics = CityPhysics::new(100 * SCALE, 50 * SCALE);
    assert_eq!(physics.get_bounds(), (0, 0, 100 * SCALE, 50 * SCALE));
    assert!(physics.is_within_bounds(0, 0));
    assert!(physics.is_within_bounds(99 * SCALE, 49 * SCALE));
    assert!(!physics.is_within_bounds(100 * SCALE, 0));
    assert!(!physics.is_within_bounds(0, 50 * SCALE));
    assert!(!physics.is_within_bounds(-1, 0));
}

#[test]
fn colliding_test_uses_twice_the_radius() {
    let physics = CityPhysics::new(100 * SCALE, 100 * SCALE);
    // Default collision radius is 5 units: distances under 10 collide.
    assert!(physics.are_colliding((0, 0), (9 * SCALE, 0)));
    assert!(!physics.are_colliding((0, 0), (10 * SCALE, 0)));
}

#[test]
fn apply_force_integrates_and_applies_friction() {
    let physics = CityPhysics::new(100 * SCALE, 100 * SCALE);
    let mut velocity = Vec2 { x: SCALE, y: 0 };
    // One second of a force of 1: velocity becomes (1 + 1) * 0.95 = 1.9.
    physics.apply_force(&mut velocity, Vec2 { x: SCALE, y: 0 }, SCALE);
    assert_eq!(velocity, Vec2 { x: 1_900_000, y: 0 });
}

#[test]
fn spatial_grid_answers_area_queries_after_update() {
    let mut physics = CityPhysics::new(500 * SCALE, 500 * SCALE);
    let mut store = AgentEngine::new();
    // Grid cells are 50 units: these agents land in distinct cells.
    let near = store.add_government(10 * SCALE, 10 * SCALE, Vec::new());
    let far = store.add_government(400 * SCALE, 400 * SCALE, Vec::new());
    physics.update_physics(&mut store, 0);
    let around_near = physics.get_agents_in_area(12 * SCALE, 12 * SCALE, 20 * SCALE);
    assert!(around_near.contains(&near));
    assert!(!around_near.contains(&far));
    let around_far = physics.get_agents_in_area(400 * SCALE, 400 * SCALE, 20 * SCALE);
    assert!(around_far.contains(&far));
    assert!(!around_far.contains(&near));
}

#[test]
fn random_position_lies_in_the_area() {
    let physics = CityPhysics::new(30 * SCALE, 40 * SCALE);
    let mut rng = rng_from_seed(77);
    for _ in 0..50 {
        let (x, y) = physics.get_random_position(&mut rng);
        assert!(0 <= x && x < 30 * SCALE);
        assert!(0 <= y && y < 40 * SCALE);
    }
}
