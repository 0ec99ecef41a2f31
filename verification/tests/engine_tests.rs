//! End-to-end tests of the simulation engine: construction, agent
//! lifecycle, one full tick, statistics and reproducibility.
use rust_engine::agents::{AgentEngine, AgentKind, Personality, Policy};
use rust_engine::engine::RustSimulationEngine;
use rust_engine::randutil::rng_from_seed;

const SCALE: i64 = 1_000_000;

fn default_personality() -> Personality {
    Personality { risk_tolerance: Some(500_000), social_preference: Some(500_000) }
}

#[test]
fn engine_creation_and_counts() {
    let mut engine = RustSimulationEngine::new(100 * SCALE, 100 * SCALE, 7);
    let c = engine.add_citizen(10 * SCALE, 10 * SCALE, default_personality());
    let b = engine.add_business(20 * SCALE, 20 * SCALE, "market".to_string());
    let g = engine.add_government(30 * SCALE, 30 * SCALE, Vec::<Policy>::new());
    assert_eq!(c, 1);
    assert_eq!(b, 2);
    assert_eq!(g, 3);
    let stats = engine.get_simulation_stats();
    assert_eq!(stats.total_agents, 3);
    assert_eq!(stats.citizens, 1);
    assert_eq!(stats.businesses, 1);
    assert_eq!(stats.government, 1);
    assert_eq!(stats.avg_energy, 100 * SCALE);
    assert_eq!(stats.city_width, 100 * SCALE);
    assert_eq!(stats.city_height, 100 * SCALE);
}

#[test]
fn ids_are_monotonic_and_never_reused() {
    let mut store = AgentEngine::new();
    let a = store.add_citizen(0, 0, default_personality());
    let b = store.add_business(0, 0, "shop".to_string());
    assert_eq!(a, 1);
    assert_eq!(b, 2);
    assert!(store.remove(a));
    assert!(!store.remove(a));
    let c = store.add_citizen(0, 0, default_personality());
    assert_eq!(c, 3);
    assert_eq!(store.get_agent_count(), 2);
}

#[test]
fn tick_reports_population_and_interactions() {
    let mut engine = RustSimulationEngine::new(200 * SCALE, 200 * SCALE, 1);
    engine.add_citizen(0, 0, default_personality());
    engine.add_business(10 * SCALE, 0, "shop".to_string());
    let result = engine.update_simulation(0);
    assert_eq!(result.agents_updated, 2);
    // The citizen and the business are 10 units apart, within the
    // interaction radius of 20.
    assert_eq!(result.interactions_calculated, 1);
}

#[test]
fn agent_clamped_to_zero_boundary_after_tick() {
    // An agent placed at x = -5 with width 100 ends the tick at x == 0
    // exactly (governments have zero velocity, so nothing else moves it).
    let mut engine = RustSimulationEngine::new(100 * SCALE, 100 * SCALE, 3);
    engine.add_government(-5 * SCALE, 50 * SCALE, Vec::new());
    engine.update_simulation(SCALE);
    let positions = engine.get_agent_positions();
    assert_eq!(positions.len(), 1);
    assert_eq!(positions[0].x, 0);
    assert_eq!(positions[0].y, 50 * SCALE);
}

#[test]
fn energy_never_negative_after_ticks() {
    let mut engine = RustSimulationEngine::new(100 * SCALE, 100 * SCALE, 11);
    engine.add_citizen(5 * SCALE, 5 * SCALE, default_personality());
    engine.add_business(50 * SCALE, 50 * SCALE, "mill".to_string());
    engine.add_government(90 * SCALE, 90 * SCALE, Vec::new());
    // Enormous time steps drain all energy; the clamp keeps it at zero.
    for _ in 0..5 {
        engine.update_simulation(1_000 * SCALE);
        for p in engine.get_agent_positions() {
            assert!(p.energy >= 0);
        }
    }
}

#[test]
fn zero_dt_tick_keeps_government_state() {
    // With dt == 0 the passive decay, integration and accumulators are all
    // identities; a lone government agent (zero velocity, no collisions,
    // not below half the mean energy) is left exactly in place, twice over.
    let mut engine = RustSimulationEngine::new(100 * SCALE, 100 * SCALE, 5);
    engine.add_government(40 * SCALE, 60 * SCALE, Vec::new());
    for _ in 0..2 {
        engine.update_simulation(0);
        let p = &engine.get_agent_positions()[0];
        assert_eq!(p.x, 40 * SCALE);
        assert_eq!(p.y, 60 * SCALE);
        assert_eq!(p.energy, 100 * SCALE);
    }
}

#[test]
fn positions_stay_inside_the_area_across_ticks() {
    // A spread-out population (no colliding pairs, speeds of at most one
    // unit per second) stays within [0, width] x [0, height] after every
    // tick.
    let mut engine = RustSimulationEngine::new(100 * SCALE, 100 * SCALE, 17);
    for i in 0..4 {
        for j in 0..4 {
            engine.add_citizen(
                (10 + 25 * i) * SCALE,
                (10 + 25 * j) * SCALE,
                default_personality(),
            );
        }
    }
    for _ in 0..3 {
        engine.update_simulation(SCALE);
        for p in engine.get_agent_positions() {
            assert!(0 <= p.x && p.x <= 100 * SCALE);
            assert!(0 <= p.y && p.y <= 100 * SCALE);
        }
    }
}

#[test]
fn same_seed_reproduces_the_same_run() {
    let mut e1 = RustSimulationEngine::new(100 * SCALE, 100 * SCALE, 42);
    let mut e2 = RustSimulationEngine::new(100 * SCALE, 100 * SCALE, 42);
    for e in [&mut e1, &mut e2] {
        e.add_citizen(10 * SCALE, 10 * SCALE, default_personality());
        e.add_business(30 * SCALE, 30 * SCALE, "shop".to_string());
    }
    for _ in 0..3 {
        e1.update_simulation(SCALE / 2);
        e2.update_simulation(SCALE / 2);
    }
    let p1 = e1.get_agent_positions();
    let p2 = e2.get_agent_positions();
    assert_eq!(p1.len(), p2.len());
    for (a, b) in p1.iter().zip(p2.iter()) {
        assert_eq!(a.x, b.x);
        assert_eq!(a.y, b.y);
        assert_eq!(a.energy, b.energy);
        assert_eq!(a.velocity_x, b.velocity_x);
        assert_eq!(a.velocity_y, b.velocity_y);
    }
}

#[test]
fn position_reports_carry_archetype_labels() {
    let mut engine = RustSimulationEngine::new(100 * SCALE, 100 * SCALE, 2);
    engine.add_citizen(0, 0, default_personality());
    engine.add_business(0, 0, "shop".to_string());
    engine.add_government(0, 0, Vec::new());
    let positions = engine.get_agent_positions();
    assert_eq!(positions[0].agent_type, "citizen");
    assert_eq!(positions[1].agent_type, "business");
    assert_eq!(positions[2].agent_type, "government");
}

#[test]
fn process_cycle_decays_and_accrues() {
    let mut store = AgentEngine::new();
    store.add_citizen(0, 0, default_personality());
    store.add_business(50 * SCALE, 50 * SCALE, "mill".to_string());
    store.add_government(90 * SCALE, 90 * SCALE, Vec::new());
    let mut rng = rng_from_seed(9);
    // dt of 10 seconds: citizen loses 1.0 energy, business loses 0.5 and
    // earns 10.0 revenue and one customer, government gains 100 budget and
    // 0.01 approval.
    store.process_cycle(10 * SCALE, &mut rng);
    assert_eq!(store.agents[0].energy, 99 * SCALE);
    assert_eq!(store.agents[1].energy, 99_500_000);
    match &store.agents[1].kind {
        AgentKind::Business(b) => {
            assert_eq!(b.revenue, 10 * SCALE);
            assert_eq!(b.customers, 1);
        }
        _ => panic!("expected a business"),
    }
    assert_eq!(store.agents[2].energy, 99_800_000);
    match &store.agents[2].kind {
        AgentKind::Government(g) => {
            assert_eq!(g.budget, 10_100 * SCALE);
            assert_eq!(g.approval_rating, 510_000);
        }
        _ => panic!("expected a government"),
    }
}
