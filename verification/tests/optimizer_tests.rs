//! Tests of the three optimization passes.
use rust_engine::agents::{AgentEngine, AgentKind, Personality};
use rust_engine::optimization::{
    BehaviorOptimizer, OptimizationEngine, ResourceOptimizer, TrafficOptimizer,
};

const SCALE: i64 = 1_000_000;

fn default_personality() -> Personality {
    Personality { risk_tolerance: Some(500_000), social_preference: Some(500_000) }
}

fn set_revenue(store: &mut AgentEngine, index: usize, revenue: i64) {
    match &mut store.agents[index].kind {
        AgentKind::Business(b) => b.revenue = revenue,
        _ => panic!("expected a business"),
    }
}

#[test]
fn average_energy_of_empty_store_is_zero() {
    let store = AgentEngine::new();
    assert_eq!(store.get_average_energy(), 0);
}

#[test]
fn underperforming_business_gains_exactly_five_energy() {
    // Business with revenue 5 against a mean business revenue of 50: below
    // half the mean, so its energy rises by exactly 5.
    let mut store = AgentEngine::new();
    store.add_business(10 * SCALE, 10 * SCALE, "low".to_string());
    store.add_business(20 * SCALE, 20 * SCALE, "high".to_string());
    set_revenue(&mut store, 0, 5 * SCALE);
    set_revenue(&mut store, 1, 95 * SCALE);
    let mut optimizer = ResourceOptimizer::new();
    optimizer.optimize(&mut store);
    assert_eq!(store.agents[0].energy, 105 * SCALE);
    // The overperformer (95 > 1.5 * 50) loses 2, staying above the floor.
    assert_eq!(store.agents[1].energy, 98 * SCALE);
}

#[test]
fn overperformer_energy_is_floored_at_fifty() {
    let mut store = AgentEngine::new();
    store.add_business(0, 0, "rich".to_string());
    store.add_business(0, 0, "poor".to_string());
    set_revenue(&mut store, 0, 95 * SCALE);
    set_revenue(&mut store, 1, 5 * SCALE);
    store.agents[0].energy = 51 * SCALE;
    let mut optimizer = ResourceOptimizer::new();
    optimizer.optimize(&mut store);
    // 51 - 2 = 49 would fall under the floor of 50.
    assert_eq!(store.agents[0].energy, 50 * SCALE);
}

#[test]
fn low_energy_agents_move_toward_the_mean() {
    // Mean energy is (10 + 100 + 100 + 100) / 4 = 77.5; the first citizen
    // sits below half of it and gains (77.5 - 10) * 0.1 = 6.75 exactly.
    let mut store = AgentEngine::new();
    store.add_citizen(0, 0, default_personality());
    store.add_citizen(0, 0, default_personality());
    store.add_citizen(0, 0, default_personality());
    store.add_citizen(0, 0, default_personality());
    store.agents[0].energy = 10 * SCALE;
    let mut optimizer = ResourceOptimizer::new();
    optimizer.optimize(&mut store);
    assert_eq!(store.agents[0].energy, 16_750_000);
    assert_eq!(store.agents[1].energy, 100 * SCALE);
}

#[test]
fn successful_citizen_gains_risk_tolerance() {
    // Energy 90 with risk tolerance 0.5: one behaviour pass raises it by
    // the learning rate 0.01, to exactly 0.51.
    let mut store = AgentEngine::new();
    store.add_citizen(0, 0, default_personality());
    store.agents[0].energy = 90 * SCALE;
    let mut optimizer = BehaviorOptimizer::new();
    optimizer.optimize(&mut store);
    match &store.agents[0].kind {
        AgentKind::Citizen(c) => {
            assert_eq!(c.personality.risk_tolerance, Some(510_000));
        }
        _ => panic!("expected a citizen"),
    }
}

#[test]
fn risk_tolerance_is_capped_at_one_on_repetition() {
    let mut store = AgentEngine::new();
    store.add_citizen(0, 0, default_personality());
    store.agents[0].energy = 90 * SCALE;
    let mut optimizer = BehaviorOptimizer::new();
    for _ in 0..80 {
        optimizer.optimize(&mut store);
    }
    match &store.agents[0].kind {
        AgentKind::Citizen(c) => {
            assert_eq!(c.personality.risk_tolerance, Some(SCALE));
        }
        _ => panic!("expected a citizen"),
    }
}

#[test]
fn struggling_citizen_loses_risk_tolerance_floored_at_zero() {
    let mut store = AgentEngine::new();
    store.add_citizen(0, 0, default_personality());
    store.agents[0].energy = 10 * SCALE;
    let mut optimizer = BehaviorOptimizer::new();
    optimizer.optimize(&mut store);
    match &store.agents[0].kind {
        AgentKind::Citizen(c) => assert_eq!(c.personality.risk_tolerance, Some(490_000)),
        _ => panic!("expected a citizen"),
    }
    for _ in 0..100 {
        optimizer.optimize(&mut store);
    }
    match &store.agents[0].kind {
        AgentKind::Citizen(c) => assert_eq!(c.personality.risk_tolerance, Some(0)),
        _ => panic!("expected a citizen"),
    }
}

#[test]
fn behaviour_pass_recomputes_needs() {
    let mut store = AgentEngine::new();
    store.add_citizen(0, 0, default_personality());
    store.agents[0].energy = 40 * SCALE;
    let mut optimizer = BehaviorOptimizer::new();
    optimizer.optimize(&mut store);
    match &store.agents[0].kind {
        AgentKind::Citizen(c) => {
            // energy need: 1 - 40/100 = 0.6; social need: 0.5 * 0.8 = 0.4.
            assert_eq!(c.needs.energy, Some(600_000));
            assert_eq!(c.needs.social, Some(400_000));
        }
        _ => panic!("expected a citizen"),
    }
}

#[test]
fn business_customers_follow_revenue() {
    let mut store = AgentEngine::new();
    store.add_business(0, 0, "rich".to_string());
    store.add_business(0, 0, "poor".to_string());
    store.add_business(0, 0, "middling".to_string());
    set_revenue(&mut store, 0, 150 * SCALE);
    set_revenue(&mut store, 1, 5 * SCALE);
    set_revenue(&mut store, 2, 50 * SCALE);
    let mut optimizer = BehaviorOptimizer::new();
    optimizer.optimize(&mut store);
    let customers: Vec<u32> = store
        .agents
        .iter()
        .map(|a| match &a.kind {
            AgentKind::Business(b) => b.customers,
            _ => panic!("expected a business"),
        })
        .collect();
    assert_eq!(customers, vec![1, 2, 0]);
    match &store.agents[0].kind {
        AgentKind::Business(b) => {
            // demand = customers / 100 = 0.01.
            assert_eq!(b.products.demand, Some(10_000));
        }
        _ => panic!("expected a business"),
    }
}

#[test]
fn customer_count_is_capped_at_one_thousand() {
    let mut store = AgentEngine::new();
    store.add_business(0, 0, "crowded".to_string());
    set_revenue(&mut store, 0, 150 * SCALE);
    match &mut store.agents[0].kind {
        AgentKind::Business(b) => b.customers = 1000,
        _ => panic!("expected a business"),
    }
    let mut optimizer = BehaviorOptimizer::new();
    optimizer.optimize(&mut store);
    match &store.agents[0].kind {
        AgentKind::Business(b) => assert_eq!(b.customers, 1000),
        _ => panic!("expected a business"),
    }
}

#[test]
fn congested_citizens_are_nudged_away() {
    // Twenty citizens stacked at the origin make its cell heavily
    // congested; the cell centre lies up and to the right of them, so the
    // avoidance force points into negative x and y, equally.
    let mut store = AgentEngine::new();
    for _ in 0..20 {
        store.add_citizen(0, 0, default_personality());
    }
    let mut optimizer = TrafficOptimizer::new();
    optimizer.optimize(&mut store);
    for a in &store.agents {
        assert!(a.velocity.x < 0);
        assert_eq!(a.velocity.x, a.velocity.y);
    }
}

#[test]
fn sparse_citizens_keep_their_velocity() {
    let mut store = AgentEngine::new();
    store.add_citizen(10 * SCALE, 10 * SCALE, default_personality());
    store.add_citizen(90 * SCALE, 90 * SCALE, default_personality());
    let mut optimizer = TrafficOptimizer::new();
    optimizer.optimize(&mut store);
    for a in &store.agents {
        assert_eq!(a.velocity.x, 0);
        assert_eq!(a.velocity.y, 0);
    }
}

#[test]
fn pipeline_runs_all_three_passes() {
    let mut store = AgentEngine::new();
    store.add_citizen(0, 0, default_personality());
    store.agents[0].energy = 90 * SCALE;
    let mut pipeline = OptimizationEngine::new();
    pipeline.run(&mut store);
    match &store.agents[0].kind {
        AgentKind::Citizen(c) => {
            assert_eq!(c.personality.risk_tolerance, Some(510_000));
            assert_eq!(c.needs.energy, Some(100_000));
        }
        _ => panic!("expected a citizen"),
    }
}
