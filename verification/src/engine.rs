//! The simulation engine: one agent store, one physics engine and one
//! optimization pipeline, advanced together by `update_simulation` in the
//! fixed per-tick order (physics, behaviour cycle, optimization passes),
//! with an explicit seedable random source owned by the engine.
use vstd::prelude::*;
use crate::mathutil::CAP;
use crate::agents::{Agent, AgentEngine, AgentKind, AgentType, Personality, Policy, cycle_rel, tag_of};
use crate::simulation::{CityPhysics, grid_matches, ids_in_cell_upto};
use crate::optimization::{OptimizationEngine, behavior_seq, resource_seq, traffic_seq};
use crate::randutil::rng_from_seed;

verus! {

/// One agent's position report for the host layer.
pub struct AgentPosition {
    pub id: u32,
    pub agent_type: String,
    pub x: i64,
    pub y: i64,
    pub energy: i64,
    pub velocity_x: i64,
    pub velocity_y: i64,
}

/// The label reported for each archetype.
pub open spec fn type_label(t: AgentType) -> Seq<char> {
    match t {
        AgentType::Citizen => "citizen"@,
        AgentType::Business => "business"@,
        AgentType::Government => "government"@,
    }
}

/// Result of one simulation tick.
pub struct SimulationResult {
    pub agents_updated: u32,
    pub interactions_calculated: u32,
}

/// Aggregate statistics of the simulation.
pub struct SimulationStats {
    pub total_agents: u32,
    pub citizens: u32,
    pub businesses: u32,
    pub government: u32,
    pub avg_energy: i64,
    pub city_width: i64,
    pub city_height: i64,
}

impl AgentEngine {
    /// A position report for every agent, in store order.
    pub fn get_positions(&self) -> (r: Vec<AgentPosition>)
        ensures
            r@.len() == self.agents@.len(),
            forall|i: int| 0 <= i < r@.len() ==> {
                let p = #[trigger] r@[i];
                let a = self.agents@[i];
                &&& p.id == a.id
                &&& p.agent_type@ == type_label(tag_of(a))
                &&& p.x == a.position.x
                &&& p.y == a.position.y
                &&& p.energy == a.energy
                &&& p.velocity_x == a.velocity.x
                &&& p.velocity_y == a.velocity.y
            },
    {
        let n = self.agents.len();
        let mut out: Vec<AgentPosition> = Vec::new();
        let mut i: usize = 0;
        while i < n
            invariant
                n == self.agents@.len(),
                0 <= i <= n,
                out@.len() == i,
                forall|k: int| 0 <= k < i ==> {
                    let p = #[trigger] out@[k];
                    let a = self.agents@[k];
                    &&& p.id == a.id
                    &&& p.agent_type@ == type_label(tag_of(a))
                    &&& p.x == a.position.x
                    &&& p.y == a.position.y
                    &&& p.energy == a.energy
                    &&& p.velocity_x == a.velocity.x
                    &&& p.velocity_y == a.velocity.y
                },
            decreases n - i,
        {
            let a = &self.agents[i];
            let label: String = match &a.kind {
                AgentKind::Citizen(_) => "citizen".to_owned(),
                AgentKind::Business(_) => "business".to_owned(),
                AgentKind::Government(_) => "government".to_owned(),
            };
            out.push(
                AgentPosition {
                    id: a.id,
                    agent_type: label,
                    x: a.position.x,
                    y: a.position.y,
                    energy: a.energy,
                    velocity_x: a.velocity.x,
                    velocity_y: a.velocity.y,
                },
            );
            i = i + 1;
        }
        out
    }
}

/// Two store states with pointwise equal ids and positions induce the same
/// cell-to-ids mapping.
proof fn lemma_ids_in_cell_frame(s1: Seq<Agent>, s2: Seq<Agent>, cs: int, cx: int, cy: int, n: int)
    requires
        s1.len() == s2.len(),
        0 <= n <= s1.len(),
        forall|i: int| 0 <= i < s1.len() ==> (#[trigger] s1[i]).id == s2[i].id && s1[i].position
            == s2[i].position,
    ensures
        ids_in_cell_upto(s1, cs, cx, cy, n) == ids_in_cell_upto(s2, cs, cx, cy, n),
    decreases n,
{
    if n > 0 {
        lemma_ids_in_cell_frame(s1, s2, cs, cx, cy, n - 1);
    }
}

/// The coordinating simulation engine.
pub struct RustSimulationEngine {
    pub physics: CityPhysics,
    pub agents: AgentEngine,
    pub optimization: OptimizationEngine,
    pub rng: rand::rngs::StdRng,
}

impl RustSimulationEngine {
    /// All components well-formed and the optimizer parameters in range.
    pub open spec fn wf(&self) -> bool {
        &&& self.physics.wf()
        &&& self.agents.wf()
        &&& 0 <= self.optimization.traffic_optimizer.congestion_threshold <= CAP
        &&& 0 <= self.optimization.traffic_optimizer.optimization_strength <= CAP
        &&& 0 <= self.optimization.resource_optimizer.redistribution_rate
            <= crate::mathutil::SCALE
        &&& 0 <= self.optimization.behavior_optimizer.learning_rate <= crate::mathutil::SCALE
    }

    /// A new engine over a `width x height` area with an empty store, the
    /// default optimizers, and a random source seeded from `seed`.
    pub fn new(width: i64, height: i64, seed: u64) -> (r: RustSimulationEngine)
        requires
            0 <= width <= CAP,
            0 <= height <= CAP,
        ensures
            r.wf(),
            r.physics.width == width,
            r.physics.height == height,
            r.agents.agents@.len() == 0,
            r.agents.next_id == 1,
            r.agents.interaction_count == 0,
    {
        RustSimulationEngine {
            physics: CityPhysics::new(width, height),
            agents: AgentEngine::new(),
            optimization: OptimizationEngine::new(),
            rng: rng_from_seed(seed),
        }
    }

    /// Add a citizen agent; returns its id.
    pub fn add_citizen(&mut self, x: i64, y: i64, personality: Personality) -> (r: u32)
        requires
            old(self).wf(),
            old(self).agents.next_id < u32::MAX,
            old(self).agents.agents@.len() < crate::agents::MAX_AGENTS,
            -CAP <= x <= CAP,
            -CAP <= y <= CAP,
            crate::agents::opt_ok(personality.risk_tolerance),
            crate::agents::opt_ok(personality.social_preference),
        ensures
            final(self).wf(),
            final(self).physics == old(self).physics,
            final(self).optimization == old(self).optimization,
            r == old(self).agents.next_id,
            final(self).agents.next_id == old(self).agents.next_id + 1,
            final(self).agents.agents@.len() == old(self).agents.agents@.len() + 1,
            final(self).agents.agents@.subrange(0, old(self).agents.agents@.len() as int) == old(
                self,
            ).agents.agents@,
            AgentEngine::is_new_citizen(
                final(self).agents.agents@.last(),
                r,
                x,
                y,
                personality,
            ),
    {
        self.agents.add_citizen(x, y, personality)
    }

    /// Add a business agent; returns its id.
    pub fn add_business(&mut self, x: i64, y: i64, business_type: String) -> (r: u32)
        requires
            old(self).wf(),
            old(self).agents.next_id < u32::MAX,
            old(self).agents.agents@.len() < crate::agents::MAX_AGENTS,
            -CAP <= x <= CAP,
            -CAP <= y <= CAP,
        ensures
            final(self).wf(),
            final(self).physics == old(self).physics,
            final(self).optimization == old(self).optimization,
            r == old(self).agents.next_id,
            final(self).agents.next_id == old(self).agents.next_id + 1,
            final(self).agents.agents@.len() == old(self).agents.agents@.len() + 1,
            final(self).agents.agents@.subrange(0, old(self).agents.agents@.len() as int) == old(
                self,
            ).agents.agents@,
            AgentEngine::is_new_business(
                final(self).agents.agents@.last(),
                r,
                x,
                y,
                business_type@,
            ),
    {
        self.agents.add_business(x, y, business_type)
    }

    /// Add a government agent; returns its id.
    pub fn add_government(&mut self, x: i64, y: i64, policies: Vec<Policy>) -> (r: u32)
        requires
            old(self).wf(),
            old(self).agents.next_id < u32::MAX,
            old(self).agents.agents@.len() < crate::agents::MAX_AGENTS,
            -CAP <= x <= CAP,
            -CAP <= y <= CAP,
        ensures
            final(self).wf(),
            final(self).physics == old(self).physics,
            final(self).optimization == old(self).optimization,
            r == old(self).agents.next_id,
            final(self).agents.next_id == old(self).agents.next_id + 1,
            final(self).agents.agents@.len() == old(self).agents.agents@.len() + 1,
            final(self).agents.agents@.subrange(0, old(self).agents.agents@.len() as int) == old(
                self,
            ).agents.agents@,
            AgentEngine::is_new_government(
                final(self).agents.agents@.last(),
                r,
                x,
                y,
                policies@,
            ),
    {
        self.agents.add_government(x, y, policies)
    }

    /// One full simulation tick: physics (integrate, clamp, collide, rebuild
    /// grid), then the per-archetype behaviour cycle, then the three
    /// optimization passes in order. Positions, energies and the grid relate
    /// to the starting state exactly as the composed stage specifications
    /// say; the stochastic cycle stage is pinned to the outcomes its
    /// generator can produce.
    pub fn update_simulation(&mut self, dt: i64) -> (r: SimulationResult)
        requires
            old(self).wf(),
        ensures
            final(self).wf(),
            final(self).physics.width == old(self).physics.width,
            final(self).physics.height == old(self).physics.height,
            final(self).optimization == old(self).optimization,
            final(self).agents.next_id == old(self).agents.next_id,
            final(self).agents.agents@.len() == old(self).agents.agents@.len(),
            exists|mid: Seq<Agent>|
                {
                    let staged = CityPhysics::physics_spec(
                        old(self).agents.agents@,
                        dt as int,
                        old(self).physics.width as int,
                        old(self).physics.height as int,
                        old(self).physics.collision_radius as int,
                    );
                    &&& mid.len() == staged.len()
                    &&& (forall|i: int| 0 <= i < staged.len() ==> cycle_rel(
                        staged[i],
                        #[trigger] mid[i],
                        dt as int,
                    ))
                    &&& final(self).agents.agents@ == behavior_seq(
                        resource_seq(
                            #[trigger] traffic_seq(
                                mid,
                                old(self).optimization.traffic_optimizer.congestion_threshold as int,
                                old(self).optimization.traffic_optimizer.optimization_strength as int,
                            ),
                            old(self).optimization.resource_optimizer.redistribution_rate as int,
                        ),
                        old(self).optimization.behavior_optimizer.learning_rate as int,
                    )
                },
            forall|i: int| 0 <= i < final(self).agents.agents@.len() ==> (
            #[trigger] final(self).agents.agents@[i]).energy >= 0,
            forall|i: int| 0 <= i < old(self).agents.agents@.len() ==> (
            #[trigger] final(self).agents.agents@[i]).id == old(self).agents.agents@[i].id,
            forall|i: int| 0 <= i < old(self).agents.agents@.len() ==> (
            #[trigger] final(self).agents.agents@[i]).position == CityPhysics::physics_spec(
                old(self).agents.agents@,
                dt as int,
                old(self).physics.width as int,
                old(self).physics.height as int,
                old(self).physics.collision_radius as int,
            )[i].position,
            crate::laws::no_colliding_pairs(
                CityPhysics::clamp_seq(
                    CityPhysics::integrate_seq(old(self).agents.agents@, dt as int),
                    old(self).physics.width as int,
                    old(self).physics.height as int,
                ),
                old(self).physics.collision_radius as int,
            ) ==> forall|i: int| 0 <= i < final(self).agents.agents@.len() ==> {
                let p = (#[trigger] final(self).agents.agents@[i]).position;
                &&& 0 <= p.x <= old(self).physics.width
                &&& 0 <= p.y <= old(self).physics.height
            },
            grid_matches(
                final(self).physics.spatial_grid@,
                final(self).agents.agents@,
                final(self).physics.grid_size as int,
            ),
            r.agents_updated == final(self).agents.agents@.len(),
            r.interactions_calculated == final(self).agents.interaction_count,
    {
        self.physics.update_physics(&mut self.agents, dt);
        let ghost staged = self.agents.agents@;
        self.agents.process_cycle(dt, &mut self.rng);
        let ghost mid = self.agents.agents@;
        self.optimization.run(&mut self.agents);
        proof {
            let fin = self.agents.agents@;
            let gs = self.physics.grid_size as int;
            assert forall|i: int| 0 <= i < fin.len() implies (#[trigger] fin[i]).id
                == staged[i].id && fin[i].position == staged[i].position by {
                assert(cycle_rel(staged[i], mid[i], dt as int));
            }
            if crate::laws::no_colliding_pairs(
                CityPhysics::clamp_seq(
                    CityPhysics::integrate_seq(old(self).agents.agents@, dt as int),
                    old(self).physics.width as int,
                    old(self).physics.height as int,
                ),
                old(self).physics.collision_radius as int,
            ) {
                crate::laws::lemma_physics_positions_in_bounds(
                    old(self).agents.agents@,
                    dt as int,
                    old(self).physics.width as int,
                    old(self).physics.height as int,
                    old(self).physics.collision_radius as int,
                );
            }
            assert forall|cx: int, cy: int| #[trigger] crate::simulation::cell_ids(
                self.physics.spatial_grid@,
                cx,
                cy,
            ) == ids_in_cell_upto(fin, gs, cx, cy, fin.len() as int) by {
                lemma_ids_in_cell_frame(staged, fin, gs, cx, cy, staged.len() as int);
                assert(crate::simulation::cell_ids(self.physics.spatial_grid@, cx, cy)
                    == ids_in_cell_upto(staged, gs, cx, cy, staged.len() as int));
            }
        }
        let count = self.agents.get_agent_count();
        let interactions = self.agents.get_interaction_count();
        SimulationResult { agents_updated: count, interactions_calculated: interactions }
    }

    /// Position reports for every agent.
    pub fn get_agent_positions(&self) -> (r: Vec<AgentPosition>)
        ensures
            r@.len() == self.agents.agents@.len(),
    {
        self.agents.get_positions()
    }

    /// Aggregate statistics: population counts per archetype, mean energy,
    /// and the area size.
    pub fn get_simulation_stats(&self) -> (r: SimulationStats)
        requires
            self.wf(),
        ensures
            r.total_agents == self.agents.agents@.len(),
            r.citizens == AgentEngine::count_tag_upto(
                self.agents.agents@,
                AgentType::Citizen,
                self.agents.agents@.len() as int,
            ),
            r.businesses == AgentEngine::count_tag_upto(
                self.agents.agents@,
                AgentType::Business,
                self.agents.agents@.len() as int,
            ),
            r.government == AgentEngine::count_tag_upto(
                self.agents.agents@,
                AgentType::Government,
                self.agents.agents@.len() as int,
            ),
            r.avg_energy == AgentEngine::avg_energy_spec(self.agents.agents@),
            r.city_width == self.physics.width,
            r.city_height == self.physics.height,
    {
        SimulationStats {
            total_agents: self.agents.get_agent_count(),
            citizens: self.agents.get_citizen_count(),
            businesses: self.agents.get_business_count(),
            government: self.agents.get_government_count(),
            avg_energy: self.agents.get_average_energy(),
            city_width: self.physics.width,
            city_height: self.physics.height,
        }
    }
}

} // verus!
