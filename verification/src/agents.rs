//! The agent store: entity lifecycle, per-archetype state, and the
//! per-tick behaviour cycle.
//!
//! Agents of the three archetypes share one tagged type and live in a single
//! vector ordered by id; ids are assigned monotonically from a shared counter
//! and never reused, so the order is strictly increasing and ids are unique
//! across all archetypes.
use vstd::prelude::*;
use vstd::pervasive::VecAdditionalExecFns;
use crate::mathutil::{
    CAP,
    SCALE,
    sdiv,
    cap_val,
    clamp0cap,
    clamp0cap_i128,
    cap_i128,
    div_trunc,
    mul_i128,
    dist_spec,
    distance,
};
use crate::randutil::rand_below;

verus! {

/// Upper bound on the population one store may hold.
pub const MAX_AGENTS: usize = 65535;

/// Energy every agent starts with (100 world units).
pub const ENERGY_START: i64 = 100_000_000;

/// Budget a government agent starts with (10000 world units).
pub const BUDGET_START: i64 = 10_000_000_000;

/// Approval rating a government agent starts with (0.5).
pub const APPROVAL_START: i64 = 500_000;

/// Radius within which a citizen and a business interact (20 world units).
pub const INTERACTION_RADIUS: i64 = 20_000_000;

/// The three agent archetypes.
#[derive(Clone, Copy, Debug, PartialEq, Eq, Structural)]
pub enum AgentType {
    Citizen,
    Business,
    Government,
}

/// A 2D point or velocity in micro-units.
#[derive(Clone, Copy, Debug, PartialEq, Eq, Structural)]
pub struct Vec2 {
    pub x: i64,
    pub y: i64,
}

/// Citizen personality traits, each semantically in `[0, 1]`; a missing
/// trait is read as 0.5.
#[derive(Clone, Copy, Debug)]
pub struct Personality {
    pub risk_tolerance: Option<i64>,
    pub social_preference: Option<i64>,
}

/// Citizen needs, recomputed by the behaviour optimizer; absent until first
/// written.
#[derive(Clone, Copy, Debug)]
pub struct Needs {
    pub energy: Option<i64>,
    pub social: Option<i64>,
}

/// State specific to the citizen archetype.
#[derive(Clone, Debug)]
pub struct CitizenState {
    pub personality: Personality,
    pub needs: Needs,
    /// Log of decision records: each entry is the risk tolerance that drove
    /// the decision, in micro-units.
    pub decisions: Vec<i64>,
    /// Sampled learning values in `[0, 1)`, in micro-units.
    pub learning_data: Vec<i64>,
}

/// Product catalogue of a business; only the derived demand figure is
/// maintained by this core.
#[derive(Clone, Copy, Debug)]
pub struct Products {
    pub demand: Option<i64>,
}

/// State specific to the business archetype.
#[derive(Clone, Debug)]
pub struct BusinessState {
    pub business_type: String,
    pub revenue: i64,
    pub customers: u32,
    pub products: Products,
}

/// One named policy value of a government agent.
#[derive(Clone, Debug)]
pub struct Policy {
    pub name: String,
    pub value: i64,
}

/// State specific to the government archetype.
#[derive(Clone, Debug)]
pub struct GovernmentState {
    pub policies: Vec<Policy>,
    pub budget: i64,
    pub approval_rating: i64,
}

/// Archetype-specific payload of an agent.
#[derive(Clone, Debug)]
pub enum AgentKind {
    Citizen(CitizenState),
    Business(BusinessState),
    Government(GovernmentState),
}

/// One simulated agent: shared geometric state plus archetype payload.
#[derive(Clone, Debug)]
pub struct Agent {
    pub id: u32,
    pub position: Vec2,
    pub velocity: Vec2,
    pub energy: i64,
    pub kind: AgentKind,
}

/// Euclidean distance between two points given as vectors.
pub fn distance_vec(v1: Vec2, v2: Vec2) -> (r: i64)
    requires
        -CAP <= v1.x <= CAP,
        -CAP <= v1.y <= CAP,
        -CAP <= v2.x <= CAP,
        -CAP <= v2.y <= CAP,
    ensures
        r == dist_spec(v1.x as int, v1.y as int, v2.x as int, v2.y as int),
{
    distance(v1.x, v1.y, v2.x, v2.y)
}

/// Risk tolerance actually read from a personality: 0.5 when absent.
pub open spec fn eff_risk(p: Personality) -> int {
    match p.risk_tolerance {
        Some(v) => v as int,
        None => 500_000,
    }
}

/// Social preference actually read from a personality: 0.5 when absent.
pub open spec fn eff_social(p: Personality) -> int {
    match p.social_preference {
        Some(v) => v as int,
        None => 500_000,
    }
}

/// How one behaviour cycle of duration `dt` relates an agent to its updated
/// state: the deterministic fields are pinned exactly; of the randomized
/// fields (velocity, decision and learning sampling) it states every outcome
/// the generator can produce.
pub open spec fn cycle_rel(a: Agent, b: Agent, dt: int) -> bool {
    &&& b.id == a.id
    &&& b.position == a.position
    &&& match (a.kind, b.kind) {
        (AgentKind::Citizen(ca), AgentKind::Citizen(cb)) => {
            &&& b.energy == clamp0cap(a.energy - sdiv(dt, 10))
            &&& cb.personality == ca.personality
            &&& cb.needs == ca.needs
            &&& exists|vx: int, vy: int|
                {
                    &&& -SCALE <= vx < SCALE
                    &&& -SCALE <= vy < SCALE
                    &&& b.velocity.x == cap_val(
                        #[trigger] sdiv(2 * vx * eff_risk(ca.personality), SCALE as int),
                    )
                    &&& b.velocity.y == cap_val(
                        #[trigger] sdiv(2 * vy * eff_social(ca.personality), SCALE as int),
                    )
                }
            &&& (cb.decisions@ == ca.decisions@ || cb.decisions@ == ca.decisions@.push(
                eff_risk(ca.personality) as i64,
            ))
            &&& (cb.learning_data@ == ca.learning_data@ || exists|v: i64|
                0 <= v < SCALE && cb.learning_data@ == ca.learning_data@.push(v))
        },
        (AgentKind::Business(ba), AgentKind::Business(bb)) => {
            &&& b.energy == clamp0cap(a.energy - sdiv(dt, 20))
            &&& bb.business_type@ == ba.business_type@
            &&& bb.revenue == cap_val(ba.revenue + dt)
            &&& bb.customers == customers_after(ba.customers, dt)
            &&& bb.products == ba.products
            &&& -250_000 <= b.velocity.x < 250_000
            &&& -250_000 <= b.velocity.y < 250_000
        },
        (AgentKind::Government(ga), AgentKind::Government(gb)) => {
            &&& b.energy == clamp0cap(a.energy - sdiv(dt, 50))
            &&& gb.policies@ == ga.policies@
            &&& gb.budget == cap_val(ga.budget + 10 * dt)
            &&& gb.approval_rating == approval_after(ga.approval_rating as int, dt)
            &&& b.velocity == (Vec2 { x: 0, y: 0 })
        },
        _ => false,
    }
}

/// Customer count after accruing `0.1 * dt` of new customers: the exact
/// count is kept in tenth-of-micro units and truncated toward zero, then
/// saturated into the `u32` range.
pub open spec fn customers_after(c: u32, dt: int) -> int {
    let v = sdiv(c * 10_000_000 + dt, 10_000_000);
    if v < 0 {
        0
    } else if v > u32::MAX {
        u32::MAX as int
    } else {
        v
    }
}

/// Approval rating after accruing `0.001 * dt`, saturated and then clamped
/// at 1.0.
pub open spec fn approval_after(ap: int, dt: int) -> int {
    let v = cap_val(ap + sdiv(dt, 1000));
    if v > SCALE {
        SCALE as int
    } else {
        v
    }
}

/// The archetype tag of an agent.
pub open spec fn tag_of(a: Agent) -> AgentType {
    match a.kind {
        AgentKind::Citizen(_) => AgentType::Citizen,
        AgentKind::Business(_) => AgentType::Business,
        AgentKind::Government(_) => AgentType::Government,
    }
}

/// Whether an optional trait value is within the stored range.
pub open spec fn opt_ok(o: Option<i64>) -> bool {
    match o {
        Some(v) => -CAP <= v <= CAP,
        None => true,
    }
}

/// Whether every scalar of the agent is within the stored range and its
/// energy is non-negative.
pub open spec fn agent_bounded(a: Agent) -> bool {
    &&& -CAP <= a.position.x <= CAP
    &&& -CAP <= a.position.y <= CAP
    &&& -CAP <= a.velocity.x <= CAP
    &&& -CAP <= a.velocity.y <= CAP
    &&& 0 <= a.energy <= CAP
    &&& match a.kind {
        AgentKind::Citizen(c) => opt_ok(c.personality.risk_tolerance) && opt_ok(
            c.personality.social_preference,
        ),
        AgentKind::Business(b) => -CAP <= b.revenue <= CAP,
        AgentKind::Government(g) => -CAP <= g.budget <= CAP && -CAP <= g.approval_rating
            <= CAP,
    }
}

/// The store owning every agent, the id counter and the interaction count
/// of the latest behaviour cycle.
pub struct AgentEngine {
    pub agents: Vec<Agent>,
    pub next_id: u32,
    pub interaction_count: u32,
}

/// Ids strictly increase along the vector (hence are unique).
pub open spec fn ids_sorted(s: Seq<Agent>) -> bool {
    forall|i: int, j: int| 0 <= i < j < s.len() ==> s[i].id < s[j].id
}

impl AgentEngine {
    /// Store well-formedness: sorted unique ids below the counter, bounded
    /// population, bounded scalars, non-negative energy.
    pub open spec fn wf(&self) -> bool {
        &&& ids_sorted(self.agents@)
        &&& forall|i: int| 0 <= i < self.agents@.len() ==> (#[trigger] self.agents@[i]).id
            < self.next_id
        &&& self.next_id >= 1
        &&& self.agents@.len() <= MAX_AGENTS
        &&& forall|i: int| 0 <= i < self.agents@.len() ==> agent_bounded(
            #[trigger] self.agents@[i],
        )
    }

    /// An empty store; the first agent gets id 1.
    pub fn new() -> (r: AgentEngine)
        ensures
            r.wf(),
            r.agents@.len() == 0,
            r.next_id == 1,
            r.interaction_count == 0,
    {
        AgentEngine { agents: Vec::new(), next_id: 1, interaction_count: 0 }
    }

    /// Whether `a` is exactly the citizen agent an add operation creates.
    pub open spec fn is_new_citizen(a: Agent, id: u32, x: i64, y: i64, p: Personality) -> bool {
        &&& a.id == id
        &&& a.position == (Vec2 { x, y })
        &&& a.velocity == (Vec2 { x: 0, y: 0 })
        &&& a.energy == ENERGY_START
        &&& a.kind matches AgentKind::Citizen(c) && {
            &&& c.personality == p
            &&& c.needs == (Needs { energy: None, social: None })
            &&& c.decisions@ == Seq::<i64>::empty()
            &&& c.learning_data@ == Seq::<i64>::empty()
        }
    }

    /// Whether `a` is exactly the business agent an add operation creates.
    pub open spec fn is_new_business(a: Agent, id: u32, x: i64, y: i64, bt: Seq<char>) -> bool {
        &&& a.id == id
        &&& a.position == (Vec2 { x, y })
        &&& a.velocity == (Vec2 { x: 0, y: 0 })
        &&& a.energy == ENERGY_START
        &&& a.kind matches AgentKind::Business(b) && {
            &&& b.business_type@ == bt
            &&& b.revenue == 0
            &&& b.customers == 0
            &&& b.products == (Products { demand: None })
        }
    }

    /// Whether `a` is exactly the government agent an add operation creates.
    pub open spec fn is_new_government(a: Agent, id: u32, x: i64, y: i64, pol: Seq<Policy>) -> bool {
        &&& a.id == id
        &&& a.position == (Vec2 { x, y })
        &&& a.velocity == (Vec2 { x: 0, y: 0 })
        &&& a.energy == ENERGY_START
        &&& a.kind matches AgentKind::Government(g) && {
            &&& g.policies@ == pol
            &&& g.budget == BUDGET_START
            &&& g.approval_rating == APPROVAL_START
        }
    }

    proof fn lemma_push_keeps_wf(&self, a: Agent)
        requires
            self.wf(),
            a.id == self.next_id,
            self.next_id < u32::MAX,
            self.agents@.len() < MAX_AGENTS,
            agent_bounded(a),
        ensures
            ids_sorted(self.agents@.push(a)),
            forall|i: int| 0 <= i < self.agents@.push(a).len() ==> (
            #[trigger] self.agents@.push(a)[i]).id < self.next_id + 1,
            forall|i: int| 0 <= i < self.agents@.push(a).len() ==> agent_bounded(
                #[trigger] self.agents@.push(a)[i],
            ),
    {
        let s = self.agents@.push(a);
        assert forall|i: int, j: int| 0 <= i < j < s.len() implies s[i].id < s[j].id by {
            if j < self.agents@.len() {
                assert(self.agents@[i].id < self.agents@[j].id);
            } else {
                assert(s[j] == a);
                assert(self.agents@[i].id < self.next_id);
            }
        }
    }

    /// Allocate the next id and insert a citizen at `(x, y)` with the given
    /// personality, default energy and zero velocity.
    pub fn add_citizen(&mut self, x: i64, y: i64, personality: Personality) -> (r: u32)
        requires
            old(self).wf(),
            old(self).next_id < u32::MAX,
            old(self).agents@.len() < MAX_AGENTS,
            -CAP <= x <= CAP,
            -CAP <= y <= CAP,
            opt_ok(personality.risk_tolerance),
            opt_ok(personality.social_preference),
        ensures
            final(self).wf(),
            r == old(self).next_id,
            final(self).next_id == old(self).next_id + 1,
            final(self).interaction_count == old(self).interaction_count,
            final(self).agents@.len() == old(self).agents@.len() + 1,
            final(self).agents@.subrange(0, old(self).agents@.len() as int) == old(self).agents@,
            AgentEngine::is_new_citizen(
                final(self).agents@.last(),
                r,
                x,
                y,
                personality,
            ),
    {
        let id = self.next_id;
        self.next_id = self.next_id + 1;
        let agent = Agent {
            id,
            position: Vec2 { x, y },
            velocity: Vec2 { x: 0, y: 0 },
            energy: ENERGY_START,
            kind: AgentKind::Citizen(
                CitizenState {
                    personality,
                    needs: Needs { energy: None, social: None },
                    decisions: Vec::new(),
                    learning_data: Vec::new(),
                },
            ),
        };
        proof {
            old(self).lemma_push_keeps_wf(agent);
        }
        self.agents.push(agent);
        id
    }

    /// Allocate the next id and insert a business at `(x, y)` of the given
    /// type, with zero revenue and no customers.
    pub fn add_business(&mut self, x: i64, y: i64, business_type: String) -> (r: u32)
        requires
            old(self).wf(),
            old(self).next_id < u32::MAX,
            old(self).agents@.len() < MAX_AGENTS,
            -CAP <= x <= CAP,
            -CAP <= y <= CAP,
        ensures
            final(self).wf(),
            r == old(self).next_id,
            final(self).next_id == old(self).next_id + 1,
            final(self).interaction_count == old(self).interaction_count,
            final(self).agents@.len() == old(self).agents@.len() + 1,
            final(self).agents@.subrange(0, old(self).agents@.len() as int) == old(self).agents@,
            AgentEngine::is_new_business(
                final(self).agents@.last(),
                r,
                x,
                y,
                business_type@,
            ),
    {
        let id = self.next_id;
        self.next_id = self.next_id + 1;
        let agent = Agent {
            id,
            position: Vec2 { x, y },
            velocity: Vec2 { x: 0, y: 0 },
            energy: ENERGY_START,
            kind: AgentKind::Business(
                BusinessState {
                    business_type,
                    revenue: 0,
                    customers: 0,
                    products: Products { demand: None },
                },
            ),
        };
        proof {
            old(self).lemma_push_keeps_wf(agent);
        }
        self.agents.push(agent);
        id
    }

    /// Allocate the next id and insert a government agent at `(x, y)` with
    /// the given policies, default budget and approval rating.
    pub fn add_government(&mut self, x: i64, y: i64, policies: Vec<Policy>) -> (r: u32)
        requires
            old(self).wf(),
            old(self).next_id < u32::MAX,
            old(self).agents@.len() < MAX_AGENTS,
            -CAP <= x <= CAP,
            -CAP <= y <= CAP,
        ensures
            final(self).wf(),
            r == old(self).next_id,
            final(self).next_id == old(self).next_id + 1,
            final(self).interaction_count == old(self).interaction_count,
            final(self).agents@.len() == old(self).agents@.len() + 1,
            final(self).agents@.subrange(0, old(self).agents@.len() as int) == old(self).agents@,
            AgentEngine::is_new_government(
                final(self).agents@.last(),
                r,
                x,
                y,
                policies@,
            ),
    {
        let id = self.next_id;
        self.next_id = self.next_id + 1;
        let agent = Agent {
            id,
            position: Vec2 { x, y },
            velocity: Vec2 { x: 0, y: 0 },
            energy: ENERGY_START,
            kind: AgentKind::Government(
                GovernmentState { policies, budget: BUDGET_START, approval_rating: APPROVAL_START },
            ),
        };
        proof {
            old(self).lemma_push_keeps_wf(agent);
        }
        self.agents.push(agent);
        id
    }

    /// Remove the agent with the given id from whichever archetype holds it;
    /// returns whether anything was removed.
    pub fn remove(&mut self, id: u32) -> (r: bool)
        requires
            old(self).wf(),
        ensures
            final(self).wf(),
            final(self).next_id == old(self).next_id,
            final(self).interaction_count == old(self).interaction_count,
            r <==> exists|k: int|
                0 <= k < old(self).agents@.len() && (#[trigger] old(self).agents@[k]).id == id,
            r ==> exists|k: int|
                0 <= k < old(self).agents@.len() && (#[trigger] old(self).agents@[k]).id == id
                    && final(self).agents@ == old(self).agents@.remove(k),
            !r ==> final(self).agents@ == old(self).agents@,
    {
        let n = self.agents.len();
        let mut i: usize = 0;
        while i < n
            invariant
                n == self.agents@.len(),
                0 <= i <= n,
                *self == *old(self),
                self.wf(),
                forall|k: int| 0 <= k < i ==> (#[trigger] self.agents@[k]).id != id,
            decreases n - i,
        {
            if self.agents[i].id == id {
                let ghost pre = self.agents@;
                self.agents.remove(i);
                proof {
                    let s = self.agents@;
                    assert(s == pre.remove(i as int));
                    assert forall|a: int, b: int| 0 <= a < b < s.len() implies s[a].id
                        < s[b].id by {
                        let a0 = if a < i { a } else { a + 1 };
                        let b0 = if b < i { b } else { b + 1 };
                        assert(s[a] == pre[a0] && s[b] == pre[b0]);
                        assert(pre[a0].id < pre[b0].id);
                    }
                    assert forall|k: int| 0 <= k < s.len() implies (#[trigger] s[k]).id
                        < self.next_id && agent_bounded(s[k]) by {
                        let k0 = if k < i { k } else { k + 1 };
                        assert(s[k] == pre[k0]);
                    }
                }
                return true;
            }
            i = i + 1;
        }
        false
    }

    /// Number of agents whose archetype is `t` among the first `n`.
    pub open spec fn count_tag_upto(s: Seq<Agent>, t: AgentType, n: int) -> int
        decreases n,
    {
        if n <= 0 {
            0
        } else {
            AgentEngine::count_tag_upto(s, t, n - 1) + if tag_of(s[n - 1]) == t {
                1int
            } else {
                0int
            }
        }
    }

    proof fn lemma_count_tag_le(s: Seq<Agent>, t: AgentType, n: int)
        requires
            n >= 0,
        ensures
            0 <= AgentEngine::count_tag_upto(s, t, n) <= n,
        decreases n,
    {
        if n > 0 {
            AgentEngine::lemma_count_tag_le(s, t, n - 1);
        }
    }

    fn count_tag(&self, t: AgentType) -> (r: u32)
        requires
            self.agents@.len() <= u32::MAX,
        ensures
            r == AgentEngine::count_tag_upto(self.agents@, t, self.agents@.len() as int),
    {
        let n = self.agents.len();
        let mut count: u32 = 0;
        let mut i: usize = 0;
        while i < n
            invariant
                n == self.agents@.len() <= u32::MAX,
                0 <= i <= n,
                count == AgentEngine::count_tag_upto(self.agents@, t, i as int),
            decreases n - i,
        {
            proof {
                AgentEngine::lemma_count_tag_le(self.agents@, t, i as int);
            }
            let matches_tag = match (&self.agents[i].kind, t) {
                (AgentKind::Citizen(_), AgentType::Citizen) => true,
                (AgentKind::Business(_), AgentType::Business) => true,
                (AgentKind::Government(_), AgentType::Government) => true,
                _ => false,
            };
            if matches_tag {
                count = count + 1;
            }
            i = i + 1;
        }
        count
    }

    /// Total number of agents of all archetypes.
    pub fn get_agent_count(&self) -> (r: u32)
        requires
            self.agents@.len() <= u32::MAX,
        ensures
            r == self.agents@.len(),
    {
        self.agents.len() as u32
    }

    /// Number of citizen agents.
    pub fn get_citizen_count(&self) -> (r: u32)
        requires
            self.agents@.len() <= u32::MAX,
        ensures
            r == AgentEngine::count_tag_upto(
                self.agents@,
                AgentType::Citizen,
                self.agents@.len() as int,
            ),
    {
        self.count_tag(AgentType::Citizen)
    }

    /// Number of business agents.
    pub fn get_business_count(&self) -> (r: u32)
        requires
            self.agents@.len() <= u32::MAX,
        ensures
            r == AgentEngine::count_tag_upto(
                self.agents@,
                AgentType::Business,
                self.agents@.len() as int,
            ),
    {
        self.count_tag(AgentType::Business)
    }

    /// Number of government agents.
    pub fn get_government_count(&self) -> (r: u32)
        requires
            self.agents@.len() <= u32::MAX,
        ensures
            r == AgentEngine::count_tag_upto(
                self.agents@,
                AgentType::Government,
                self.agents@.len() as int,
            ),
    {
        self.count_tag(AgentType::Government)
    }

    /// Interaction count computed by the latest behaviour cycle.
    pub fn get_interaction_count(&self) -> (r: u32)
        ensures
            r == self.interaction_count,
    {
        self.interaction_count
    }

    /// Total energy of the first `n` agents.
    pub open spec fn sum_energy_upto(s: Seq<Agent>, n: int) -> int
        decreases n,
    {
        if n <= 0 {
            0
        } else {
            AgentEngine::sum_energy_upto(s, n - 1) + s[n - 1].energy
        }
    }

    /// Mean energy across all agents; zero for an empty store.
    pub open spec fn avg_energy_spec(s: Seq<Agent>) -> int {
        if s.len() == 0 {
            0
        } else {
            sdiv(AgentEngine::sum_energy_upto(s, s.len() as int), s.len() as int)
        }
    }

    proof fn lemma_sum_energy_bounds(s: Seq<Agent>, n: int)
        requires
            0 <= n <= s.len(),
            forall|i: int| 0 <= i < s.len() ==> agent_bounded(#[trigger] s[i]),
        ensures
            0 <= AgentEngine::sum_energy_upto(s, n) <= n * CAP,
        decreases n,
    {
        if n > 0 {
            AgentEngine::lemma_sum_energy_bounds(s, n - 1);
            assert(agent_bounded(s[n - 1]));
            assert((n - 1) * CAP + CAP == n * CAP) by (nonlinear_arith);
        }
    }

    /// Mean energy across all agents, 0 for an empty store.
    pub fn get_average_energy(&self) -> (r: i64)
        requires
            self.wf(),
        ensures
            r == AgentEngine::avg_energy_spec(self.agents@),
            0 <= r <= CAP,
    {
        let n = self.agents.len();
        if n == 0 {
            return 0;
        }
        let mut total: i128 = 0;
        let mut i: usize = 0;
        while i < n
            invariant
                self.wf(),
                n == self.agents@.len(),
                0 <= i <= n,
                total == AgentEngine::sum_energy_upto(self.agents@, i as int),
                0 <= total <= (i as int) * CAP,
            decreases n - i,
        {
            proof {
                AgentEngine::lemma_sum_energy_bounds(self.agents@, i as int);
                assert(agent_bounded(self.agents@[i as int]));
                assert((i as int) * CAP + CAP == (i as int + 1) * CAP) by (nonlinear_arith);
                assert((i as int + 1) * CAP <= (n as int) * CAP) by (nonlinear_arith)
                    requires
                        i as int + 1 <= n as int,
                        CAP > 0,
                ;
                assert((n as int) * CAP <= 0xffff_ffff_ffff_ffff * (CAP as int))
                    by (nonlinear_arith)
                    requires
                        n as int <= 0xffff_ffff_ffff_ffff,
                        CAP > 0,
                ;
            }
            total = total + self.agents[i].energy as i128;
            i = i + 1;
        }
        proof {
            assert((n as int) * CAP <= 0xffff_ffff_ffff_ffff * (CAP as int)) by (nonlinear_arith)
                requires
                    n as int <= 0xffff_ffff_ffff_ffff,
                    CAP > 0,
            ;
        }
        let avg: u128 = (total as u128) / (n as u128);
        proof {
            vstd::arithmetic::div_mod::lemma_div_is_ordered(
                total as int,
                (n as int) * CAP,
                n as int,
            );
            assert(((n as int) * CAP) / (n as int) == CAP) by (nonlinear_arith)
                requires
                    n as int >= 1,
                    CAP > 0,
            ;
            vstd::arithmetic::div_mod::lemma_div_is_ordered(0, total as int, n as int);
        }
        avg as i64
    }

    /// A throwaway agent used to swap store slots during in-place updates.
    pub(crate) fn placeholder() -> (r: Agent)
        ensures
            agent_bounded(r),
    {
        Agent {
            id: 0,
            position: Vec2 { x: 0, y: 0 },
            velocity: Vec2 { x: 0, y: 0 },
            energy: 0,
            kind: AgentKind::Citizen(
                CitizenState {
                    personality: Personality { risk_tolerance: None, social_preference: None },
                    needs: Needs { energy: None, social: None },
                    decisions: Vec::new(),
                    learning_data: Vec::new(),
                },
            ),
        }
    }

    /// Energy after subtracting `dt / divisor`, clamped at zero (and
    /// saturated at the stored range).
    fn decayed(e: i64, dt: i64, divisor: i64) -> (r: i64)
        requires
            divisor > 0,
        ensures
            r == clamp0cap(e - sdiv(dt as int, divisor as int)),
    {
        let q = div_trunc(dt as i128, divisor as i128);
        clamp0cap_i128(e as i128 - q)
    }

    /// One behaviour-cycle update of a single agent, independent of every
    /// other agent.
    fn cycle_agent(a: Agent, dt: i64, rng: &mut rand::rngs::StdRng) -> (r: Agent)
        requires
            agent_bounded(a),
        ensures
            cycle_rel(a, r, dt as int),
            agent_bounded(r),
    {
        match a.kind {
            AgentKind::Citizen(mut c) => {
                let energy = AgentEngine::decayed(a.energy, dt, 10);
                let rt = match c.personality.risk_tolerance {
                    Some(v) => v,
                    None => 500_000,
                };
                let sp = match c.personality.social_preference {
                    Some(v) => v,
                    None => 500_000,
                };
                let vxr = rand_below(rng, 2_000_000) as i64 - SCALE;
                let vyr = rand_below(rng, 2_000_000) as i64 - SCALE;
                let vx = crate::mathutil::mul_div_cap(2 * vxr, rt, SCALE);
                let vy = crate::mathutil::mul_div_cap(2 * vyr, sp, SCALE);
                let p_decide = rand_below(rng, 1_000_000);
                if p_decide < 100_000 {
                    c.decisions.push(rt);
                }
                let p_learn = rand_below(rng, 1_000_000);
                if p_learn < 50_000 {
                    let sample = rand_below(rng, 1_000_000) as i64;
                    c.learning_data.push(sample);
                }
                let out = Agent {
                    id: a.id,
                    position: a.position,
                    velocity: Vec2 { x: vx, y: vy },
                    energy,
                    kind: AgentKind::Citizen(c),
                };
                proof {
                    assert(rt == eff_risk(
                        out.kind->Citizen_0.personality,
                    ) && sp == eff_social(out.kind->Citizen_0.personality));
                    assert(-SCALE <= vxr < SCALE && -SCALE <= vyr < SCALE);
                    assert(vx == cap_val(
                        sdiv(
                            2 * (vxr as int) * eff_risk(out.kind->Citizen_0.personality),
                            SCALE as int,
                        ),
                    ));
                }
                out
            },
            AgentKind::Business(b) => {
                let energy = AgentEngine::decayed(a.energy, dt, 20);
                let revenue = cap_i128(b.revenue as i128 + dt as i128);
                let num: i128 = (b.customers as i128) * 10_000_000 + dt as i128;
                let v = div_trunc(num, 10_000_000);
                let customers: u32 = if v < 0 {
                    0
                } else if v > u32::MAX as i128 {
                    u32::MAX
                } else {
                    v as u32
                };
                let vx = rand_below(rng, 500_000) as i64 - 250_000;
                let vy = rand_below(rng, 500_000) as i64 - 250_000;
                Agent {
                    id: a.id,
                    position: a.position,
                    velocity: Vec2 { x: vx, y: vy },
                    energy,
                    kind: AgentKind::Business(
                        BusinessState {
                            business_type: b.business_type,
                            revenue,
                            customers,
                            products: b.products,
                        },
                    ),
                }
            },
            AgentKind::Government(g) => {
                let energy = AgentEngine::decayed(a.energy, dt, 50);
                let budget = cap_i128(g.budget as i128 + 10 * dt as i128);
                let q = div_trunc(dt as i128, 1000);
                let ap1 = cap_i128(g.approval_rating as i128 + q);
                let approval_rating = if ap1 > SCALE {
                    SCALE
                } else {
                    ap1
                };
                Agent {
                    id: a.id,
                    position: a.position,
                    velocity: Vec2 { x: 0, y: 0 },
                    energy,
                    kind: AgentKind::Government(
                        GovernmentState { policies: g.policies, budget, approval_rating },
                    ),
                }
            },
        }
    }

    /// One full behaviour cycle: every agent gets its archetype's passive
    /// decay and stochastic update, independent of the others, and the
    /// interaction count is then recomputed from the resulting state.
    pub fn process_cycle(&mut self, dt: i64, rng: &mut rand::rngs::StdRng)
        requires
            old(self).wf(),
        ensures
            final(self).wf(),
            final(self).agents@.len() == old(self).agents@.len(),
            final(self).next_id == old(self).next_id,
            forall|i: int| 0 <= i < old(self).agents@.len() ==> cycle_rel(
                old(self).agents@[i],
                #[trigger] final(self).agents@[i],
                dt as int,
            ),
            final(self).interaction_count == AgentEngine::interactions_spec(
                final(self).agents@,
            ),
    {
        let n = self.agents.len();
        let mut i: usize = 0;
        while i < n
            invariant
                old(self).wf(),
                n == self.agents@.len() == old(self).agents@.len(),
                0 <= i <= n,
                self.next_id == old(self).next_id,
                self.interaction_count == old(self).interaction_count,
                forall|k: int| 0 <= k < self.agents@.len() ==> agent_bounded(
                    #[trigger] self.agents@[k],
                ),
                forall|k: int| 0 <= k < self.agents@.len() ==> (#[trigger] self.agents@[k]).id
                    == old(self).agents@[k].id,
                forall|k: int| 0 <= k < i ==> cycle_rel(
                    old(self).agents@[k],
                    #[trigger] self.agents@[k],
                    dt as int,
                ),
                forall|k: int| i <= k < n ==> #[trigger] self.agents@[k] == old(
                    self,
                ).agents@[k],
            decreases n - i,
        {
            let mut tmp = AgentEngine::placeholder();
            self.agents.set_and_swap(i, &mut tmp);
            let upd = AgentEngine::cycle_agent(tmp, dt, rng);
            self.agents.set(i, upd);
            i = i + 1;
        }
        proof {
            assert forall|a: int, b: int| 0 <= a < b < self.agents@.len() implies self.agents@[a].id
                < self.agents@[b].id by {
                assert(old(self).agents@[a].id < old(self).agents@[b].id);
            }
            assert forall|k: int| 0 <= k < self.agents@.len() implies (
            #[trigger] self.agents@[k]).id < self.next_id by {
                assert(old(self).agents@[k].id < old(self).next_id);
            }
        }
        self.calculate_interactions();
    }

    /// The positions of all agents, in store order.
    pub open spec fn positions_of(s: Seq<Agent>) -> Seq<Vec2> {
        Seq::new(s.len(), |i: int| s[i].position)
    }

    /// One pairwise separation: if the snapshot distance of agents `i` and
    /// `j` is below twice the collision radius, each is pushed half the
    /// overlap along the separating direction (unit x when the snapshot
    /// positions coincide); distances and directions come from the snapshot,
    /// the push applies to the current positions.
    pub open spec fn collide_step(s: Seq<Agent>, snap: Seq<Vec2>, i: int, j: int, r: int) -> Seq<
        Agent,
    > {
        let dx = snap[j].x - snap[i].x;
        let dy = snap[j].y - snap[i].y;
        let dist = dist_spec(snap[i].x as int, snap[i].y as int, snap[j].x as int, snap[j].y as int);
        if dist < 2 * r {
            let sep = sdiv(2 * r - dist, 2);
            let ux = if dist == 0 {
                SCALE as int
            } else {
                sdiv(dx * SCALE, dist)
            };
            let uy = if dist == 0 {
                0int
            } else {
                sdiv(dy * SCALE, dist)
            };
            let ddx = sdiv(sep * ux, SCALE as int);
            let ddy = sdiv(sep * uy, SCALE as int);
            let ai = s[i];
            let aj = s[j];
            s.update(
                i,
                Agent {
                    position: Vec2 {
                        x: cap_val(ai.position.x - ddx) as i64,
                        y: cap_val(ai.position.y - ddy) as i64,
                    },
                    ..ai
                },
            ).update(
                j,
                Agent {
                    position: Vec2 {
                        x: cap_val(aj.position.x + ddx) as i64,
                        y: cap_val(aj.position.y + ddy) as i64,
                    },
                    ..aj
                },
            )
        } else {
            s
        }
    }

    /// Separations of agent `i` against the agents from `j` on.
    pub open spec fn collide_inner(s: Seq<Agent>, snap: Seq<Vec2>, i: int, j: int, r: int) -> Seq<
        Agent,
    >
        decreases snap.len() - j,
    {
        if j >= snap.len() {
            s
        } else {
            AgentEngine::collide_inner(
                AgentEngine::collide_step(s, snap, i, j, r),
                snap,
                i,
                j + 1,
                r,
            )
        }
    }

    /// Separations of every unordered pair whose first index is `i` or more.
    pub open spec fn collide_outer(s: Seq<Agent>, snap: Seq<Vec2>, i: int, r: int) -> Seq<Agent>
        decreases snap.len() - i,
    {
        if i >= snap.len() {
            s
        } else {
            AgentEngine::collide_outer(
                AgentEngine::collide_inner(s, snap, i, i + 1, r),
                snap,
                i + 1,
                r,
            )
        }
    }

    /// The whole pairwise collision pass over a store state.
    pub open spec fn collide_all(s: Seq<Agent>, r: int) -> Seq<Agent> {
        AgentEngine::collide_outer(s, AgentEngine::positions_of(s), 0, r)
    }

    /// Resolve every pairwise overlap: for every unordered pair closer (in
    /// the pre-pass snapshot) than twice the radius, push both agents apart
    /// symmetrically by half the overlap each.
    pub fn handle_collisions(&mut self, collision_radius: i64)
        requires
            old(self).wf(),
            0 <= collision_radius <= CAP,
        ensures
            final(self).wf(),
            final(self).next_id == old(self).next_id,
            final(self).interaction_count == old(self).interaction_count,
            final(self).agents@.len() == old(self).agents@.len(),
            final(self).agents@ == AgentEngine::collide_all(
                old(self).agents@,
                collision_radius as int,
            ),
            forall|k: int| 0 <= k < old(self).agents@.len() ==> {
                let b = #[trigger] final(self).agents@[k];
                let a = old(self).agents@[k];
                b.id == a.id && b.velocity == a.velocity && b.energy == a.energy && b.kind
                    == a.kind
            },
    {
        let n = self.agents.len();
        let mut snap: Vec<Vec2> = Vec::new();
        let mut si: usize = 0;
        while si < n
            invariant
                old(self).wf(),
                *self == *old(self),
                n == self.agents@.len(),
                0 <= si <= n,
                snap@.len() == si,
                forall|k: int| 0 <= k < si ==> #[trigger] snap@[k] == self.agents@[k].position,
            decreases n - si,
        {
            snap.push(self.agents[si].position);
            si = si + 1;
        }
        proof {
            assert(snap@ =~= AgentEngine::positions_of(old(self).agents@));
        }
        let ghost target = AgentEngine::collide_outer(
            old(self).agents@,
            snap@,
            0,
            collision_radius as int,
        );
        let mut i: usize = 0;
        while i < n
            invariant
                old(self).wf(),
                0 <= collision_radius <= CAP,
                n == self.agents@.len() == old(self).agents@.len(),
                snap@.len() == n,
                forall|k: int| 0 <= k < n ==> #[trigger] snap@[k] == old(
                    self,
                ).agents@[k].position,
                0 <= i <= n,
                self.next_id == old(self).next_id,
                self.interaction_count == old(self).interaction_count,
                AgentEngine::collide_outer(self.agents@, snap@, i as int, collision_radius as int)
                    == target,
                forall|k: int| 0 <= k < n ==> {
                    let b = #[trigger] self.agents@[k];
                    let a = old(self).agents@[k];
                    b.id == a.id && b.velocity == a.velocity && b.energy == a.energy && b.kind
                        == a.kind && agent_bounded(b)
                },
            decreases n - i,
        {
            let mut j: usize = i + 1;
            while j < n
                invariant
                    old(self).wf(),
                    0 <= collision_radius <= CAP,
                    n == self.agents@.len() == old(self).agents@.len(),
                    snap@.len() == n,
                    forall|k: int| 0 <= k < n ==> #[trigger] snap@[k] == old(
                        self,
                    ).agents@[k].position,
                    0 <= i < n,
                    i < j <= n,
                    self.next_id == old(self).next_id,
                    self.interaction_count == old(self).interaction_count,
                    AgentEngine::collide_outer(
                        AgentEngine::collide_inner(
                            self.agents@,
                            snap@,
                            i as int,
                            j as int,
                            collision_radius as int,
                        ),
                        snap@,
                        i as int + 1,
                        collision_radius as int,
                    ) == target,
                    forall|k: int| 0 <= k < n ==> {
                        let b = #[trigger] self.agents@[k];
                        let a = old(self).agents@[k];
                        b.id == a.id && b.velocity == a.velocity && b.energy == a.energy && b.kind
                            == a.kind && agent_bounded(b)
                    },
                decreases n - j,
            {
                let ghost pre = self.agents@;
                let pi = snap[i];
                let pj = snap[j];
                proof {
                    assert(agent_bounded(old(self).agents@[i as int]));
                    assert(agent_bounded(old(self).agents@[j as int]));
                }
                let d = distance(pi.x, pi.y, pj.x, pj.y);
                if d < 2 * collision_radius {
                    let sep: i128 = div_trunc(
                        2 * (collision_radius as i128) - d as i128,
                        2,
                    );
                    let dx: i128 = pj.x as i128 - pi.x as i128;
                    let dy: i128 = pj.y as i128 - pi.y as i128;
                    let ux: i128;
                    let uy: i128;
                    if d == 0 {
                        ux = SCALE as i128;
                        uy = 0;
                    } else {
                        ux = div_trunc(dx * SCALE as i128, d as i128);
                        uy = div_trunc(dy * SCALE as i128, d as i128);
                    }
                    let ddx = crate::mathutil::mul_sdiv_scale(sep, ux);
                    let ddy = crate::mathutil::mul_sdiv_scale(sep, uy);
                    let mut ta = AgentEngine::placeholder();
                    self.agents.set_and_swap(i, &mut ta);
                    let na = Agent {
                        position: Vec2 {
                            x: cap_i128(ta.position.x as i128 - ddx),
                            y: cap_i128(ta.position.y as i128 - ddy),
                        },
                        ..ta
                    };
                    self.agents.set(i, na);
                    let mut tb = AgentEngine::placeholder();
                    self.agents.set_and_swap(j, &mut tb);
                    let nb = Agent {
                        position: Vec2 {
                            x: cap_i128(tb.position.x as i128 + ddx),
                            y: cap_i128(tb.position.y as i128 + ddy),
                        },
                        ..tb
                    };
                    self.agents.set(j, nb);
                    proof {
                        assert(self.agents@ =~= AgentEngine::collide_step(
                            pre,
                            snap@,
                            i as int,
                            j as int,
                            collision_radius as int,
                        ));
                    }
                } else {
                    proof {
                        assert(self.agents@ == AgentEngine::collide_step(
                            pre,
                            snap@,
                            i as int,
                            j as int,
                            collision_radius as int,
                        ));
                    }
                }
                j = j + 1;
            }
            i = i + 1;
        }
        proof {
            assert forall|a: int, b: int| 0 <= a < b < self.agents@.len() implies self.agents@[a].id
                < self.agents@[b].id by {
                assert(old(self).agents@[a].id < old(self).agents@[b].id);
            }
            assert forall|k: int| 0 <= k < self.agents@.len() implies (
            #[trigger] self.agents@[k]).id < self.next_id by {
                assert(old(self).agents@[k].id < old(self).next_id);
            }
        }
    }

    /// Citizen-business pairs within the interaction radius, counting the
    /// pair `(i, j)` when agent `i` is the citizen and `j` the business.
    pub open spec fn inter_pair(s: Seq<Agent>, i: int, j: int) -> int {
        if tag_of(s[i]) == AgentType::Citizen && tag_of(s[j]) == AgentType::Business
            && dist_spec(
            s[i].position.x as int,
            s[i].position.y as int,
            s[j].position.x as int,
            s[j].position.y as int,
        ) < INTERACTION_RADIUS {
            1
        } else {
            0
        }
    }

    /// Interactions of agent `i` with the first `m` agents as businesses.
    pub open spec fn inter_inner(s: Seq<Agent>, i: int, m: int) -> int
        decreases m,
    {
        if m <= 0 {
            0
        } else {
            AgentEngine::inter_inner(s, i, m - 1) + AgentEngine::inter_pair(s, i, m - 1)
        }
    }

    /// Interactions contributed by the first `n` agents as citizens.
    pub open spec fn inter_upto(s: Seq<Agent>, n: int) -> int
        decreases n,
    {
        if n <= 0 {
            0
        } else {
            AgentEngine::inter_upto(s, n - 1) + AgentEngine::inter_inner(
                s,
                n - 1,
                s.len() as int,
            )
        }
    }

    /// Number of (citizen, business) pairs within the interaction radius.
    pub open spec fn interactions_spec(s: Seq<Agent>) -> int {
        AgentEngine::inter_upto(s, s.len() as int)
    }

    proof fn lemma_inter_inner_le(s: Seq<Agent>, i: int, m: int)
        requires
            m >= 0,
        ensures
            0 <= AgentEngine::inter_inner(s, i, m) <= m,
        decreases m,
    {
        if m > 0 {
            AgentEngine::lemma_inter_inner_le(s, i, m - 1);
        }
    }

    proof fn lemma_inter_upto_le(s: Seq<Agent>, n: int)
        requires
            n >= 0,
        ensures
            0 <= AgentEngine::inter_upto(s, n) <= n * s.len(),
        decreases n,
    {
        if n > 0 {
            AgentEngine::lemma_inter_upto_le(s, n - 1);
            AgentEngine::lemma_inter_inner_le(s, n - 1, s.len() as int);
            assert((n - 1) * s.len() + s.len() == n * s.len()) by (nonlinear_arith);
        }
    }

    /// Recompute `interaction_count` by the O(citizens x businesses) scan.
    fn calculate_interactions(&mut self)
        requires
            old(self).wf(),
        ensures
            final(self).agents == old(self).agents,
            final(self).next_id == old(self).next_id,
            final(self).wf(),
            final(self).interaction_count == AgentEngine::interactions_spec(
                final(self).agents@,
            ),
    {
        let n = self.agents.len();
        let mut count: u64 = 0;
        let mut i: usize = 0;
        while i < n
            invariant
                self.wf(),
                *self == *old(self),
                n == self.agents@.len(),
                0 <= i <= n,
                count == AgentEngine::inter_upto(self.agents@, i as int),
                0 <= count <= (i as int) * n,
            decreases n - i,
        {
            let ghost s = self.agents@;
            let mut j: usize = 0;
            let mut row: u64 = 0;
            while j < n
                invariant
                    self.wf(),
                    *self == *old(self),
                    n == self.agents@.len(),
                    0 <= i < n,
                    0 <= j <= n,
                    row == AgentEngine::inter_inner(self.agents@, i as int, j as int),
                    0 <= row <= j,
                decreases n - j,
            {
                let ci = &self.agents[i];
                let cj = &self.agents[j];
                let is_citizen = match &ci.kind {
                    AgentKind::Citizen(_) => true,
                    _ => false,
                };
                let is_business = match &cj.kind {
                    AgentKind::Business(_) => true,
                    _ => false,
                };
                proof {
                    assert(agent_bounded(self.agents@[i as int]));
                    assert(agent_bounded(self.agents@[j as int]));
                }
                if is_citizen && is_business {
                    let d = distance(
                        ci.position.x,
                        ci.position.y,
                        cj.position.x,
                        cj.position.y,
                    );
                    if d < INTERACTION_RADIUS {
                        row = row + 1;
                    }
                }
                j = j + 1;
            }
            proof {
                AgentEngine::lemma_inter_upto_le(self.agents@, i as int);
                assert((i as int) * n + n == (i as int + 1) * n) by (nonlinear_arith);
                assert((i as int + 1) * (n as int) <= 65536 * 65535) by (nonlinear_arith)
                    requires
                        0 <= i as int,
                        (i as int) < (n as int),
                        (n as int) <= 65535,
                ;
            }
            count = count + row;
            i = i + 1;
        }
        proof {
            AgentEngine::lemma_inter_upto_le(self.agents@, n as int);
            assert((n as int) * (n as int) < 0x1_0000_0000) by (nonlinear_arith)
                requires
                    0 <= n as int <= 65535,
            ;
        }
        self.interaction_count = count as u32;
    }

    /// The agent with its position advanced by `velocity * dt`.
    pub open spec fn integrated(a: Agent, dt: int) -> Agent {
        Agent {
            position: Vec2 {
                x: cap_val(a.position.x + sdiv(a.velocity.x * dt, SCALE as int)) as i64,
                y: cap_val(a.position.y + sdiv(a.velocity.y * dt, SCALE as int)) as i64,
            },
            ..a
        }
    }

    /// Advance every position by its velocity over `dt`.
    pub fn update_positions(&mut self, dt: i64)
        requires
            old(self).wf(),
        ensures
            final(self).wf(),
            final(self).next_id == old(self).next_id,
            final(self).interaction_count == old(self).interaction_count,
            final(self).agents@.len() == old(self).agents@.len(),
            forall|i: int| 0 <= i < old(self).agents@.len() ==> #[trigger] final(self).agents@[i]
                == AgentEngine::integrated(old(self).agents@[i], dt as int),
    {
        let n = self.agents.len();
        let mut i: usize = 0;
        while i < n
            invariant
                old(self).wf(),
                n == self.agents@.len() == old(self).agents@.len(),
                0 <= i <= n,
                self.next_id == old(self).next_id,
                self.interaction_count == old(self).interaction_count,
                forall|k: int| 0 <= k < i ==> #[trigger] self.agents@[k]
                    == AgentEngine::integrated(old(self).agents@[k], dt as int),
                forall|k: int| i <= k < n ==> #[trigger] self.agents@[k] == old(
                    self,
                ).agents@[k],
            decreases n - i,
        {
            let mut tmp = AgentEngine::placeholder();
            self.agents.set_and_swap(i, &mut tmp);
            let qx = div_trunc(mul_i128(tmp.velocity.x, dt), SCALE as i128);
            let qy = div_trunc(mul_i128(tmp.velocity.y, dt), SCALE as i128);
            let nx = cap_i128(tmp.position.x as i128 + qx);
            let ny = cap_i128(tmp.position.y as i128 + qy);
            let upd = Agent { position: Vec2 { x: nx, y: ny }, ..tmp };
            self.agents.set(i, upd);
            i = i + 1;
        }
        proof {
            assert forall|a: int, b: int| 0 <= a < b < self.agents@.len() implies self.agents@[a].id
                < self.agents@[b].id by {
                assert(old(self).agents@[a].id < old(self).agents@[b].id);
            }
            assert forall|k: int| 0 <= k < self.agents@.len() implies (
            #[trigger] self.agents@[k]).id < self.next_id && agent_bounded(self.agents@[k]) by {
                assert(agent_bounded(old(self).agents@[k]));
                assert(old(self).agents@[k].id < old(self).next_id);
            }
        }
    }

    /// The agent with its position clamped into `[0, w] x [0, h]`.
    pub open spec fn clamped(a: Agent, w: int, h: int) -> Agent {
        Agent {
            position: Vec2 {
                x: crate::mathutil::clamp_val(a.position.x as int, 0, w) as i64,
                y: crate::mathutil::clamp_val(a.position.y as int, 0, h) as i64,
            },
            ..a
        }
    }

    /// Clamp every position into the bounded area.
    pub fn apply_boundary_constraints(&mut self, width: i64, height: i64)
        requires
            old(self).wf(),
            0 <= width <= CAP,
            0 <= height <= CAP,
        ensures
            final(self).wf(),
            final(self).next_id == old(self).next_id,
            final(self).interaction_count == old(self).interaction_count,
            final(self).agents@.len() == old(self).agents@.len(),
            forall|i: int| 0 <= i < old(self).agents@.len() ==> #[trigger] final(self).agents@[i]
                == AgentEngine::clamped(old(self).agents@[i], width as int, height as int),
    {
        let n = self.agents.len();
        let mut i: usize = 0;
        while i < n
            invariant
                old(self).wf(),
                0 <= width <= CAP,
                0 <= height <= CAP,
                n == self.agents@.len() == old(self).agents@.len(),
                0 <= i <= n,
                self.next_id == old(self).next_id,
                self.interaction_count == old(self).interaction_count,
                forall|k: int| 0 <= k < i ==> #[trigger] self.agents@[k]
                    == AgentEngine::clamped(old(self).agents@[k], width as int, height as int),
                forall|k: int| i <= k < n ==> #[trigger] self.agents@[k] == old(
                    self,
                ).agents@[k],
            decreases n - i,
        {
            let mut tmp = AgentEngine::placeholder();
            self.agents.set_and_swap(i, &mut tmp);
            let nx = crate::mathutil::clamp(tmp.position.x, 0, width);
            let ny = crate::mathutil::clamp(tmp.position.y, 0, height);
            let upd = Agent { position: Vec2 { x: nx, y: ny }, ..tmp };
            self.agents.set(i, upd);
            i = i + 1;
        }
        proof {
            assert forall|a: int, b: int| 0 <= a < b < self.agents@.len() implies self.agents@[a].id
                < self.agents@[b].id by {
                assert(old(self).agents@[a].id < old(self).agents@[b].id);
            }
            assert forall|k: int| 0 <= k < self.agents@.len() implies (
            #[trigger] self.agents@[k]).id < self.next_id && agent_bounded(self.agents@[k]) by {
                assert(agent_bounded(old(self).agents@[k]));
                assert(old(self).agents@[k].id < old(self).next_id);
            }
        }
    }

    /// The id and position of every agent, in store (id) order.
    pub fn get_all_positions(&self) -> (r: Vec<(u32, Vec2)>)
        ensures
            r@.len() == self.agents@.len(),
            forall|i: int| 0 <= i < r@.len() ==> #[trigger] r@[i] == (
                self.agents@[i].id,
                self.agents@[i].position,
            ),
    {
        let n = self.agents.len();
        let mut out: Vec<(u32, Vec2)> = Vec::new();
        let mut i: usize = 0;
        while i < n
            invariant
                n == self.agents@.len(),
                0 <= i <= n,
                out@.len() == i,
                forall|k: int| 0 <= k < i ==> #[trigger] out@[k] == (
                    self.agents@[k].id,
                    self.agents@[k].position,
                ),
            decreases n - i,
        {
            let a = &self.agents[i];
            out.push((a.id, a.position));
            i = i + 1;
        }
        out
    }
}

} // verus!
