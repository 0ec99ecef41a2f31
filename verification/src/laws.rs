//! Properties of the per-tick pipeline that hold across functions, stated
//! and proved over the stage specifications.
use vstd::prelude::*;
use crate::mathutil::{CAP, SCALE, sdiv, cap_val, clamp0cap, clamp_val, dist_spec, isqrt_spec};
use crate::agents::{
    Agent,
    AgentEngine,
    AgentKind,
    Vec2,
    agent_bounded,
    approval_after,
    customers_after,
    cycle_rel,
};
use crate::simulation::CityPhysics;

verus! {

/// No two agents of the state are within twice the collision radius.
pub open spec fn no_colliding_pairs(s: Seq<Agent>, r: int) -> bool {
    forall|i: int, j: int| 0 <= i < j < s.len() ==> dist_spec(
        (#[trigger] s[i]).position.x as int,
        s[i].position.y as int,
        (#[trigger] s[j]).position.x as int,
        s[j].position.y as int,
    ) >= 2 * r
}

proof fn lemma_collide_inner_identity(s: Seq<Agent>, snap: Seq<Vec2>, i: int, j: int, r: int)
    requires
        snap =~= AgentEngine::positions_of(s),
        0 <= i < s.len(),
        i < j,
        no_colliding_pairs(s, r),
    ensures
        AgentEngine::collide_inner(s, snap, i, j, r) == s,
    decreases snap.len() - j,
{
    if j < snap.len() {
        assert(AgentEngine::collide_step(s, snap, i, j, r) == s);
        lemma_collide_inner_identity(s, snap, i, j + 1, r);
    }
}

proof fn lemma_collide_outer_identity(s: Seq<Agent>, snap: Seq<Vec2>, i: int, r: int)
    requires
        snap =~= AgentEngine::positions_of(s),
        0 <= i,
        no_colliding_pairs(s, r),
    ensures
        AgentEngine::collide_outer(s, snap, i, r) == s,
    decreases snap.len() - i,
{
    if i < snap.len() {
        lemma_collide_inner_identity(s, snap, i, i + 1, r);
        lemma_collide_outer_identity(s, snap, i + 1, r);
    }
}

/// A collision pass over a state with no overlapping pair changes nothing.
pub proof fn lemma_collision_pass_identity(s: Seq<Agent>, r: int)
    requires
        no_colliding_pairs(s, r),
    ensures
        AgentEngine::collide_all(s, r) == s,
{
    lemma_collide_outer_identity(s, AgentEngine::positions_of(s), 0, r);
}

/// After the physics stage of a tick, every agent position lies within the
/// bounded area `[0, w] x [0, h]`, provided the collision pass finds no
/// overlapping pair (a resolved overlap may push an agent past the
/// boundary, which is clamped again only on the next tick).
pub proof fn lemma_physics_positions_in_bounds(s: Seq<Agent>, dt: int, w: int, h: int, r: int)
    requires
        0 <= w,
        0 <= h,
        no_colliding_pairs(
            CityPhysics::clamp_seq(CityPhysics::integrate_seq(s, dt), w, h),
            r,
        ),
    ensures
        forall|i: int| 0 <= i < s.len() ==> {
            let p = (#[trigger] CityPhysics::physics_spec(s, dt, w, h, r)[i]).position;
            0 <= p.x <= w && 0 <= p.y <= h
        },
{
    let clamped = CityPhysics::clamp_seq(CityPhysics::integrate_seq(s, dt), w, h);
    lemma_collision_pass_identity(clamped, r);
    assert forall|i: int| 0 <= i < s.len() implies {
        let p = (#[trigger] CityPhysics::physics_spec(s, dt, w, h, r)[i]).position;
        0 <= p.x <= w && 0 <= p.y <= h
    } by {
        assert(CityPhysics::physics_spec(s, dt, w, h, r)[i] == clamped[i]);
    }
}

/// Under the further premise that no integrated coordinate reaches the far
/// boundary, the bounds are strict: every position lies in
/// `[0, w) x [0, h)`. (An agent integrating to or past the boundary is
/// clamped to exactly `w` or `h`, so the strict bound needs this premise.)
pub proof fn lemma_physics_positions_strictly_in_bounds(
    s: Seq<Agent>,
    dt: int,
    w: int,
    h: int,
    r: int,
)
    requires
        0 < w,
        0 < h,
        no_colliding_pairs(
            CityPhysics::clamp_seq(CityPhysics::integrate_seq(s, dt), w, h),
            r,
        ),
        forall|i: int| 0 <= i < s.len() ==> {
            let p = (#[trigger] CityPhysics::integrate_seq(s, dt)[i]).position;
            p.x < w && p.y < h
        },
    ensures
        forall|i: int| 0 <= i < s.len() ==> {
            let p = (#[trigger] CityPhysics::physics_spec(s, dt, w, h, r)[i]).position;
            0 <= p.x < w && 0 <= p.y < h
        },
{
    let clamped = CityPhysics::clamp_seq(CityPhysics::integrate_seq(s, dt), w, h);
    lemma_collision_pass_identity(clamped, r);
    assert forall|i: int| 0 <= i < s.len() implies {
        let p = (#[trigger] CityPhysics::physics_spec(s, dt, w, h, r)[i]).position;
        0 <= p.x < w && 0 <= p.y < h
    } by {
        assert(CityPhysics::physics_spec(s, dt, w, h, r)[i] == clamped[i]);
        assert((CityPhysics::integrate_seq(s, dt)[i]).position.x < w);
    }
}

/// One collision pass over two agents placed at exactly the same point,
/// with positive collision radius `r`, moves them apart symmetrically along
/// the fallback x direction: each moves by exactly `r` (half the required
/// correction), and their final separation is exactly `2 * r`.
pub proof fn lemma_coincident_pair_separation(a: Agent, b: Agent, r: int)
    requires
        a.position == b.position,
        0 < r <= CAP,
        -CAP <= a.position.x - r,
        a.position.x + r <= CAP,
        -CAP <= a.position.y <= CAP,
    ensures
        AgentEngine::collide_all(seq![a, b], r).len() == 2,
        AgentEngine::collide_all(seq![a, b], r)[0].position == (Vec2 {
            x: (a.position.x - r) as i64,
            y: a.position.y,
        }),
        AgentEngine::collide_all(seq![a, b], r)[1].position == (Vec2 {
            x: (a.position.x + r) as i64,
            y: a.position.y,
        }),
        dist_spec(
            AgentEngine::collide_all(seq![a, b], r)[0].position.x as int,
            AgentEngine::collide_all(seq![a, b], r)[0].position.y as int,
            AgentEngine::collide_all(seq![a, b], r)[1].position.x as int,
            AgentEngine::collide_all(seq![a, b], r)[1].position.y as int,
        ) == 2 * r,
{
    let s = seq![a, b];
    let snap = AgentEngine::positions_of(s);
    assert(snap.len() == 2 && snap[0] == a.position && snap[1] == a.position);
    let stepped = AgentEngine::collide_step(s, snap, 0, 1, r);
    assert(isqrt_spec(0) == 0);
    assert(sdiv(2 * r - 0, 2) == r) by {
        vstd::arithmetic::div_mod::lemma_div_multiples_vanish(r, 2);
        assert(2 * r - 0 == 2 * r);
    }
    assert(sdiv(r * SCALE, SCALE as int) == r) by {
        vstd::arithmetic::div_mod::lemma_div_multiples_vanish(r, SCALE as int);
        assert(r * SCALE == (SCALE as int) * r) by (nonlinear_arith);
        assert(r * SCALE >= 0) by (nonlinear_arith)
            requires
                r > 0,
        ;
    }
    assert(sdiv(r * 0, SCALE as int) == 0) by {
        assert(r * 0 == 0) by (nonlinear_arith);
    }
    assert(stepped[0].position == (Vec2 { x: (a.position.x - r) as i64, y: a.position.y }));
    assert(stepped[1].position == (Vec2 { x: (a.position.x + r) as i64, y: a.position.y }));
    assert(AgentEngine::collide_inner(stepped, snap, 0, 2, r) == stepped);
    assert(AgentEngine::collide_inner(s, snap, 0, 1, r) == stepped);
    assert(AgentEngine::collide_inner(stepped, snap, 1, 2, r) == stepped);
    assert(AgentEngine::collide_outer(stepped, snap, 2, r) == stepped);
    assert(AgentEngine::collide_outer(stepped, snap, 1, r) == stepped);
    assert(AgentEngine::collide_outer(s, snap, 0, r) == stepped);
    let fin = AgentEngine::collide_all(s, r);
    assert(fin == stepped);
    let d2 = ((a.position.x + r) - (a.position.x - r)) * ((a.position.x + r) - (a.position.x - r))
        + (a.position.y - a.position.y) * (a.position.y - a.position.y);
    assert(d2 == (2 * r) * (2 * r));
    assert(isqrt_spec(d2 as nat) == 2 * r) by {
        assert((2 * r) * (2 * r) < (2 * r + 1) * (2 * r + 1)) by (nonlinear_arith)
            requires
                r > 0,
        ;
        crate::mathutil::lemma_isqrt_unique(d2 as nat, (2 * r) as nat);
    }
}

/// A behaviour cycle of duration zero leaves every deterministic scalar in
/// place: position, energy, and the archetype's accumulators (revenue,
/// customers, budget; the approval rating is only clamped at 1). Stochastic
/// sampling may still redraw velocities and extend the citizen logs.
pub proof fn lemma_zero_dt_cycle_preserves_state(a: Agent, b: Agent)
    requires
        agent_bounded(a),
        cycle_rel(a, b, 0),
    ensures
        b.position == a.position,
        b.energy == a.energy,
        match (a.kind, b.kind) {
            (AgentKind::Citizen(ca), AgentKind::Citizen(cb)) => cb.personality == ca.personality
                && cb.needs == ca.needs,
            (AgentKind::Business(ba), AgentKind::Business(bb)) => bb.revenue == ba.revenue
                && bb.customers == ba.customers && bb.products == ba.products,
            (AgentKind::Government(ga), AgentKind::Government(gb)) => gb.budget == ga.budget
                && gb.approval_rating == if ga.approval_rating > SCALE {
                    SCALE as int
                } else {
                    ga.approval_rating as int
                },
            _ => false,
        },
{
    assert(sdiv(0, 10) == 0 && sdiv(0, 20) == 0 && sdiv(0, 50) == 0 && sdiv(0, 1000) == 0);
    match (a.kind, b.kind) {
        (AgentKind::Citizen(ca), AgentKind::Citizen(cb)) => {
            assert(b.energy == clamp0cap(a.energy - 0) == a.energy);
        },
        (AgentKind::Business(ba), AgentKind::Business(bb)) => {
            assert(b.energy == clamp0cap(a.energy - 0) == a.energy);
            assert(bb.revenue == cap_val(ba.revenue + 0) == ba.revenue);
            assert(customers_after(ba.customers, 0) == ba.customers) by {
                vstd::arithmetic::div_mod::lemma_div_multiples_vanish(
                    ba.customers as int,
                    10_000_000,
                );
                assert(ba.customers * 10_000_000 + 0 == 10_000_000 * (ba.customers as int))
                    by (nonlinear_arith);
                assert(ba.customers * 10_000_000 + 0 >= 0) by (nonlinear_arith);
            }
        },
        (AgentKind::Government(ga), AgentKind::Government(gb)) => {
            assert(b.energy == clamp0cap(a.energy - 0) == a.energy);
            assert(gb.budget == cap_val(ga.budget + 10 * 0) == ga.budget);
            assert(gb.approval_rating == approval_after(ga.approval_rating as int, 0));
            assert(cap_val(ga.approval_rating + 0) == ga.approval_rating);
        },
        _ => {},
    }
}

proof fn lemma_sum_energy_frame(s1: Seq<Agent>, s2: Seq<Agent>, n: int)
    requires
        s1.len() == s2.len(),
        0 <= n <= s1.len(),
        forall|i: int| 0 <= i < s1.len() ==> (#[trigger] s1[i]).energy == s2[i].energy,
    ensures
        AgentEngine::sum_energy_upto(s1, n) == AgentEngine::sum_energy_upto(s2, n),
    decreases n,
{
    if n > 0 {
        lemma_sum_energy_frame(s1, s2, n - 1);
    }
}

proof fn lemma_count_tag_frame(s1: Seq<Agent>, s2: Seq<Agent>, t: crate::agents::AgentType, n: int)
    requires
        s1.len() == s2.len(),
        0 <= n <= s1.len(),
        forall|i: int| 0 <= i < s1.len() ==> crate::agents::tag_of(#[trigger] s1[i])
            == crate::agents::tag_of(s2[i]),
    ensures
        AgentEngine::count_tag_upto(s1, t, n) == AgentEngine::count_tag_upto(s2, t, n),
    decreases n,
{
    if n > 0 {
        lemma_count_tag_frame(s1, s2, t, n - 1);
    }
}

proof fn lemma_sum_revenue_frame(s1: Seq<Agent>, s2: Seq<Agent>, n: int)
    requires
        s1.len() == s2.len(),
        0 <= n <= s1.len(),
        forall|i: int| 0 <= i < s1.len() ==> match ((#[trigger] s1[i]).kind, s2[i].kind) {
            (AgentKind::Business(b1), AgentKind::Business(b2)) => b1.revenue == b2.revenue,
            (AgentKind::Citizen(_), AgentKind::Citizen(_)) => true,
            (AgentKind::Government(_), AgentKind::Government(_)) => true,
            _ => false,
        },
    ensures
        crate::optimization::sum_revenue_upto(s1, n) == crate::optimization::sum_revenue_upto(
            s2,
            n,
        ),
    decreases n,
{
    if n > 0 {
        lemma_sum_revenue_frame(s1, s2, n - 1);
    }
}

/// A tick of duration zero is a fixed point of positions and energies, on
/// states where nothing else would force a change: positions already inside
/// the area, no overlapping pair for the collision pass to separate, no
/// agent below half the mean energy for the redistribution step to lift,
/// and every business within the revenue band that neither earns the flat
/// bonus nor the flat cut. (Off those states a zero-duration tick does move
/// state: a colliding pair is pushed apart, and an agent below half the
/// mean energy gains energy.) `mid` stands for any outcome of the
/// stochastic behaviour cycle; velocities and citizen logs may still
/// change.
pub proof fn lemma_zero_dt_tick_fixed_point(
    s: Seq<Agent>,
    mid: Seq<Agent>,
    fin: Seq<Agent>,
    w: int,
    h: int,
    r: int,
    thr: int,
    strength: int,
    rate: int,
    lr: int,
)
    requires
        forall|i: int| 0 <= i < s.len() ==> agent_bounded(#[trigger] s[i]),
        forall|i: int| 0 <= i < s.len() ==> {
            let p = (#[trigger] s[i]).position;
            0 <= p.x <= w && 0 <= p.y <= h
        },
        no_colliding_pairs(s, r),
        forall|i: int| 0 <= i < s.len() ==> 2 * (#[trigger] s[i]).energy
            >= AgentEngine::avg_energy_spec(s),
        forall|i: int| 0 <= i < s.len() ==> match (#[trigger] s[i]).kind {
            AgentKind::Business(b) => 2 * b.revenue >= crate::optimization::avg_revenue(s) && 2
                * b.revenue <= 3 * crate::optimization::avg_revenue(s),
            _ => true,
        },
        mid.len() == CityPhysics::physics_spec(s, 0, w, h, r).len(),
        forall|i: int| 0 <= i < mid.len() ==> cycle_rel(
            CityPhysics::physics_spec(s, 0, w, h, r)[i],
            #[trigger] mid[i],
            0,
        ),
        fin == crate::optimization::behavior_seq(
            crate::optimization::resource_seq(
                crate::optimization::traffic_seq(mid, thr, strength),
                rate,
            ),
            lr,
        ),
    ensures
        fin.len() == s.len(),
        forall|i: int| 0 <= i < s.len() ==> (#[trigger] fin[i]).position == s[i].position,
        forall|i: int| 0 <= i < s.len() ==> (#[trigger] fin[i]).energy == s[i].energy,
{
    lemma_zero_dt_integration_identity(s);
    lemma_clamp_identity_in_bounds(s, w, h);
    lemma_collision_pass_identity(s, r);
    let staged = CityPhysics::physics_spec(s, 0, w, h, r);
    assert(staged == s);
    assert forall|i: int| 0 <= i < s.len() implies (#[trigger] mid[i]).position == s[i].position
        && mid[i].energy == s[i].energy && crate::agents::tag_of(mid[i]) == crate::agents::tag_of(
        s[i],
    ) && (match (s[i].kind, mid[i].kind) {
        (AgentKind::Business(b1), AgentKind::Business(b2)) => b1.revenue == b2.revenue,
        (AgentKind::Citizen(_), AgentKind::Citizen(_)) => true,
        (AgentKind::Government(_), AgentKind::Government(_)) => true,
        _ => false,
    }) by {
        lemma_zero_dt_cycle_preserves_state(s[i], mid[i]);
    }
    let t = crate::optimization::traffic_seq(mid, thr, strength);
    assert forall|i: int| 0 <= i < s.len() implies (#[trigger] t[i]).position == s[i].position
        && t[i].energy == s[i].energy && t[i].kind == mid[i].kind by {}
    lemma_sum_energy_frame(t, s, s.len() as int);
    lemma_count_tag_frame(t, s, crate::agents::AgentType::Business, s.len() as int);
    lemma_sum_revenue_frame(t, s, s.len() as int);
    assert(AgentEngine::avg_energy_spec(t) == AgentEngine::avg_energy_spec(s));
    assert(crate::optimization::avg_revenue(t) == crate::optimization::avg_revenue(s));
    let res = crate::optimization::resource_seq(t, rate);
    assert forall|i: int| 0 <= i < s.len() implies (#[trigger] res[i]).position == s[i].position
        && res[i].energy == s[i].energy && res[i].kind == t[i].kind by {
        assert(2 * t[i].energy >= AgentEngine::avg_energy_spec(t));
        assert(crate::optimization::redistributed(
            t[i],
            AgentEngine::avg_energy_spec(t),
            rate,
        ) == t[i]);
        assert(crate::optimization::biz_adjusted(t[i], crate::optimization::avg_revenue(t))
            == t[i]);
    }
    assert forall|i: int| 0 <= i < s.len() implies (#[trigger] fin[i]).position == s[i].position
        && fin[i].energy == s[i].energy by {
        assert(fin[i] == crate::optimization::behavior_updated(res[i], lr));
    }
}

/// Integrating positions over a zero time step moves nothing.
pub proof fn lemma_zero_dt_integration_identity(s: Seq<Agent>)
    requires
        forall|i: int| 0 <= i < s.len() ==> agent_bounded(#[trigger] s[i]),
    ensures
        CityPhysics::integrate_seq(s, 0) == s,
{
    assert forall|i: int| 0 <= i < s.len() implies CityPhysics::integrate_seq(s, 0)[i] == s[i] by {
        assert(agent_bounded(s[i]));
        assert(s[i].velocity.x * 0 == 0 && s[i].velocity.y * 0 == 0) by (nonlinear_arith);
        assert(sdiv(0, SCALE as int) == 0);
        assert(cap_val(s[i].position.x + 0) == s[i].position.x);
        assert(cap_val(s[i].position.y + 0) == s[i].position.y);
    }
    assert(CityPhysics::integrate_seq(s, 0) =~= s);
}

/// Clamping a state whose positions already lie within the area changes
/// nothing.
pub proof fn lemma_clamp_identity_in_bounds(s: Seq<Agent>, w: int, h: int)
    requires
        forall|i: int| 0 <= i < s.len() ==> {
            let p = (#[trigger] s[i]).position;
            0 <= p.x <= w && 0 <= p.y <= h
        },
    ensures
        CityPhysics::clamp_seq(s, w, h) == s,
{
    assert forall|i: int| 0 <= i < s.len() implies CityPhysics::clamp_seq(s, w, h)[i] == s[i] by {
        assert(clamp_val(s[i].position.x as int, 0, w) == s[i].position.x);
    }
    assert(CityPhysics::clamp_seq(s, w, h) =~= s);
}

} // verus!
