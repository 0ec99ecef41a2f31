//! The three-pass heuristic optimization pipeline, run after physics every
//! tick in fixed order: traffic (congestion-aware velocity nudging), then
//! resource (energy and business rebalancing), then behaviour (personality
//! and strategy adaptation). No pass creates or removes agents.
use vstd::prelude::*;
use vstd::pervasive::VecAdditionalExecFns;
use crate::mathutil::{
    CAP,
    SCALE,
    sdiv,
    cap_val,
    cap_i128,
    div_trunc,
    mul_i128,
    isqrt,
    isqrt_spec,
    dist_spec,
    distance,
};
use crate::agents::{
    Agent,
    AgentEngine,
    AgentKind,
    AgentType,
    BusinessState,
    CitizenState,
    Needs,
    Personality,
    Vec2,
    agent_bounded,
    eff_social,
    tag_of,
};

verus! {

/// Cell size of the congestion map (50 world units, matching the physics
/// grid).
pub const CONGESTION_CELL: i64 = 50_000_000;

/// Half a congestion cell: the offset of a cell's centre.
pub const HALF_CELL: i64 = 25_000_000;

/// Radius inside which another agent adds to local congestion (30 units).
pub const CONGESTION_RADIUS: i64 = 30_000_000;

/// Default congestion threshold (10.0).
pub const CONGESTION_THRESHOLD: i64 = 10_000_000;

/// Default optimization strength (0.1).
pub const OPTIMIZATION_STRENGTH: i64 = 100_000;

/// Default redistribution rate (0.1).
pub const REDISTRIBUTION_RATE: i64 = 100_000;

/// Default resource efficiency (0.8).
pub const RESOURCE_EFFICIENCY: i64 = 800_000;

/// Default behaviour learning rate (0.01).
pub const LEARNING_RATE: i64 = 10_000;

/// Default adaptation threshold (0.1).
pub const ADAPTATION_THRESHOLD: i64 = 100_000;

/// A unit direction vector (in micro-units) along `(dx, dy)`; the unit x
/// vector when both components are zero.
pub open spec fn unit_spec(dx: int, dy: int) -> (int, int) {
    let d = isqrt_spec((dx * dx + dy * dy) as nat) as int;
    if d == 0 {
        (SCALE as int, 0int)
    } else {
        (sdiv(dx * SCALE, d), sdiv(dy * SCALE, d))
    }
}

/// Congestion one other agent at `p2` adds to the agent at `p1`:
/// `1 / (distance + 1)` within the congestion radius, zero outside.
pub open spec fn cong_pair(p1: Vec2, p2: Vec2) -> int {
    let d = dist_spec(p1.x as int, p1.y as int, p2.x as int, p2.y as int);
    if d < CONGESTION_RADIUS {
        sdiv((SCALE as int) * (SCALE as int), d + SCALE)
    } else {
        0
    }
}

/// Local congestion of agent `i` against the first `m` other agents.
pub open spec fn local_cong_upto(ps: Seq<Vec2>, i: int, m: int) -> int
    decreases m,
{
    if m <= 0 {
        0
    } else {
        local_cong_upto(ps, i, m - 1) + if m - 1 == i {
            0int
        } else {
            cong_pair(ps[i], ps[m - 1])
        }
    }
}

/// The congestion-map cell of a position.
pub open spec fn cong_cell_x(p: Vec2) -> int {
    sdiv(p.x as int, CONGESTION_CELL as int)
}

/// The congestion-map cell of a position.
pub open spec fn cong_cell_y(p: Vec2) -> int {
    sdiv(p.y as int, CONGESTION_CELL as int)
}

/// Congestion attributed to cell `(cx, cy)` by the first `n` agents: each
/// agent adds its local congestion to its own cell (saturated).
pub open spec fn cong_total_upto(ps: Seq<Vec2>, cx: int, cy: int, n: int) -> int
    decreases n,
{
    if n <= 0 {
        0
    } else {
        let pre = cong_total_upto(ps, cx, cy, n - 1);
        if cong_cell_x(ps[n - 1]) == cx && cong_cell_y(ps[n - 1]) == cy {
            cap_val(pre + local_cong_upto(ps, n - 1, ps.len() as int))
        } else {
            pre
        }
    }
}

/// The congestion of cell `(cx, cy)` over the whole position list.
pub open spec fn cong_total(ps: Seq<Vec2>, cx: int, cy: int) -> int {
    cong_total_upto(ps, cx, cy, ps.len() as int)
}

/// Accumulated avoidance force after considering the first `t` of the nine
/// neighbour cells (scanned x-major as `(t / 3 - 1, t % 3 - 1)`): every
/// congested neighbour adds a unit vector away from its centre scaled by
/// its congestion.
pub open spec fn avoid_upto(ps: Seq<Vec2>, pos: Vec2, thr: int, t: int) -> (int, int)
    decreases t,
{
    if t <= 0 {
        (0int, 0int)
    } else {
        let pre = avoid_upto(ps, pos, thr, t - 1);
        let dxo = (t - 1) / 3 - 1;
        let dyo = (t - 1) % 3 - 1;
        let cx = cong_cell_x(pos) + dxo;
        let cy = cong_cell_y(pos) + dyo;
        let c = cong_total(ps, cx, cy);
        if c > thr {
            let tx = cx * CONGESTION_CELL + HALF_CELL;
            let ty = cy * CONGESTION_CELL + HALF_CELL;
            let u = unit_spec(pos.x - tx, pos.y - ty);
            (cap_val(pre.0 + sdiv(u.0 * c, SCALE as int)), cap_val(
                pre.1 + sdiv(u.1 * c, SCALE as int),
            ))
        } else {
            pre
        }
    }
}

/// The velocity the traffic pass leaves on an agent: citizens in a congested
/// cell get the normalized avoidance force, scaled by 0.1 and the
/// optimization strength, added to their velocity; a zero accumulated force
/// is skipped rather than normalized.
pub open spec fn traffic_vel(a: Agent, ps: Seq<Vec2>, thr: int, strength: int) -> Vec2 {
    if tag_of(a) == AgentType::Citizen && cong_total(
        ps,
        cong_cell_x(a.position),
        cong_cell_y(a.position),
    ) > thr {
        let f = avoid_upto(ps, a.position, thr, 9);
        if f.0 == 0 && f.1 == 0 {
            a.velocity
        } else {
            let u = unit_spec(f.0, f.1);
            Vec2 {
                x: cap_val(a.velocity.x + sdiv(sdiv(u.0, 10) * strength, SCALE as int)) as i64,
                y: cap_val(a.velocity.y + sdiv(sdiv(u.1, 10) * strength, SCALE as int)) as i64,
            }
        }
    } else {
        a.velocity
    }
}

/// The whole traffic pass over a store state.
pub open spec fn traffic_seq(s: Seq<Agent>, thr: int, strength: int) -> Seq<Agent> {
    Seq::new(
        s.len(),
        |i: int|
            Agent {
                velocity: traffic_vel(s[i], AgentEngine::positions_of(s), thr, strength),
                ..s[i]
            },
    )
}

/// One entry of the congestion map: a cell and its accumulated congestion.
pub struct CellCong {
    pub cx: i64,
    pub cy: i64,
    pub value: i64,
}

/// Index of the first congestion entry with the given coordinates at or
/// after `k`, or -1.
pub open spec fn cong_find(cells: Seq<CellCong>, cx: int, cy: int, k: int) -> int
    decreases cells.len() - k,
{
    if k < 0 || k >= cells.len() {
        -1
    } else if cells[k].cx == cx && cells[k].cy == cy {
        k
    } else {
        cong_find(cells, cx, cy, k + 1)
    }
}

/// The congestion recorded for a cell; zero when absent.
pub open spec fn cong_value(cells: Seq<CellCong>, cx: int, cy: int) -> int {
    let k = cong_find(cells, cx, cy, 0);
    if k == -1 {
        0
    } else {
        cells[k].value as int
    }
}

proof fn lemma_cong_find_found(cells: Seq<CellCong>, cx: int, cy: int, k: int)
    requires
        0 <= k,
    ensures
        cong_find(cells, cx, cy, k) != -1 ==> {
            let r = cong_find(cells, cx, cy, k);
            &&& k <= r < cells.len()
            &&& cells[r].cx == cx
            &&& cells[r].cy == cy
        },
    decreases cells.len() - k,
{
    if k < cells.len() && !(cells[k].cx == cx && cells[k].cy == cy) {
        lemma_cong_find_found(cells, cx, cy, k + 1);
    }
}

proof fn lemma_cong_find_frame(c1: Seq<CellCong>, c2: Seq<CellCong>, cx: int, cy: int, k: int)
    requires
        0 <= k,
        c1.len() == c2.len(),
        forall|i: int| 0 <= i < c1.len() ==> (#[trigger] c1[i]).cx == c2[i].cx && c1[i].cy
            == c2[i].cy,
    ensures
        cong_find(c1, cx, cy, k) == cong_find(c2, cx, cy, k),
    decreases c1.len() - k,
{
    if k < c1.len() && !(c1[k].cx == cx && c1[k].cy == cy) {
        lemma_cong_find_frame(c1, c2, cx, cy, k + 1);
    }
}

proof fn lemma_cong_find_push(cells: Seq<CellCong>, c: CellCong, cx: int, cy: int, k: int)
    requires
        0 <= k <= cells.len(),
    ensures
        cong_find(cells, cx, cy, k) != -1 ==> cong_find(cells.push(c), cx, cy, k) == cong_find(
            cells,
            cx,
            cy,
            k,
        ),
        cong_find(cells, cx, cy, k) == -1 && c.cx == cx && c.cy == cy ==> cong_find(
            cells.push(c),
            cx,
            cy,
            k,
        ) == cells.len(),
        cong_find(cells, cx, cy, k) == -1 && !(c.cx == cx && c.cy == cy) ==> cong_find(
            cells.push(c),
            cx,
            cy,
            k,
        ) == -1,
    decreases cells.len() - k,
{
    if k < cells.len() {
        if !(cells[k].cx == cx && cells[k].cy == cy) {
            lemma_cong_find_push(cells, c, cx, cy, k + 1);
        }
    } else {
        assert(cong_find(cells.push(c), cx, cy, k + 1) == -1);
    }
}

/// Add `v` (saturating) to the congestion of cell `(cx, cy)`, creating the
/// entry if absent.
fn cong_insert(map: &mut Vec<CellCong>, cx: i64, cy: i64, v: i64)
    ensures
        forall|qx: int, qy: int| #[trigger] cong_value(final(map)@, qx, qy) == if qx == cx && qy
            == cy {
            cap_val(cong_value(old(map)@, qx, qy) + v)
        } else {
            cong_value(old(map)@, qx, qy)
        },
{
    let n = map.len();
    let mut k: usize = 0;
    while k < n
        invariant
            *map == *old(map),
            n == map@.len(),
            0 <= k <= n,
            cong_find(map@, cx as int, cy as int, 0) == cong_find(
                map@,
                cx as int,
                cy as int,
                k as int,
            ),
        decreases n - k,
    {
        if map[k].cx == cx && map[k].cy == cy {
            let ghost pre = map@;
            let newval = crate::mathutil::add_cap(map[k].value, v);
            let mut cell = CellCong { cx: 0, cy: 0, value: 0 };
            map.set_and_swap(k, &mut cell);
            map.set(k, CellCong { cx: cell.cx, cy: cell.cy, value: newval });
            proof {
                let cur = map@;
                assert(forall|i: int| 0 <= i < cur.len() ==> (#[trigger] cur[i]).cx == pre[i].cx
                    && cur[i].cy == pre[i].cy);
                assert forall|qx: int, qy: int| #[trigger] cong_value(cur, qx, qy) == (if qx == cx
                    && qy == cy {
                    cap_val(cong_value(pre, qx, qy) + v)
                } else {
                    cong_value(pre, qx, qy)
                }) by {
                    lemma_cong_find_frame(pre, cur, qx, qy, 0);
                    lemma_cong_find_found(pre, qx, qy, 0);
                    let f = cong_find(pre, qx, qy, 0);
                    if qx == cx && qy == cy {
                        assert(f == k as int);
                    } else {
                        if f != -1 {
                            assert(!(pre[f].cx == cx && pre[f].cy == cy));
                            assert(f != k as int);
                            assert(cur[f] == pre[f]);
                        }
                    }
                }
            }
            return ;
        }
        k = k + 1;
    }
    let ghost pre = map@;
    let newval = crate::mathutil::add_cap(0, v);
    let newcell = CellCong { cx, cy, value: newval };
    map.push(newcell);
    proof {
        let cur = map@;
        assert(cong_find(pre, cx as int, cy as int, 0) == -1);
        assert forall|qx: int, qy: int| #[trigger] cong_value(cur, qx, qy) == (if qx == cx && qy
            == cy {
            cap_val(cong_value(pre, qx, qy) + v)
        } else {
            cong_value(pre, qx, qy)
        }) by {
            lemma_cong_find_push(pre, newcell, qx, qy, 0);
            lemma_cong_find_found(pre, qx, qy, 0);
            if qx == cx && qy == cy {
                assert(cong_find(cur, qx, qy, 0) == pre.len());
            } else {
                let f = cong_find(pre, qx, qy, 0);
                if f != -1 {
                    assert(cur[f] == pre[f]);
                }
            }
        }
    }
}

/// Congestion-aware traffic optimization.
pub struct TrafficOptimizer {
    pub congestion_threshold: i64,
    pub optimization_strength: i64,
}

impl TrafficOptimizer {
    /// An optimizer with the default threshold and strength.
    pub fn new() -> (r: TrafficOptimizer)
        ensures
            r.congestion_threshold == CONGESTION_THRESHOLD,
            r.optimization_strength == OPTIMIZATION_STRENGTH,
    {
        TrafficOptimizer {
            congestion_threshold: CONGESTION_THRESHOLD,
            optimization_strength: OPTIMIZATION_STRENGTH,
        }
    }

    /// Build the congestion map of the given positions.
    fn calculate_congestion(&self, ps: &Vec<Vec2>) -> (map: Vec<CellCong>)
        requires
            ps@.len() <= 65535,
            forall|i: int| 0 <= i < ps@.len() ==> -CAP <= (#[trigger] ps@[i]).x <= CAP && -CAP
                <= ps@[i].y <= CAP,
        ensures
            forall|qx: int, qy: int| #[trigger] cong_value(map@, qx, qy) == cong_total(
                ps@,
                qx,
                qy,
            ),
    {
        let n = ps.len();
        let mut map: Vec<CellCong> = Vec::new();
        let mut i: usize = 0;
        while i < n
            invariant
                forall|t: int| 0 <= t < ps@.len() ==> -CAP <= (#[trigger] ps@[t]).x <= CAP && -CAP
                    <= ps@[t].y <= CAP,
                n == ps@.len() <= 65535,
                0 <= i <= n,
                forall|qx: int, qy: int| #[trigger] cong_value(map@, qx, qy) == cong_total_upto(
                    ps@,
                    qx,
                    qy,
                    i as int,
                ),
            decreases n - i,
        {
            let mut local: i64 = 0;
            let mut j: usize = 0;
            while j < n
                invariant
                    forall|t: int| 0 <= t < ps@.len() ==> -CAP <= (#[trigger] ps@[t]).x <= CAP
                        && -CAP <= ps@[t].y <= CAP,
                    n == ps@.len() <= 65535,
                    0 <= i < n,
                    0 <= j <= n,
                    local == local_cong_upto(ps@, i as int, j as int),
                    0 <= local <= (j as int) * SCALE,
                decreases n - j,
            {
                proof {
                    lemma_local_cong_bounds(ps@, i as int, j as int);
                    assert((j as int) * SCALE + SCALE == (j as int + 1) * SCALE)
                        by (nonlinear_arith);
                    assert((j as int + 1) * SCALE <= 65536 * 1_000_000) by (nonlinear_arith)
                        requires
                            0 <= j as int + 1 <= 65536,
                    ;
                }
                if j != i {
                    let d = distance(ps[i].x, ps[i].y, ps[j].x, ps[j].y);
                    if d < CONGESTION_RADIUS {
                        let c = div_trunc(
                            (SCALE as i128) * (SCALE as i128),
                            d as i128 + SCALE as i128,
                        );
                        proof {
                            vstd::arithmetic::div_mod::lemma_div_is_ordered_by_denominator(
                                (SCALE as int) * (SCALE as int),
                                SCALE as int,
                                d as int + SCALE,
                            );
                            assert(((SCALE as int) * (SCALE as int)) / (SCALE as int) == SCALE)
                                by (nonlinear_arith);
                        }
                        local = local + c as i64;
                    }
                }
                j = j + 1;
            }
            let cx = div_trunc(ps[i].x as i128, CONGESTION_CELL as i128) as i64;
            let cy = div_trunc(ps[i].y as i128, CONGESTION_CELL as i128) as i64;
            cong_insert(&mut map, cx, cy, local);
            i = i + 1;
        }
        map
    }

    /// Apply the traffic pass to every agent.
    pub fn optimize(&mut self, agents: &mut AgentEngine)
        requires
            old(agents).wf(),
            0 <= old(self).congestion_threshold <= CAP,
            0 <= old(self).optimization_strength <= CAP,
        ensures
            *final(self) == *old(self),
            final(agents).wf(),
            final(agents).next_id == old(agents).next_id,
            final(agents).interaction_count == old(agents).interaction_count,
            final(agents).agents@ == traffic_seq(
                old(agents).agents@,
                old(self).congestion_threshold as int,
                old(self).optimization_strength as int,
            ),
    {
        let n = agents.agents.len();
        let mut ps: Vec<Vec2> = Vec::new();
        let mut si: usize = 0;
        while si < n
            invariant
                old(agents).wf(),
                *agents == *old(agents),
                *self == *old(self),
                n == agents.agents@.len(),
                0 <= si <= n,
                ps@.len() == si,
                forall|k: int| 0 <= k < si ==> #[trigger] ps@[k] == agents.agents@[k].position,
            decreases n - si,
        {
            ps.push(agents.agents[si].position);
            si = si + 1;
        }
        proof {
            assert(ps@ =~= AgentEngine::positions_of(old(agents).agents@));
            assert forall|k: int| 0 <= k < ps@.len() implies -CAP <= (#[trigger] ps@[k]).x <= CAP
                && -CAP <= ps@[k].y <= CAP by {
                assert(agent_bounded(old(agents).agents@[k]));
            }
        }
        let map = self.calculate_congestion(&ps);
        let thr = self.congestion_threshold;
        let strength = self.optimization_strength;
        let mut i: usize = 0;
        while i < n
            invariant
                old(agents).wf(),
                *self == *old(self),
                0 <= thr <= CAP,
                thr == self.congestion_threshold,
                strength == self.optimization_strength,
                0 <= strength <= CAP,
                n == agents.agents@.len() == old(agents).agents@.len(),
                ps@ == AgentEngine::positions_of(old(agents).agents@),
                ps@.len() == n,
                forall|qx: int, qy: int| #[trigger] cong_value(map@, qx, qy) == cong_total(
                    ps@,
                    qx,
                    qy,
                ),
                0 <= i <= n,
                agents.next_id == old(agents).next_id,
                agents.interaction_count == old(agents).interaction_count,
                forall|k: int| 0 <= k < i ==> #[trigger] agents.agents@[k] == (Agent {
                    velocity: traffic_vel(old(agents).agents@[k], ps@, thr as int, strength as int),
                    ..old(agents).agents@[k]
                }),
                forall|k: int| i <= k < n ==> #[trigger] agents.agents@[k] == old(
                    agents,
                ).agents@[k],
            decreases n - i,
        {
            proof {
                assert(agent_bounded(old(agents).agents@[i as int]));
            }
            let is_citizen = match &agents.agents[i].kind {
                AgentKind::Citizen(_) => true,
                _ => false,
            };
            if is_citizen {
                let pos = agents.agents[i].position;
                let cx = div_trunc(pos.x as i128, CONGESTION_CELL as i128) as i64;
                let cy = div_trunc(pos.y as i128, CONGESTION_CELL as i128) as i64;
                let own = TrafficOptimizer::lookup(&map, cx, cy);
                if own > thr {
                    let f = TrafficOptimizer::avoidance(&map, pos, thr, Ghost(ps@));
                    if f.0 != 0 || f.1 != 0 {
                        proof {
                            assert(0 <= f.0 as int * f.0 as int + f.1 as int * f.1 as int <= 2 * (
                            CAP as int * CAP as int) && (f.0 as int * f.0 as int + f.1 as int
                                * f.1 as int > 0)) by (nonlinear_arith)
                                requires
                                    -(CAP as int) <= f.0 as int <= CAP as int,
                                    -(CAP as int) <= f.1 as int <= CAP as int,
                                    f.0 as int != 0 || f.1 as int != 0,
                            ;
                        }
                        let d2u = mul_i128(f.0, f.0) + mul_i128(f.1, f.1);
                        let d = isqrt(d2u as u128);
                        proof {
                            assert(d as int <= 2_000_000_000_000_000 && d as int >= 1)
                                by (nonlinear_arith)
                                requires
                                    d as int >= 0,
                                    (d as int) * (d as int) <= 2 * (CAP as int * CAP as int),
                                    (d2u as int) < (d as int + 1) * (d as int + 1),
                                    d2u as int > 0,
                                    CAP as int == 1_000_000_000_000_000,
                            ;
                        }
                        let ux = div_trunc(f.0 as i128 * SCALE as i128, d as i128);
                        let uy = div_trunc(f.1 as i128 * SCALE as i128, d as i128);
                        let u10x = div_trunc(ux, 10);
                        let u10y = div_trunc(uy, 10);
                        proof {
                            assert(u10x * strength as int
                                <= 2_000_000_000_000_000_000_000 * 1_000_000_000_000_000 && u10x
                                * strength as int >= -(2_000_000_000_000_000_000_000
                                * 1_000_000_000_000_000) && u10y * strength as int
                                <= 2_000_000_000_000_000_000_000 * 1_000_000_000_000_000 && u10y
                                * strength as int >= -(2_000_000_000_000_000_000_000
                                * 1_000_000_000_000_000)) by (nonlinear_arith)
                                requires
                                    -2_000_000_000_000_000_000_000 <= u10x
                                        <= 2_000_000_000_000_000_000_000,
                                    -2_000_000_000_000_000_000_000 <= u10y
                                        <= 2_000_000_000_000_000_000_000,
                                    0 <= strength as int <= 1_000_000_000_000_000,
                            ;
                        }
                        let ax = div_trunc(u10x * strength as i128, SCALE as i128);
                        let ay = div_trunc(u10y * strength as i128, SCALE as i128);
                        let mut tmp = AgentEngine::placeholder();
                        agents.agents.set_and_swap(i, &mut tmp);
                        let nvx = cap_i128(tmp.velocity.x as i128 + ax);
                        let nvy = cap_i128(tmp.velocity.y as i128 + ay);
                        let upd = Agent { velocity: Vec2 { x: nvx, y: nvy }, ..tmp };
                        agents.agents.set(i, upd);
                    }
                }
            }
            i = i + 1;
        }
        proof {
            assert(agents.agents@ =~= traffic_seq(
                old(agents).agents@,
                thr as int,
                strength as int,
            ));
            assert forall|a: int, b: int| 0 <= a < b < agents.agents@.len() implies agents.agents@[a].id
                < agents.agents@[b].id by {
                assert(old(agents).agents@[a].id < old(agents).agents@[b].id);
            }
            assert forall|k: int| 0 <= k < agents.agents@.len() implies (
            #[trigger] agents.agents@[k]).id < agents.next_id && agent_bounded(
                agents.agents@[k],
            ) by {
                assert(agent_bounded(old(agents).agents@[k]));
                assert(old(agents).agents@[k].id < old(agents).next_id);
            }
        }
    }

    /// The congestion recorded for a cell, zero when absent.
    fn lookup(map: &Vec<CellCong>, cx: i64, cy: i64) -> (r: i64)
        ensures
            r == cong_value(map@, cx as int, cy as int),
    {
        let n = map.len();
        let mut k: usize = 0;
        while k < n
            invariant
                n == map@.len(),
                0 <= k <= n,
                cong_find(map@, cx as int, cy as int, 0) == cong_find(
                    map@,
                    cx as int,
                    cy as int,
                    k as int,
                ),
            decreases n - k,
        {
            if map[k].cx == cx && map[k].cy == cy {
                return map[k].value;
            }
            k = k + 1;
        }
        0
    }

    /// Accumulate the avoidance force over the nine neighbour cells.
    fn avoidance(map: &Vec<CellCong>, pos: Vec2, thr: i64, Ghost(ps): Ghost<Seq<Vec2>>) -> (r: (
        i64,
        i64,
    ))
        requires
            -CAP <= pos.x <= CAP,
            -CAP <= pos.y <= CAP,
            forall|qx: int, qy: int| #[trigger] cong_value(map@, qx, qy) == cong_total(
                ps,
                qx,
                qy,
            ),
        ensures
            (r.0 as int, r.1 as int) == avoid_upto(ps, pos, thr as int, 9),
            -CAP <= r.0 <= CAP,
            -CAP <= r.1 <= CAP,
    {
        let mut fx: i64 = 0;
        let mut fy: i64 = 0;
        let mut t: u8 = 0;
        let cx0 = div_trunc(pos.x as i128, CONGESTION_CELL as i128) as i64;
        let cy0 = div_trunc(pos.y as i128, CONGESTION_CELL as i128) as i64;
        proof {
            crate::mathutil::lemma_sdiv_magnitude(pos.x as int, CONGESTION_CELL as int, CAP as int);
            crate::mathutil::lemma_sdiv_magnitude(pos.y as int, CONGESTION_CELL as int, CAP as int);
            assert(CAP as int / CONGESTION_CELL as int == 20_000_000) by {
                assert(CAP as int == CONGESTION_CELL as int * 20_000_000) by (nonlinear_arith);
                vstd::arithmetic::div_mod::lemma_div_multiples_vanish_fancy(
                    20_000_000,
                    0,
                    CONGESTION_CELL as int,
                );
            }
        }
        while t < 9
            invariant
                -CAP <= pos.x <= CAP,
                -CAP <= pos.y <= CAP,
                cx0 == cong_cell_x(pos),
                cy0 == cong_cell_y(pos),
                -20_000_000 <= cx0 <= 20_000_000,
                -20_000_000 <= cy0 <= 20_000_000,
                forall|qx: int, qy: int| #[trigger] cong_value(map@, qx, qy) == cong_total(
                    ps,
                    qx,
                    qy,
                ),
                0 <= t <= 9,
                (fx as int, fy as int) == avoid_upto(ps, pos, thr as int, t as int),
                -CAP <= fx <= CAP,
                -CAP <= fy <= CAP,
            decreases 9 - t,
        {
            let dxo: i64 = (t / 3) as i64 - 1;
            let dyo: i64 = (t % 3) as i64 - 1;
            let cx = cx0 + dxo;
            let cy = cy0 + dyo;
            let c = TrafficOptimizer::lookup(map, cx, cy);
            proof {
                lemma_cong_total_bounds(ps, cx as int, cy as int, ps.len() as int);
            }
            if c > thr {
                let tx: i64 = cx * CONGESTION_CELL + CONGESTION_CELL / 2;
                let ty: i64 = cy * CONGESTION_CELL + CONGESTION_CELL / 2;
                let dx: i128 = pos.x as i128 - tx as i128;
                let dy: i128 = pos.y as i128 - ty as i128;
                proof {
                    assert(dx * dx + dy * dy <= 32 * (CAP as int * CAP as int) && dx * dx >= 0
                        && dy * dy >= 0) by (nonlinear_arith)
                        requires
                            -3 * (CAP as int) <= dx <= 3 * (CAP as int),
                            -3 * (CAP as int) <= dy <= 3 * (CAP as int),
                    ;
                }
                let d2 = (dx * dx + dy * dy) as u128;
                let d = isqrt(d2);
                proof {
                    assert(d as int <= 6_000_000_000_000_000) by (nonlinear_arith)
                        requires
                            d as int >= 0,
                            (d as int) * (d as int) <= 32 * (CAP as int * CAP as int),
                            CAP as int == 1_000_000_000_000_000,
                    ;
                }
                let ux: i128;
                let uy: i128;
                if d == 0 {
                    ux = SCALE as i128;
                    uy = 0;
                } else {
                    ux = div_trunc(dx * SCALE as i128, d as i128);
                    uy = div_trunc(dy * SCALE as i128, d as i128);
                }
                let addx = div_trunc_signed_scale(ux, c);
                let addy = div_trunc_signed_scale(uy, c);
                fx = cap_i128(fx as i128 + addx);
                fy = cap_i128(fy as i128 + addy);
            }
            t = t + 1;
        }
        (fx, fy)
    }
}

/// Total revenue of the businesses among the first `n` agents.
pub open spec fn sum_revenue_upto(s: Seq<Agent>, n: int) -> int
    decreases n,
{
    if n <= 0 {
        0
    } else {
        sum_revenue_upto(s, n - 1) + match s[n - 1].kind {
            AgentKind::Business(b) => b.revenue as int,
            _ => 0int,
        }
    }
}

/// Mean revenue across businesses; zero when there are none.
pub open spec fn avg_revenue(s: Seq<Agent>) -> int {
    let c = AgentEngine::count_tag_upto(s, AgentType::Business, s.len() as int);
    if c == 0 {
        0
    } else {
        sdiv(sum_revenue_upto(s, s.len() as int), c)
    }
}

/// The redistribution step of the resource pass: a citizen or business whose
/// energy is below half the target moves toward the target by the
/// redistribution fraction of the gap.
pub open spec fn redistributed(a: Agent, target: int, rate: int) -> Agent {
    if (tag_of(a) == AgentType::Citizen || tag_of(a) == AgentType::Business) && 2 * a.energy
        < target {
        Agent {
            energy: cap_val(a.energy + sdiv((target - a.energy) * rate, SCALE as int)) as i64,
            ..a
        }
    } else {
        a
    }
}

/// The business step of the resource pass: a business earning under half
/// the mean revenue gains a flat energy bonus; one earning over 1.5 times
/// the mean loses a flat amount, floored at 50.
pub open spec fn biz_adjusted(a: Agent, avgrev: int) -> Agent {
    match a.kind {
        AgentKind::Business(b) => {
            if 2 * b.revenue < avgrev {
                Agent { energy: cap_val(a.energy + 5_000_000) as i64, ..a }
            } else if 2 * b.revenue > 3 * avgrev {
                Agent {
                    energy: if a.energy - 2_000_000 < 50_000_000 {
                        50_000_000i64
                    } else {
                        (a.energy - 2_000_000) as i64
                    },
                    ..a
                }
            } else {
                a
            }
        },
        _ => a,
    }
}

/// The whole resource pass over a store state: the energy target is the mean
/// energy of the input state and the revenue reference is the mean business
/// revenue of the input state.
pub open spec fn resource_seq(s: Seq<Agent>, rate: int) -> Seq<Agent> {
    Seq::new(
        s.len(),
        |i: int|
            biz_adjusted(
                redistributed(s[i], AgentEngine::avg_energy_spec(s), rate),
                avg_revenue(s),
            ),
    )
}

/// The behaviour pass on one agent: successful citizens grow their risk
/// tolerance (capped at 1), struggling ones shrink it (floored at 0), and
/// needs are recomputed; businesses attract customers depending on revenue
/// (capped at 1000) and record derived demand.
pub open spec fn behavior_updated(a: Agent, lr: int) -> Agent {
    match a.kind {
        AgentKind::Citizen(c) => {
            let p = if a.energy > 80_000_000 {
                match c.personality.risk_tolerance {
                    Some(rt) => Personality {
                        risk_tolerance: Some(
                            if rt + lr > SCALE {
                                SCALE
                            } else {
                                (rt + lr) as i64
                            },
                        ),
                        ..c.personality
                    },
                    None => c.personality,
                }
            } else if a.energy < 20_000_000 {
                match c.personality.risk_tolerance {
                    Some(rt) => Personality {
                        risk_tolerance: Some(
                            if rt - lr < 0 {
                                0i64
                            } else {
                                (rt - lr) as i64
                            },
                        ),
                        ..c.personality
                    },
                    None => c.personality,
                }
            } else {
                c.personality
            };
            let needs = Needs {
                energy: Some((SCALE - sdiv(a.energy as int, 100)) as i64),
                social: Some(sdiv(eff_social(c.personality) * 800_000, SCALE as int) as i64),
            };
            Agent { kind: AgentKind::Citizen(CitizenState { personality: p, needs, ..c }), ..a }
        },
        AgentKind::Business(b) => {
            let customers = if b.revenue > 100_000_000 {
                if b.customers + 1 > 1000 {
                    1000int
                } else {
                    b.customers + 1
                }
            } else if b.revenue < 10_000_000 {
                if b.customers + 2 > 1000 {
                    1000int
                } else {
                    b.customers + 2
                }
            } else {
                b.customers as int
            };
            Agent {
                kind: AgentKind::Business(
                    BusinessState {
                        customers: customers as u32,
                        products: crate::agents::Products { demand: Some((customers * 10_000) as i64) },
                        ..b
                    },
                ),
                ..a
            }
        },
        AgentKind::Government(_) => a,
    }
}

/// The whole behaviour pass over a store state.
pub open spec fn behavior_seq(s: Seq<Agent>, lr: int) -> Seq<Agent> {
    Seq::new(s.len(), |i: int| behavior_updated(s[i], lr))
}

/// Energy and business rebalancing.
pub struct ResourceOptimizer {
    pub resource_efficiency: i64,
    pub redistribution_rate: i64,
}

impl ResourceOptimizer {
    /// An optimizer with the default efficiency and redistribution rate.
    pub fn new() -> (r: ResourceOptimizer)
        ensures
            r.resource_efficiency == RESOURCE_EFFICIENCY,
            r.redistribution_rate == REDISTRIBUTION_RATE,
    {
        ResourceOptimizer {
            resource_efficiency: RESOURCE_EFFICIENCY,
            redistribution_rate: REDISTRIBUTION_RATE,
        }
    }

    /// Apply the resource pass to every agent.
    pub fn optimize(&mut self, agents: &mut AgentEngine)
        requires
            old(agents).wf(),
            0 <= old(self).redistribution_rate <= SCALE,
        ensures
            *final(self) == *old(self),
            final(agents).wf(),
            final(agents).next_id == old(agents).next_id,
            final(agents).interaction_count == old(agents).interaction_count,
            final(agents).agents@ == resource_seq(
                old(agents).agents@,
                old(self).redistribution_rate as int,
            ),
    {
        let n = agents.agents.len();
        let target = agents.get_average_energy();
        let mut revsum: i128 = 0;
        let mut bizcount: u64 = 0;
        let mut i: usize = 0;
        while i < n
            invariant
                old(agents).wf(),
                *agents == *old(agents),
                *self == *old(self),
                n == agents.agents@.len(),
                0 <= i <= n,
                revsum == sum_revenue_upto(agents.agents@, i as int),
                -(bizcount as int) * CAP <= revsum <= (bizcount as int) * CAP,
                bizcount == AgentEngine::count_tag_upto(
                    agents.agents@,
                    AgentType::Business,
                    i as int,
                ),
                bizcount <= i,
            decreases n - i,
        {
            proof {
                assert(agent_bounded(agents.agents@[i as int]));
                assert((bizcount as int) * CAP + CAP == (bizcount as int + 1) * CAP)
                    by (nonlinear_arith);
                assert((bizcount as int + 1) * (CAP as int) <= 0xffff_ffff_ffff_ffff * (
                CAP as int)) by (nonlinear_arith)
                    requires
                        0 <= bizcount as int + 1 <= 0xffff_ffff_ffff_ffff,
                        CAP > 0,
                ;
            }
            match &agents.agents[i].kind {
                AgentKind::Business(b) => {
                    revsum = revsum + b.revenue as i128;
                    bizcount = bizcount + 1;
                },
                _ => {},
            }
            i = i + 1;
        }
        let avgrev: i64 = if bizcount > 0 {
            let q = div_trunc(revsum, bizcount as i128);
            proof {
                crate::mathutil::lemma_sdiv_magnitude(
                    revsum as int,
                    bizcount as int,
                    (bizcount as int) * CAP,
                );
                vstd::arithmetic::div_mod::lemma_div_multiples_vanish(
                    CAP as int,
                    bizcount as int,
                );
                assert((bizcount as int) * (CAP as int) == (bizcount as int) * (CAP as int));
            }
            q as i64
        } else {
            0
        };
        let mut i: usize = 0;
        while i < n
            invariant
                old(agents).wf(),
                *self == *old(self),
                n == agents.agents@.len() == old(agents).agents@.len(),
                0 <= i <= n,
                0 <= old(self).redistribution_rate <= SCALE,
                target == AgentEngine::avg_energy_spec(old(agents).agents@),
                0 <= target <= CAP,
                avgrev as int == avg_revenue(old(agents).agents@),
                -CAP <= avgrev <= CAP,
                agents.next_id == old(agents).next_id,
                agents.interaction_count == old(agents).interaction_count,
                forall|k: int| 0 <= k < i ==> #[trigger] agents.agents@[k] == biz_adjusted(
                    redistributed(
                        old(agents).agents@[k],
                        target as int,
                        old(self).redistribution_rate as int,
                    ),
                    avgrev as int,
                ),
                forall|k: int| i <= k < n ==> #[trigger] agents.agents@[k] == old(
                    agents,
                ).agents@[k],
            decreases n - i,
        {
            proof {
                assert(agent_bounded(old(agents).agents@[i as int]));
            }
            let mut tmp = AgentEngine::placeholder();
            agents.agents.set_and_swap(i, &mut tmp);
            let is_cit_or_biz = match &tmp.kind {
                AgentKind::Citizen(_) => true,
                AgentKind::Business(_) => true,
                AgentKind::Government(_) => false,
            };
            if is_cit_or_biz && 2 * tmp.energy < target {
                let gap: i64 = target - tmp.energy;
                let delta = div_trunc(
                    mul_i128(gap, self.redistribution_rate),
                    SCALE as i128,
                );
                tmp.energy = cap_i128(tmp.energy as i128 + delta);
            }
            let mut lowrev = false;
            let mut highrev = false;
            match &tmp.kind {
                AgentKind::Business(b) => {
                    if 2 * b.revenue < avgrev {
                        lowrev = true;
                    } else if 2 * b.revenue > 3 * avgrev {
                        highrev = true;
                    }
                },
                _ => {},
            }
            if lowrev {
                tmp.energy = cap_i128(tmp.energy as i128 + 5_000_000);
            } else if highrev {
                tmp.energy = if tmp.energy - 2_000_000 < 50_000_000 {
                    50_000_000
                } else {
                    tmp.energy - 2_000_000
                };
            }
            agents.agents.set(i, tmp);
            i = i + 1;
        }
        proof {
            assert(agents.agents@ =~= resource_seq(
                old(agents).agents@,
                old(self).redistribution_rate as int,
            ));
            assert forall|a: int, b: int| 0 <= a < b < agents.agents@.len() implies agents.agents@[a].id
                < agents.agents@[b].id by {
                assert(old(agents).agents@[a].id < old(agents).agents@[b].id);
            }
            assert forall|k: int| 0 <= k < agents.agents@.len() implies (
            #[trigger] agents.agents@[k]).id < agents.next_id && agent_bounded(
                agents.agents@[k],
            ) by {
                assert(agent_bounded(old(agents).agents@[k]));
                assert(old(agents).agents@[k].id < old(agents).next_id);
            }
        }
    }
}

/// Personality and strategy adaptation.
pub struct BehaviorOptimizer {
    pub learning_rate: i64,
    pub adaptation_threshold: i64,
}

impl BehaviorOptimizer {
    /// An optimizer with the default learning rate and threshold.
    pub fn new() -> (r: BehaviorOptimizer)
        ensures
            r.learning_rate == LEARNING_RATE,
            r.adaptation_threshold == ADAPTATION_THRESHOLD,
    {
        BehaviorOptimizer { learning_rate: LEARNING_RATE, adaptation_threshold: ADAPTATION_THRESHOLD }
    }

    /// Apply the behaviour pass to every agent.
    pub fn optimize(&mut self, agents: &mut AgentEngine)
        requires
            old(agents).wf(),
            0 <= old(self).learning_rate <= SCALE,
        ensures
            *final(self) == *old(self),
            final(agents).wf(),
            final(agents).next_id == old(agents).next_id,
            final(agents).interaction_count == old(agents).interaction_count,
            final(agents).agents@ == behavior_seq(
                old(agents).agents@,
                old(self).learning_rate as int,
            ),
    {
        let n = agents.agents.len();
        let lr = self.learning_rate;
        let mut i: usize = 0;
        while i < n
            invariant
                old(agents).wf(),
                *self == *old(self),
                lr == old(self).learning_rate,
                0 <= lr <= SCALE,
                n == agents.agents@.len() == old(agents).agents@.len(),
                0 <= i <= n,
                agents.next_id == old(agents).next_id,
                agents.interaction_count == old(agents).interaction_count,
                forall|k: int| 0 <= k < i ==> #[trigger] agents.agents@[k] == behavior_updated(
                    old(agents).agents@[k],
                    lr as int,
                ),
                forall|k: int| i <= k < n ==> #[trigger] agents.agents@[k] == old(
                    agents,
                ).agents@[k],
            decreases n - i,
        {
            proof {
                assert(agent_bounded(old(agents).agents@[i as int]));
            }
            let mut tmp = AgentEngine::placeholder();
            agents.agents.set_and_swap(i, &mut tmp);
            let upd = match tmp.kind {
                AgentKind::Citizen(mut c) => {
                    if tmp.energy > 80_000_000 {
                        match c.personality.risk_tolerance {
                            Some(rt) => {
                                let nv = if rt + lr > SCALE {
                                    SCALE
                                } else {
                                    rt + lr
                                };
                                c.personality.risk_tolerance = Some(nv);
                            },
                            None => {},
                        }
                    } else if tmp.energy < 20_000_000 {
                        match c.personality.risk_tolerance {
                            Some(rt) => {
                                let nv = if rt - lr < 0 {
                                    0
                                } else {
                                    rt - lr
                                };
                                c.personality.risk_tolerance = Some(nv);
                            },
                            None => {},
                        }
                    }
                    let sp = match c.personality.social_preference {
                        Some(v) => v,
                        None => 500_000,
                    };
                    let energy_need = SCALE - div_trunc(tmp.energy as i128, 100) as i64;
                    let social_need = div_trunc(mul_i128(sp, 800_000), SCALE as i128) as i64;
                    c.needs = Needs { energy: Some(energy_need), social: Some(social_need) };
                    Agent {
                        id: tmp.id,
                        position: tmp.position,
                        velocity: tmp.velocity,
                        energy: tmp.energy,
                        kind: AgentKind::Citizen(c),
                    }
                },
                AgentKind::Business(mut b) => {
                    if b.revenue > 100_000_000 {
                        b.customers = if b.customers >= 1000 {
                            1000
                        } else {
                            b.customers + 1
                        };
                    } else if b.revenue < 10_000_000 {
                        b.customers = if b.customers >= 999 {
                            1000
                        } else {
                            b.customers + 2
                        };
                    }
                    let demand = (b.customers as i64) * 10_000;
                    b.products = crate::agents::Products { demand: Some(demand) };
                    Agent {
                        id: tmp.id,
                        position: tmp.position,
                        velocity: tmp.velocity,
                        energy: tmp.energy,
                        kind: AgentKind::Business(b),
                    }
                },
                AgentKind::Government(g) => Agent {
                    id: tmp.id,
                    position: tmp.position,
                    velocity: tmp.velocity,
                    energy: tmp.energy,
                    kind: AgentKind::Government(g),
                },
            };
            agents.agents.set(i, upd);
            i = i + 1;
        }
        proof {
            assert(agents.agents@ =~= behavior_seq(old(agents).agents@, lr as int));
            assert forall|a: int, b: int| 0 <= a < b < agents.agents@.len() implies agents.agents@[a].id
                < agents.agents@[b].id by {
                assert(old(agents).agents@[a].id < old(agents).agents@[b].id);
            }
            assert forall|k: int| 0 <= k < agents.agents@.len() implies (
            #[trigger] agents.agents@[k]).id < agents.next_id && agent_bounded(
                agents.agents@[k],
            ) by {
                assert(agent_bounded(old(agents).agents@[k]));
                assert(old(agents).agents@[k].id < old(agents).next_id);
            }
        }
    }
}

/// The optimization pipeline: the three heuristic passes in fixed order.
pub struct OptimizationEngine {
    pub traffic_optimizer: TrafficOptimizer,
    pub resource_optimizer: ResourceOptimizer,
    pub behavior_optimizer: BehaviorOptimizer,
}

impl OptimizationEngine {
    /// A pipeline with all three optimizers at their defaults.
    pub fn new() -> (r: OptimizationEngine)
        ensures
            r.traffic_optimizer.congestion_threshold == CONGESTION_THRESHOLD,
            r.traffic_optimizer.optimization_strength == OPTIMIZATION_STRENGTH,
            r.resource_optimizer.redistribution_rate == REDISTRIBUTION_RATE,
            r.resource_optimizer.resource_efficiency == RESOURCE_EFFICIENCY,
            r.behavior_optimizer.learning_rate == LEARNING_RATE,
            r.behavior_optimizer.adaptation_threshold == ADAPTATION_THRESHOLD,
    {
        OptimizationEngine {
            traffic_optimizer: TrafficOptimizer::new(),
            resource_optimizer: ResourceOptimizer::new(),
            behavior_optimizer: BehaviorOptimizer::new(),
        }
    }

    /// Run the traffic pass.
    pub fn optimize_traffic(&mut self, agents: &mut AgentEngine)
        requires
            old(agents).wf(),
            0 <= old(self).traffic_optimizer.congestion_threshold <= CAP,
            0 <= old(self).traffic_optimizer.optimization_strength <= CAP,
        ensures
            *final(self) == *old(self),
            final(agents).wf(),
            final(agents).next_id == old(agents).next_id,
            final(agents).interaction_count == old(agents).interaction_count,
            final(agents).agents@ == traffic_seq(
                old(agents).agents@,
                old(self).traffic_optimizer.congestion_threshold as int,
                old(self).traffic_optimizer.optimization_strength as int,
            ),
    {
        self.traffic_optimizer.optimize(agents);
    }

    /// Run the resource pass.
    pub fn optimize_resources(&mut self, agents: &mut AgentEngine)
        requires
            old(agents).wf(),
            0 <= old(self).resource_optimizer.redistribution_rate <= SCALE,
        ensures
            *final(self) == *old(self),
            final(agents).wf(),
            final(agents).next_id == old(agents).next_id,
            final(agents).interaction_count == old(agents).interaction_count,
            final(agents).agents@ == resource_seq(
                old(agents).agents@,
                old(self).resource_optimizer.redistribution_rate as int,
            ),
    {
        self.resource_optimizer.optimize(agents);
    }

    /// Run the behaviour pass.
    pub fn optimize_behavior(&mut self, agents: &mut AgentEngine)
        requires
            old(agents).wf(),
            0 <= old(self).behavior_optimizer.learning_rate <= SCALE,
        ensures
            *final(self) == *old(self),
            final(agents).wf(),
            final(agents).next_id == old(agents).next_id,
            final(agents).interaction_count == old(agents).interaction_count,
            final(agents).agents@ == behavior_seq(
                old(agents).agents@,
                old(self).behavior_optimizer.learning_rate as int,
            ),
    {
        self.behavior_optimizer.optimize(agents);
    }

    /// Run all three passes in the fixed per-tick order: traffic, then
    /// resource, then behaviour.
    pub fn run(&mut self, agents: &mut AgentEngine)
        requires
            old(agents).wf(),
            0 <= old(self).traffic_optimizer.congestion_threshold <= CAP,
            0 <= old(self).traffic_optimizer.optimization_strength <= CAP,
            0 <= old(self).resource_optimizer.redistribution_rate <= SCALE,
            0 <= old(self).behavior_optimizer.learning_rate <= SCALE,
        ensures
            *final(self) == *old(self),
            final(agents).wf(),
            final(agents).next_id == old(agents).next_id,
            final(agents).interaction_count == old(agents).interaction_count,
            final(agents).agents@ == behavior_seq(
                resource_seq(
                    traffic_seq(
                        old(agents).agents@,
                        old(self).traffic_optimizer.congestion_threshold as int,
                        old(self).traffic_optimizer.optimization_strength as int,
                    ),
                    old(self).resource_optimizer.redistribution_rate as int,
                ),
                old(self).behavior_optimizer.learning_rate as int,
            ),
    {
        self.traffic_optimizer.optimize(agents);
        self.resource_optimizer.optimize(agents);
        self.behavior_optimizer.optimize(agents);
    }
}

/// `u * c / SCALE` for a scaled direction component and a congestion value.
fn div_trunc_signed_scale(u: i128, c: i64) -> (r: i128)
    requires
        -4_000_000_000_000_000_000_000 <= u <= 4_000_000_000_000_000_000_000,
        -CAP <= c <= CAP,
    ensures
        r == sdiv(u * c, SCALE as int),
        -4_000_000_000_000_000_000_000_000_000_000_000_000 <= r
            <= 4_000_000_000_000_000_000_000_000_000_000_000_000,
{
    proof {
        assert(u * (c as int) <= 4_000_000_000_000_000_000_000 * 1_000_000_000_000_000 && u * (
        c as int) >= -(4_000_000_000_000_000_000_000 * 1_000_000_000_000_000))
            by (nonlinear_arith)
            requires
                -4_000_000_000_000_000_000_000 <= u <= 4_000_000_000_000_000_000_000,
                -1_000_000_000_000_000 <= c as int <= 1_000_000_000_000_000,
        ;
    }
    let p: i128 = u * (c as i128);
    div_trunc(p, SCALE as i128)
}

proof fn lemma_cong_total_bounds(ps: Seq<Vec2>, cx: int, cy: int, n: int)
    requires
        n >= 0,
    ensures
        -CAP <= cong_total_upto(ps, cx, cy, n) <= CAP,
    decreases n,
{
    if n > 0 {
        lemma_cong_total_bounds(ps, cx, cy, n - 1);
    }
}

proof fn lemma_local_cong_bounds(ps: Seq<Vec2>, i: int, m: int)
    requires
        m >= 0,
    ensures
        0 <= local_cong_upto(ps, i, m) <= m * SCALE,
    decreases m,
{
    if m > 0 {
        lemma_local_cong_bounds(ps, i, m - 1);
        if m - 1 != i {
            let d = dist_spec(
                ps[i].x as int,
                ps[i].y as int,
                ps[m - 1].x as int,
                ps[m - 1].y as int,
            );
            crate::mathutil::lemma_isqrt_bounds(
                (((ps[m - 1].x - ps[i].x) * (ps[m - 1].x - ps[i].x)) + ((ps[m - 1].y - ps[i].y) * (
                ps[m - 1].y - ps[i].y))) as nat,
            );
            if d < CONGESTION_RADIUS {
                vstd::arithmetic::div_mod::lemma_div_is_ordered_by_denominator(
                    (SCALE as int) * (SCALE as int),
                    SCALE as int,
                    d + SCALE,
                );
                assert(((SCALE as int) * (SCALE as int)) / (SCALE as int) == SCALE)
                    by (nonlinear_arith);
                vstd::arithmetic::div_mod::lemma_div_pos_is_pos(
                    (SCALE as int) * (SCALE as int),
                    d + SCALE,
                );
            }
        }
        assert((m - 1) * SCALE + SCALE == m * SCALE) by (nonlinear_arith);
    }
}

} // verus!
