//! The physics engine: per-tick position integration, boundary clamping,
//! pairwise collision resolution, and the uniform spatial grid rebuilt from
//! scratch every tick as a read-only index over the tick's final positions.
use vstd::prelude::*;
use vstd::pervasive::VecAdditionalExecFns;
use crate::mathutil::{CAP, SCALE, sdiv, cap_val, cap_i128, div_trunc, mul_i128, dist_spec, distance};
use crate::agents::{Agent, AgentEngine, Vec2};

verus! {

/// Grid cell size (50 world units), fixed at construction.
pub const GRID_CELL_SIZE: i64 = 50_000_000;

/// Default collision radius (5 world units).
pub const COLLISION_RADIUS: i64 = 5_000_000;

/// Air-resistance factor applied by `apply_force` (0.95).
pub const FRICTION: i64 = 950_000;

/// One occupied cell of the spatial grid: integer cell coordinates and the
/// ids of the agents inside, in store order.
pub struct GridCell {
    pub cx: i64,
    pub cy: i64,
    pub ids: Vec<u32>,
}

/// No two cells of the list carry the same coordinates.
pub open spec fn grid_keys_unique(cells: Seq<GridCell>) -> bool {
    forall|a: int, b: int| 0 <= a < b < cells.len() ==> !((#[trigger] cells[a]).cx == (
    #[trigger] cells[b]).cx && cells[a].cy == cells[b].cy)
}

/// Index of the first cell with the given coordinates at or after `k`, or
/// -1 when there is none.
pub open spec fn cell_find(cells: Seq<GridCell>, cx: int, cy: int, k: int) -> int
    decreases cells.len() - k,
{
    if k < 0 || k >= cells.len() {
        -1
    } else if cells[k].cx == cx && cells[k].cy == cy {
        k
    } else {
        cell_find(cells, cx, cy, k + 1)
    }
}

/// The ids held by the cell with the given coordinates; empty when the cell
/// is not in the list.
pub open spec fn cell_ids(cells: Seq<GridCell>, cx: int, cy: int) -> Seq<u32> {
    let k = cell_find(cells, cx, cy, 0);
    if k == -1 {
        Seq::empty()
    } else {
        cells[k].ids@
    }
}

/// Ids of the first `n` agents whose position truncates into cell
/// `(cx, cy)`, in store order.
pub open spec fn ids_in_cell_upto(s: Seq<Agent>, cs: int, cx: int, cy: int, n: int) -> Seq<u32>
    decreases n,
{
    if n <= 0 {
        Seq::empty()
    } else {
        let pre = ids_in_cell_upto(s, cs, cx, cy, n - 1);
        if sdiv(s[n - 1].position.x as int, cs) == cx && sdiv(s[n - 1].position.y as int, cs)
            == cy {
            pre.push(s[n - 1].id)
        } else {
            pre
        }
    }
}

/// The grid is exactly the cell-to-ids mapping induced by the agents'
/// current positions.
pub open spec fn grid_matches(cells: Seq<GridCell>, s: Seq<Agent>, cs: int) -> bool {
    forall|cx: int, cy: int| #[trigger] cell_ids(cells, cx, cy) == ids_in_cell_upto(
        s,
        cs,
        cx,
        cy,
        s.len() as int,
    )
}

proof fn lemma_cell_find_found(cells: Seq<GridCell>, cx: int, cy: int, k: int)
    requires
        0 <= k,
    ensures
        cell_find(cells, cx, cy, k) != -1 ==> {
            let r = cell_find(cells, cx, cy, k);
            &&& k <= r < cells.len()
            &&& cells[r].cx == cx
            &&& cells[r].cy == cy
        },
    decreases cells.len() - k,
{
    if k < cells.len() && !(cells[k].cx == cx && cells[k].cy == cy) {
        lemma_cell_find_found(cells, cx, cy, k + 1);
    }
}

proof fn lemma_cell_find_none(cells: Seq<GridCell>, cx: int, cy: int, k: int)
    requires
        0 <= k,
        cell_find(cells, cx, cy, k) == -1,
    ensures
        forall|m: int| k <= m < cells.len() ==> !((#[trigger] cells[m]).cx == cx && cells[m].cy
            == cy),
    decreases cells.len() - k,
{
    if k < cells.len() {
        lemma_cell_find_none(cells, cx, cy, k + 1);
    }
}

/// Two cell lists with pointwise equal coordinates give equal find results.
proof fn lemma_cell_find_frame(c1: Seq<GridCell>, c2: Seq<GridCell>, cx: int, cy: int, k: int)
    requires
        0 <= k,
        c1.len() == c2.len(),
        forall|i: int| 0 <= i < c1.len() ==> (#[trigger] c1[i]).cx == c2[i].cx && c1[i].cy
            == c2[i].cy,
    ensures
        cell_find(c1, cx, cy, k) == cell_find(c2, cx, cy, k),
    decreases c1.len() - k,
{
    if k < c1.len() && !(c1[k].cx == cx && c1[k].cy == cy) {
        lemma_cell_find_frame(c1, c2, cx, cy, k + 1);
    }
}

/// How appending a cell changes find results.
proof fn lemma_cell_find_push(cells: Seq<GridCell>, c: GridCell, cx: int, cy: int, k: int)
    requires
        0 <= k <= cells.len(),
    ensures
        cell_find(cells, cx, cy, k) != -1 ==> cell_find(cells.push(c), cx, cy, k) == cell_find(
            cells,
            cx,
            cy,
            k,
        ),
        cell_find(cells, cx, cy, k) == -1 && c.cx == cx && c.cy == cy ==> cell_find(
            cells.push(c),
            cx,
            cy,
            k,
        ) == cells.len(),
        cell_find(cells, cx, cy, k) == -1 && !(c.cx == cx && c.cy == cy) ==> cell_find(
            cells.push(c),
            cx,
            cy,
            k,
        ) == -1,
    decreases cells.len() - k,
{
    if k < cells.len() {
        if !(cells[k].cx == cx && cells[k].cy == cy) {
            lemma_cell_find_push(cells, c, cx, cy, k + 1);
        }
    } else {
        assert(cell_find(cells.push(c), cx, cy, k + 1) == -1);
    }
}

/// Record `id` in the cell `(cx, cy)`, creating the cell if absent: exactly
/// one mapping entry changes, by appending `id`.
fn grid_insert(grid: &mut Vec<GridCell>, cx: i64, cy: i64, id: u32)
    requires
        grid_keys_unique(old(grid)@),
    ensures
        grid_keys_unique(final(grid)@),
        forall|qx: int, qy: int| #[trigger] cell_ids(final(grid)@, qx, qy) == if qx == cx && qy
            == cy {
            cell_ids(old(grid)@, qx, qy).push(id)
        } else {
            cell_ids(old(grid)@, qx, qy)
        },
{
    let n = grid.len();
    let mut k: usize = 0;
    while k < n
        invariant
            grid_keys_unique(grid@),
            *grid == *old(grid),
            n == grid@.len(),
            0 <= k <= n,
            cell_find(grid@, cx as int, cy as int, 0) == cell_find(grid@, cx as int, cy as int, k as int),
        decreases n - k,
    {
        if grid[k].cx == cx && grid[k].cy == cy {
            let ghost pre = grid@;
            let mut cell = GridCell { cx: 0, cy: 0, ids: Vec::new() };
            grid.set_and_swap(k, &mut cell);
            cell.ids.push(id);
            grid.set(k, cell);
            proof {
                let cur = grid@;
                assert(forall|i: int| 0 <= i < cur.len() ==> (#[trigger] cur[i]).cx == pre[i].cx
                    && cur[i].cy == pre[i].cy);
                assert forall|qx: int, qy: int| #[trigger] cell_ids(cur, qx, qy) == (if qx == cx
                    && qy == cy {
                    cell_ids(pre, qx, qy).push(id)
                } else {
                    cell_ids(pre, qx, qy)
                }) by {
                    lemma_cell_find_frame(pre, cur, qx, qy, 0);
                    lemma_cell_find_found(pre, qx, qy, 0);
                    let f = cell_find(pre, qx, qy, 0);
                    if qx == cx && qy == cy {
                        assert(cell_find(pre, qx, qy, 0) == k as int);
                    } else {
                        if f != -1 {
                            assert(!(pre[f].cx == cx && pre[f].cy == cy));
                            assert(f != k as int);
                            assert(cur[f] == pre[f]);
                        }
                    }
                }
                assert forall|a: int, b: int| 0 <= a < b < cur.len() implies !((
                #[trigger] cur[a]).cx == (#[trigger] cur[b]).cx && cur[a].cy == cur[b].cy) by {
                    assert(!(pre[a].cx == pre[b].cx && pre[a].cy == pre[b].cy));
                }
            }
            return ;
        }
        k = k + 1;
    }
    let ghost pre = grid@;
    let mut ids: Vec<u32> = Vec::new();
    ids.push(id);
    let newcell = GridCell { cx, cy, ids };
    grid.push(newcell);
    proof {
        let cur = grid@;
        assert(cell_find(pre, cx as int, cy as int, 0) == -1);
        lemma_cell_find_none(pre, cx as int, cy as int, 0);
        assert forall|qx: int, qy: int| #[trigger] cell_ids(cur, qx, qy) == (if qx == cx && qy
            == cy {
            cell_ids(pre, qx, qy).push(id)
        } else {
            cell_ids(pre, qx, qy)
        }) by {
            lemma_cell_find_push(pre, newcell, qx, qy, 0);
            lemma_cell_find_found(pre, qx, qy, 0);
            if qx == cx && qy == cy {
                assert(cell_find(cur, qx, qy, 0) == pre.len());
                assert(cell_ids(cur, qx, qy) == newcell.ids@);
                assert(cell_ids(pre, qx, qy).push(id) =~= newcell.ids@);
            } else {
                let f = cell_find(pre, qx, qy, 0);
                if f != -1 {
                    assert(cur[f] == pre[f]);
                }
            }
        }
        assert forall|a: int, b: int| 0 <= a < b < cur.len() implies !((#[trigger] cur[a]).cx == (
        #[trigger] cur[b]).cx && cur[a].cy == cur[b].cy) by {
            if b < pre.len() {
                assert(!(pre[a].cx == pre[b].cx && pre[a].cy == pre[b].cy));
            } else {
                assert(cur[b] == newcell);
                assert(!(pre[a].cx == cx && pre[a].cy == cy));
            }
        }
    }
}

/// The physics engine: the bounded area, fixed collision and friction
/// parameters, and the spatial grid of the latest physics update.
pub struct CityPhysics {
    pub width: i64,
    pub height: i64,
    pub gravity: i64,
    pub friction: i64,
    pub collision_radius: i64,
    pub spatial_grid: Vec<GridCell>,
    pub grid_size: i64,
}

impl CityPhysics {
    /// Engine parameters are bounded and the grid keys are unique.
    pub open spec fn wf(&self) -> bool {
        &&& 0 <= self.width <= CAP
        &&& 0 <= self.height <= CAP
        &&& 1 <= self.grid_size <= CAP
        &&& 0 <= self.collision_radius <= CAP
        &&& 0 <= self.friction <= SCALE
        &&& grid_keys_unique(self.spatial_grid@)
    }

    /// A new engine over a `width x height` area, with the fixed default
    /// cell size, collision radius and friction, and an empty grid.
    pub fn new(width: i64, height: i64) -> (r: CityPhysics)
        requires
            0 <= width <= CAP,
            0 <= height <= CAP,
        ensures
            r.wf(),
            r.width == width,
            r.height == height,
            r.gravity == 0,
            r.friction == FRICTION,
            r.collision_radius == COLLISION_RADIUS,
            r.grid_size == GRID_CELL_SIZE,
            r.spatial_grid@.len() == 0,
    {
        CityPhysics {
            width,
            height,
            gravity: 0,
            friction: FRICTION,
            collision_radius: COLLISION_RADIUS,
            spatial_grid: Vec::new(),
            grid_size: GRID_CELL_SIZE,
        }
    }

    /// Rebuild the spatial grid from scratch out of the agents' current
    /// positions, in store order.
    fn update_spatial_grid(&mut self, agents: &AgentEngine)
        requires
            old(self).wf(),
            agents.wf(),
        ensures
            final(self).wf(),
            final(self).width == old(self).width,
            final(self).height == old(self).height,
            final(self).gravity == old(self).gravity,
            final(self).friction == old(self).friction,
            final(self).collision_radius == old(self).collision_radius,
            final(self).grid_size == old(self).grid_size,
            grid_matches(final(self).spatial_grid@, agents.agents@, final(self).grid_size as int),
    {
        self.spatial_grid = Vec::new();
        let n = agents.agents.len();
        let mut i: usize = 0;
        while i < n
            invariant
                old(self).wf(),
                agents.wf(),
                n == agents.agents@.len(),
                0 <= i <= n,
                self.width == old(self).width,
                self.height == old(self).height,
                self.gravity == old(self).gravity,
                self.friction == old(self).friction,
                self.collision_radius == old(self).collision_radius,
                self.grid_size == old(self).grid_size,
                grid_keys_unique(self.spatial_grid@),
                forall|qx: int, qy: int| #[trigger] cell_ids(self.spatial_grid@, qx, qy)
                    == ids_in_cell_upto(
                    agents.agents@,
                    self.grid_size as int,
                    qx,
                    qy,
                    i as int,
                ),
            decreases n - i,
        {
            let a = &agents.agents[i];
            proof {
                assert(crate::agents::agent_bounded(agents.agents@[i as int]));
            }
            let cx = div_trunc(a.position.x as i128, self.grid_size as i128) as i64;
            let cy = div_trunc(a.position.y as i128, self.grid_size as i128) as i64;
            grid_insert(&mut self.spatial_grid, cx, cy, a.id);
            i = i + 1;
        }
    }

    /// One physics tick over the whole store: integrate positions from
    /// velocities, clamp into the area, resolve pairwise collisions, and
    /// rebuild the spatial grid from the resulting positions.
    pub fn update_physics(&mut self, agents: &mut AgentEngine, dt: i64)
        requires
            old(self).wf(),
            old(agents).wf(),
        ensures
            final(self).wf(),
            final(agents).wf(),
            final(self).width == old(self).width,
            final(self).height == old(self).height,
            final(self).gravity == old(self).gravity,
            final(self).friction == old(self).friction,
            final(self).collision_radius == old(self).collision_radius,
            final(self).grid_size == old(self).grid_size,
            final(agents).next_id == old(agents).next_id,
            final(agents).interaction_count == old(agents).interaction_count,
            final(agents).agents@.len() == old(agents).agents@.len(),
            final(agents).agents@ == CityPhysics::physics_spec(
                old(agents).agents@,
                dt as int,
                old(self).width as int,
                old(self).height as int,
                old(self).collision_radius as int,
            ),
            forall|i: int| 0 <= i < old(agents).agents@.len() ==> (
            #[trigger] final(agents).agents@[i]).id == old(agents).agents@[i].id,
            grid_matches(final(self).spatial_grid@, final(agents).agents@, final(self).grid_size as int),
    {
        self.spatial_grid = Vec::new();
        let ghost s0 = agents.agents@;
        agents.update_positions(dt);
        proof {
            assert(agents.agents@ =~= CityPhysics::integrate_seq(s0, dt as int));
        }
        let ghost s1 = agents.agents@;
        agents.apply_boundary_constraints(self.width, self.height);
        proof {
            assert(agents.agents@ =~= CityPhysics::clamp_seq(
                s1,
                self.width as int,
                self.height as int,
            ));
        }
        let ghost s2 = agents.agents@;
        agents.handle_collisions(self.collision_radius);
        proof {
            assert forall|i: int| 0 <= i < s0.len() implies (#[trigger] agents.agents@[i]).id
                == s0[i].id by {
                assert(s2[i].id == s1[i].id && s1[i].id == s0[i].id);
            }
        }
        self.update_spatial_grid(agents);
    }

    /// Every agent integrated by `dt`.
    pub open spec fn integrate_seq(s: Seq<Agent>, dt: int) -> Seq<Agent> {
        Seq::new(s.len(), |i: int| AgentEngine::integrated(s[i], dt))
    }

    /// Every agent clamped into the area.
    pub open spec fn clamp_seq(s: Seq<Agent>, w: int, h: int) -> Seq<Agent> {
        Seq::new(s.len(), |i: int| AgentEngine::clamped(s[i], w, h))
    }

    /// The whole physics stage: integration, clamping, collision
    /// resolution, in that order.
    pub open spec fn physics_spec(s: Seq<Agent>, dt: int, w: int, h: int, r: int) -> Seq<Agent> {
        AgentEngine::collide_all(
            CityPhysics::clamp_seq(CityPhysics::integrate_seq(s, dt), w, h),
            r,
        )
    }

    /// Ids gathered from the cells `(cxq, cy0 - gr) ..= (cxq, cy0 - gr + t - 1)`
    /// of one column of the scanned block, in scan order.
    pub open spec fn row_ids_upto(
        cells: Seq<GridCell>,
        cxq: int,
        cy0: int,
        gr: int,
        t: int,
    ) -> Seq<u32>
        decreases t,
    {
        if t <= 0 {
            Seq::empty()
        } else {
            CityPhysics::row_ids_upto(cells, cxq, cy0, gr, t - 1) + cell_ids(
                cells,
                cxq,
                cy0 - gr + (t - 1),
            )
        }
    }

    /// Ids gathered from the first `u` columns of the scanned block.
    pub open spec fn block_ids_upto(
        cells: Seq<GridCell>,
        cx0: int,
        cy0: int,
        gr: int,
        u: int,
    ) -> Seq<u32>
        decreases u,
    {
        if u <= 0 {
            Seq::empty()
        } else {
            CityPhysics::block_ids_upto(cells, cx0, cy0, gr, u - 1) + CityPhysics::row_ids_upto(
                cells,
                cx0 - gr + (u - 1),
                cy0,
                gr,
                2 * gr + 1,
            )
        }
    }

    /// Ceiling of `radius / cell`, the block half-width in cells.
    pub open spec fn grid_radius_spec(radius: int, cell: int) -> int {
        sdiv(radius + cell - 1, cell)
    }

    /// Every id recorded in the square block of grid cells of half-width
    /// `ceil(radius / grid_size)` around the cell of `(x, y)`, in scan
    /// order. The result may include ids farther than `radius`; callers
    /// needing exactness re-filter by true distance.
    pub fn get_agents_in_area(&self, x: i64, y: i64, radius: i64) -> (r: Vec<u32>)
        requires
            self.wf(),
            -CAP <= x <= CAP,
            -CAP <= y <= CAP,
            0 <= radius <= CAP,
        ensures
            r@ == CityPhysics::block_ids_upto(
                self.spatial_grid@,
                sdiv(x as int, self.grid_size as int),
                sdiv(y as int, self.grid_size as int),
                CityPhysics::grid_radius_spec(radius as int, self.grid_size as int),
                2 * CityPhysics::grid_radius_spec(radius as int, self.grid_size as int) + 1,
            ),
    {
        let gs = self.grid_size;
        let gr: i64 = div_trunc(radius as i128 + gs as i128 - 1, gs as i128) as i64;
        let cx0: i64 = div_trunc(x as i128, gs as i128) as i64;
        let cy0: i64 = div_trunc(y as i128, gs as i128) as i64;
        let span: i64 = 2 * gr + 1;
        let mut out: Vec<u32> = Vec::new();
        let mut u: i64 = 0;
        while u < span
            invariant
                self.wf(),
                0 <= gr <= 2 * CAP,
                -CAP <= cx0 <= CAP,
                -CAP <= cy0 <= CAP,
                span == 2 * gr + 1,
                0 <= u <= span,
                out@ == CityPhysics::block_ids_upto(
                    self.spatial_grid@,
                    cx0 as int,
                    cy0 as int,
                    gr as int,
                    u as int,
                ),
            decreases span - u,
        {
            let cxq: i64 = cx0 - gr + u;
            let mut t: i64 = 0;
            while t < span
                invariant
                    self.wf(),
                    0 <= gr <= 2 * CAP,
                    -CAP <= cx0 <= CAP,
                    -CAP <= cy0 <= CAP,
                    span == 2 * gr + 1,
                    0 <= u < span,
                    cxq == cx0 - gr + u,
                    0 <= t <= span,
                    out@ == CityPhysics::block_ids_upto(
                        self.spatial_grid@,
                        cx0 as int,
                        cy0 as int,
                        gr as int,
                        u as int,
                    ) + CityPhysics::row_ids_upto(
                        self.spatial_grid@,
                        cxq as int,
                        cy0 as int,
                        gr as int,
                        t as int,
                    ),
                decreases span - t,
            {
                let cyq: i64 = cy0 - gr + t;
                let ghost base = out@;
                match CityPhysics::find_cell(&self.spatial_grid, cxq, cyq) {
                    Some(k) => {
                        let m_end = self.spatial_grid[k].ids.len();
                        let mut m: usize = 0;
                        while m < m_end
                            invariant
                                k < self.spatial_grid@.len(),
                                m_end == self.spatial_grid@[k as int].ids@.len(),
                                0 <= m <= m_end,
                                out@ == base + self.spatial_grid@[k as int].ids@.take(m as int),
                            decreases m_end - m,
                        {
                            out.push(self.spatial_grid[k].ids[m]);
                            proof {
                                assert(self.spatial_grid@[k as int].ids@.take(m as int + 1)
                                    =~= self.spatial_grid@[k as int].ids@.take(m as int).push(
                                    self.spatial_grid@[k as int].ids@[m as int],
                                ));
                            }
                            m = m + 1;
                        }
                        proof {
                            assert(self.spatial_grid@[k as int].ids@.take(m_end as int)
                                =~= self.spatial_grid@[k as int].ids@);
                            assert(cell_ids(self.spatial_grid@, cxq as int, cyq as int)
                                == self.spatial_grid@[k as int].ids@);
                        }
                    },
                    None => {
                        proof {
                            assert(cell_ids(self.spatial_grid@, cxq as int, cyq as int)
                                =~= Seq::<u32>::empty());
                            assert(out@ =~= base + cell_ids(
                                self.spatial_grid@,
                                cxq as int,
                                cyq as int,
                            ));
                        }
                    },
                }
                t = t + 1;
            }
            u = u + 1;
        }
        out
    }

    /// Index of the grid cell with the given coordinates, if present.
    fn find_cell(cells: &Vec<GridCell>, cx: i64, cy: i64) -> (r: Option<usize>)
        ensures
            match r {
                Some(k) => k as int == cell_find(cells@, cx as int, cy as int, 0) && k
                    < cells@.len(),
                None => cell_find(cells@, cx as int, cy as int, 0) == -1,
            },
    {
        let n = cells.len();
        let mut k: usize = 0;
        while k < n
            invariant
                n == cells@.len(),
                0 <= k <= n,
                cell_find(cells@, cx as int, cy as int, 0) == cell_find(
                    cells@,
                    cx as int,
                    cy as int,
                    k as int,
                ),
            decreases n - k,
        {
            if cells[k].cx == cx && cells[k].cy == cy {
                return Some(k);
            }
            k = k + 1;
        }
        None
    }

    /// Euclidean distance between two points (floor-rounded micro-units).
    pub fn distance(&self, x1: i64, y1: i64, x2: i64, y2: i64) -> (r: i64)
        requires
            -CAP <= x1 <= CAP,
            -CAP <= y1 <= CAP,
            -CAP <= x2 <= CAP,
            -CAP <= y2 <= CAP,
        ensures
            r == dist_spec(x1 as int, y1 as int, x2 as int, y2 as int),
    {
        distance(x1, y1, x2, y2)
    }

    /// Whether two positions are within twice the collision radius.
    pub fn are_colliding(&self, pos1: (i64, i64), pos2: (i64, i64)) -> (r: bool)
        requires
            self.wf(),
            -CAP <= pos1.0 <= CAP,
            -CAP <= pos1.1 <= CAP,
            -CAP <= pos2.0 <= CAP,
            -CAP <= pos2.1 <= CAP,
        ensures
            r == (dist_spec(pos1.0 as int, pos1.1 as int, pos2.0 as int, pos2.1 as int) < 2
                * self.collision_radius),
    {
        let d = distance(pos1.0, pos1.1, pos2.0, pos2.1);
        d < 2 * self.collision_radius
    }

    /// Velocity after applying `force` over `dt` and the engine's friction:
    /// `(v + force * dt) * friction`, each step saturated.
    pub fn apply_force(&self, velocity: &mut Vec2, force: Vec2, dt: i64)
        requires
            self.wf(),
            -CAP <= old(velocity).x <= CAP,
            -CAP <= old(velocity).y <= CAP,
            -CAP <= force.x <= CAP,
            -CAP <= force.y <= CAP,
        ensures
            final(velocity).x == cap_val(
                sdiv(
                    cap_val(old(velocity).x + sdiv(force.x * dt, SCALE as int)) * self.friction,
                    SCALE as int,
                ),
            ),
            final(velocity).y == cap_val(
                sdiv(
                    cap_val(old(velocity).y + sdiv(force.y * dt, SCALE as int)) * self.friction,
                    SCALE as int,
                ),
            ),
    {
        let qx = div_trunc(mul_i128(force.x, dt), SCALE as i128);
        let tx = cap_i128(velocity.x as i128 + qx);
        velocity.x = crate::mathutil::mul_div_cap(tx, self.friction, SCALE);
        let qy = div_trunc(mul_i128(force.y, dt), SCALE as i128);
        let ty = cap_i128(velocity.y as i128 + qy);
        velocity.y = crate::mathutil::mul_div_cap(ty, self.friction, SCALE);
    }

    /// The bounds of the area as `(min x, min y, max x, max y)`.
    pub fn get_bounds(&self) -> (r: (i64, i64, i64, i64))
        ensures
            r == (0i64, 0i64, self.width, self.height),
    {
        (0, 0, self.width, self.height)
    }

    /// Whether a point lies inside the half-open area.
    pub fn is_within_bounds(&self, x: i64, y: i64) -> (r: bool)
        ensures
            r == (0 <= x < self.width && 0 <= y < self.height),
    {
        x >= 0 && x < self.width && y >= 0 && y < self.height
    }

    /// A uniformly random point of the area.
    pub fn get_random_position(&self, rng: &mut rand::rngs::StdRng) -> (r: (i64, i64))
        requires
            self.wf(),
            self.width > 0,
            self.height > 0,
        ensures
            0 <= r.0 < self.width,
            0 <= r.1 < self.height,
    {
        let x = crate::randutil::random_range(0, self.width, rng);
        let y = crate::randutil::random_range(0, self.height, rng);
        (x, y)
    }
}

} // verus!
