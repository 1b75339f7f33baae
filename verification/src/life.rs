//! The cellular-automaton engine: a width x height grid of life cells that
//! advances one Game-of-Life generation per fixed interval.
//!
//! Neighbor addressing is bounds-checked on both axes. A flat-offset form
//! (`index + dx + dy * width`) would let cells at the left and right grid
//! edges sample neighbors from the adjacent rows; that wrap-around is
//! deliberately not kept here, so the rule acts on the strict 2D
//! neighborhood.

use vstd::prelude::*;
use vstd::arithmetic::div_mod::lemma_fundamental_div_mod;
use vstd::arithmetic::mul::lemma_mul_inequality;
use crate::grid::{Pos, Tile};
use crate::timer::{Timer, timer_wf, ticked_wrapping, fires};

verus! {

/// Milliseconds of one automaton generation interval.
pub const SIM_STEP_MS: u64 = 2000;

/// Bound on each grid side, so that `width * height` fits comfortably in
/// `usize` on any machine.
pub const GRID_LIMIT: usize = 0x8000;

/// A life cell's state.
#[derive(Clone, Copy, PartialEq, Eq, Structural, Debug)]
pub enum LifeType {
    Living,
    Dead,
}

/// A cell of the automaton: the state of the current generation and the
/// computed state for the next one.
#[derive(Clone, Copy, PartialEq, Eq, Structural, Debug)]
pub struct Lifetile {
    pub curstate: LifeType,
    pub nextstate: LifeType,
}

/// The automaton: a dense row-major grid of cells and the repeating interval
/// timer that paces generations.
#[derive(Clone, PartialEq, Eq, Debug)]
pub struct Sim {
    pub cells: Vec<Lifetile>,
    pub width: usize,
    pub height: usize,
    pub timer: Timer,
}

pub open spec fn sim_wf(s: Sim) -> bool {
    &&& s.cells@.len() == s.width * s.height
    &&& s.width <= GRID_LIMIT
    &&& s.height <= GRID_LIMIT
    &&& timer_wf(s.timer)
}

pub open spec fn one_if(b: bool) -> int {
    if b {
        1
    } else {
        0
    }
}

/// The coordinates lie on the grid.
pub open spec fn in_grid(w: int, h: int, x: int, y: int) -> bool {
    0 <= x < w && 0 <= y < h
}

/// The cell at (x, y) is on the grid and Living in the current generation.
pub open spec fn living_at(cells: Seq<Lifetile>, w: int, h: int, x: int, y: int) -> bool {
    in_grid(w, h, x, y) && cells[y * w + x].curstate is Living
}

/// Number of Living cells among the 8 cells surrounding (x, y); neighbors
/// off the grid count as Dead, and the cell itself is never counted.
pub open spec fn neighbor_count(cells: Seq<Lifetile>, w: int, h: int, x: int, y: int) -> int {
    one_if(living_at(cells, w, h, x - 1, y - 1)) + one_if(living_at(cells, w, h, x, y - 1))
        + one_if(living_at(cells, w, h, x + 1, y - 1)) + one_if(living_at(cells, w, h, x - 1, y))
        + one_if(living_at(cells, w, h, x + 1, y)) + one_if(living_at(cells, w, h, x - 1, y + 1))
        + one_if(living_at(cells, w, h, x, y + 1)) + one_if(living_at(cells, w, h, x + 1, y + 1))
}

/// The B3/S23 rule: a Living cell with a neighbor count outside {2,3} dies, a
/// Dead cell with exactly 3 neighbors is born, every other cell keeps its
/// state.
pub open spec fn life_rule(cur: LifeType, n: int) -> LifeType {
    match cur {
        LifeType::Living => if n < 2 || n > 3 {
            LifeType::Dead
        } else {
            LifeType::Living
        },
        LifeType::Dead => if n == 3 {
            LifeType::Living
        } else {
            LifeType::Dead
        },
    }
}

/// One full generation: every cell's state is the rule applied to a snapshot
/// of the current generation.
pub open spec fn stepped_cells(cells: Seq<Lifetile>, w: int, h: int) -> Seq<Lifetile> {
    Seq::new(
        cells.len(),
        |i: int|
            {
                let s = life_rule(cells[i].curstate, neighbor_count(cells, w, h, i % w, i / w));
                Lifetile { curstate: s, nextstate: s }
            },
    )
}

/// An on-grid coordinate pair maps to an in-range row-major index.
pub proof fn lemma_index_in_range(w: int, h: int, x: int, y: int)
    requires
        in_grid(w, h, x, y),
    ensures
        0 <= y * w + x < w * h,
{
    lemma_mul_inequality(y, h - 1, w);
    assert((h - 1) * w == h * w - w) by (nonlinear_arith);
    lemma_mul_inequality(0, y, w);
}

/// An in-range row-major index decomposes into on-grid coordinates, and the
/// decomposition inverts the index map.
pub proof fn lemma_coords_in_range(w: int, h: int, i: int)
    requires
        0 < w,
        0 <= i < w * h,
    ensures
        0 <= i % w < w,
        0 <= i / w < h,
        w * (i / w) + i % w == i,
{
    lemma_fundamental_div_mod(i, w);
    if i / w < 0 {
        lemma_mul_inequality(i / w, -1, w);
    }
    if i / w >= h {
        lemma_mul_inequality(h, i / w, w);
        assert(i >= w * h) by (nonlinear_arith)
            requires
                i == w * (i / w) + i % w,
                h * w <= (i / w) * w,
                i % w >= 0,
        ;
    }
}

/// Two on-grid positions with the same row-major index are the same position.
pub proof fn lemma_pos_index_injective(w: int, h: int, a: Pos, b: Pos)
    requires
        0 < w,
        pos_in_grid(w, h, a),
        pos_in_grid(w, h, b),
        pos_index(w, a) == pos_index(w, b),
    ensures
        a == b,
{
    let i = pos_index(w, a);
    vstd::arithmetic::div_mod::lemma_fundamental_div_mod_converse(i, w, a.y as int, a.x as int);
    vstd::arithmetic::div_mod::lemma_fundamental_div_mod_converse(i, w, b.y as int, b.x as int);
}

/// `living_at` reads only current states, so two grids that agree on every
/// cell's current state agree on it.
proof fn lemma_living_at_congruent(a: Seq<Lifetile>, b: Seq<Lifetile>, w: int, h: int, x: int, y: int)
    requires
        a.len() == b.len() == w * h,
        forall|j: int| 0 <= j < a.len() ==> a[j].curstate == #[trigger] b[j].curstate,
    ensures
        living_at(a, w, h, x, y) == living_at(b, w, h, x, y),
{
    if in_grid(w, h, x, y) {
        lemma_index_in_range(w, h, x, y);
    }
}

/// `neighbor_count` reads only current states.
proof fn lemma_neighbor_count_congruent(a: Seq<Lifetile>, b: Seq<Lifetile>, w: int, h: int, x: int, y: int)
    requires
        a.len() == b.len() == w * h,
        forall|j: int| 0 <= j < a.len() ==> a[j].curstate == #[trigger] b[j].curstate,
    ensures
        neighbor_count(a, w, h, x, y) == neighbor_count(b, w, h, x, y),
{
    lemma_living_at_congruent(a, b, w, h, x - 1, y - 1);
    lemma_living_at_congruent(a, b, w, h, x, y - 1);
    lemma_living_at_congruent(a, b, w, h, x + 1, y - 1);
    lemma_living_at_congruent(a, b, w, h, x - 1, y);
    lemma_living_at_congruent(a, b, w, h, x + 1, y);
    lemma_living_at_congruent(a, b, w, h, x - 1, y + 1);
    lemma_living_at_congruent(a, b, w, h, x, y + 1);
    lemma_living_at_congruent(a, b, w, h, x + 1, y + 1);
}

/// Whether the cell at (x, y) is Living; coordinates at or past either edge
/// read as Dead.
fn cell_living(cells: &Vec<Lifetile>, w: usize, h: usize, x: usize, y: usize) -> (b: bool)
    requires
        cells@.len() == w * h,
    ensures
        b == living_at(cells@, w as int, h as int, x as int, y as int),
{
    if x < w && y < h {
        let total = cells.len();
        proof {
            lemma_index_in_range(w as int, h as int, x as int, y as int);
            assert(y * w + x < total);
        }
        let idx = y * w + x;
        cells[idx].curstate == LifeType::Living
    } else {
        false
    }
}

/// Count the Living neighbors of (x, y) over the bounds-checked 3x3
/// neighborhood, the cell itself excluded.
fn count_living_neighbors(cells: &Vec<Lifetile>, w: usize, h: usize, x: usize, y: usize) -> (n: u8)
    requires
        cells@.len() == w * h,
        x < w,
        y < h,
        w <= GRID_LIMIT,
        h <= GRID_LIMIT,
    ensures
        n as int == neighbor_count(cells@, w as int, h as int, x as int, y as int),
{
    let mut n: u8 = 0;
    if x > 0 && y > 0 && cell_living(cells, w, h, x - 1, y - 1) {
        n = n + 1;
    }
    if y > 0 && cell_living(cells, w, h, x, y - 1) {
        n = n + 1;
    }
    if y > 0 && cell_living(cells, w, h, x + 1, y - 1) {
        n = n + 1;
    }
    if x > 0 && cell_living(cells, w, h, x - 1, y) {
        n = n + 1;
    }
    if cell_living(cells, w, h, x + 1, y) {
        n = n + 1;
    }
    if x > 0 && cell_living(cells, w, h, x - 1, y + 1) {
        n = n + 1;
    }
    if cell_living(cells, w, h, x, y + 1) {
        n = n + 1;
    }
    if cell_living(cells, w, h, x + 1, y + 1) {
        n = n + 1;
    }
    n
}

/// Advance the grid by exactly one generation: a first pass computes every
/// cell's next state from a consistent snapshot of current states, a second
/// pass commits the next states.
pub fn life_step(sim: &mut Sim)
    requires
        sim_wf(*old(sim)),
    ensures
        sim_wf(*final(sim)),
        final(sim).cells@ == stepped_cells(
            old(sim).cells@,
            old(sim).width as int,
            old(sim).height as int,
        ),
        final(sim).width == old(sim).width,
        final(sim).height == old(sim).height,
        final(sim).timer == old(sim).timer,
{
    let w = sim.width;
    let h = sim.height;
    let n = sim.cells.len();
    let ghost orig = sim.cells@;

    let mut i: usize = 0;
    while i < n
        invariant
            sim.width == w,
            sim.height == h,
            sim.timer == old(sim).timer,
            n == orig.len() == w * h,
            w <= GRID_LIMIT,
            h <= GRID_LIMIT,
            sim.cells@.len() == n,
            0 <= i <= n,
            forall|j: int| 0 <= j < n ==> sim.cells@[j].curstate == #[trigger] orig[j].curstate,
            forall|j: int|
                0 <= j < i ==> sim.cells@[j].nextstate == #[trigger] life_rule(
                    orig[j].curstate,
                    neighbor_count(orig, w as int, h as int, j % (w as int), j / (w as int)),
                ),
            forall|j: int| i <= j < n ==> sim.cells@[j].nextstate == #[trigger] orig[j].nextstate,
        decreases n - i,
    {
        proof {
            if w == 0 {
                assert(w * h == 0);
            }
        }
        let x = i % w;
        let y = i / w;
        proof {
            lemma_fundamental_div_mod(i as int, w as int);
            assert(0 <= (i as int % w as int) && (i as int % w as int) < w as int);
            if i as int / w as int >= h as int {
                lemma_mul_inequality(h as int, i as int / w as int, w as int);
                assert(h as int * w as int <= (i as int / w as int) * w as int);
                assert(i as int >= w as int * h as int) by (nonlinear_arith)
                    requires
                        i as int == w as int * (i as int / w as int) + i as int % w as int,
                        h as int * w as int <= (i as int / w as int) * w as int,
                        i as int % w as int >= 0,
                ;
                assert(false);
            }
        }
        let cnt = count_living_neighbors(&sim.cells, w, h, x, y);
        proof {
            lemma_neighbor_count_congruent(
                sim.cells@,
                orig,
                w as int,
                h as int,
                x as int,
                y as int,
            );
        }
        let cur = sim.cells[i].curstate;
        let ns = if cur == LifeType::Living {
            if cnt < 2 || cnt > 3 {
                LifeType::Dead
            } else {
                LifeType::Living
            }
        } else {
            if cnt == 3 {
                LifeType::Living
            } else {
                LifeType::Dead
            }
        };
        let updated = Lifetile { curstate: cur, nextstate: ns };
        sim.cells.set(i, updated);
        i = i + 1;
    }

    let mut k: usize = 0;
    let ghost computed = sim.cells@;
    while k < n
        invariant
            sim.width == w,
            sim.height == h,
            sim.timer == old(sim).timer,
            n == orig.len() == w * h,
            sim.cells@.len() == n,
            computed.len() == n,
            0 <= k <= n,
            forall|j: int| 0 <= j < n ==> #[trigger] computed[j].nextstate == life_rule(
                orig[j].curstate,
                neighbor_count(orig, w as int, h as int, j % (w as int), j / (w as int)),
            ),
            forall|j: int|
                0 <= j < k ==> #[trigger] sim.cells@[j] == (Lifetile {
                    curstate: computed[j].nextstate,
                    nextstate: computed[j].nextstate,
                }),
            forall|j: int| k <= j < n ==> #[trigger] sim.cells@[j] == computed[j],
        decreases n - k,
    {
        let c = sim.cells[k];
        sim.cells.set(k, Lifetile { curstate: c.nextstate, nextstate: c.nextstate });
        k = k + 1;
    }
    proof {
        assert(sim.cells@ =~= stepped_cells(orig, w as int, h as int));
    }
}

/// The positions carried by a sequence of block tiles.
pub open spec fn tile_positions(tiles: Seq<Tile>) -> Seq<Pos> {
    tiles.map_values(|t: Tile| t.pos)
}

/// The tile-quantized position lies on a w x h grid.
pub open spec fn pos_in_grid(w: int, h: int, p: Pos) -> bool {
    0 <= p.x < w && 0 <= p.y < h
}

/// The row-major cell index of an on-grid position.
pub open spec fn pos_index(w: int, p: Pos) -> int {
    p.y * w + p.x
}

/// Some listed position lies on the grid and maps to cell index `i`.
pub open spec fn seeds_index(ps: Seq<Pos>, w: int, h: int, i: int) -> bool {
    exists|j: int|
        0 <= j < ps.len() && pos_in_grid(w, h, #[trigger] ps[j]) && pos_index(w, ps[j]) == i
}

/// The freshly seeded cell at index `i`: Living exactly where some in-grid
/// listed position maps to `i`, Dead everywhere else; next states start equal
/// to current states.
pub open spec fn seeded_cell(ps: Seq<Pos>, w: int, h: int, i: int) -> Lifetile {
    if seeds_index(ps, w, h, i) {
        Lifetile { curstate: LifeType::Living, nextstate: LifeType::Living }
    } else {
        Lifetile { curstate: LifeType::Dead, nextstate: LifeType::Dead }
    }
}

/// The whole freshly seeded grid.
pub open spec fn seeded_cells(ps: Seq<Pos>, w: int, h: int) -> Seq<Lifetile> {
    Seq::new((w * h) as nat, |i: int| seeded_cell(ps, w, h, i))
}

/// The predicate selecting positions that fall outside a w x h grid.
pub open spec fn off_grid(w: int, h: int) -> spec_fn(Pos) -> bool {
    |p: Pos| !pos_in_grid(w, h, p)
}

/// The listed positions that fall outside the grid, in scan order.
pub open spec fn out_of_grid_positions(ps: Seq<Pos>, w: int, h: int) -> Seq<Pos> {
    ps.filter(off_grid(w, h))
}

/// Build the automaton from the current block tiles: every tile whose
/// position lies on the grid seeds a Living cell at its row-major index, all
/// remaining cells start Dead. Out-of-grid positions are skipped and handed
/// back for reporting; they are not fatal.
pub fn sim_from_tiles(tiles: &Vec<Tile>, width: usize, height: usize) -> (r: (Sim, Vec<Pos>))
    requires
        0 < width <= GRID_LIMIT,
        0 < height <= GRID_LIMIT,
    ensures
        sim_wf(r.0),
        r.0.width == width,
        r.0.height == height,
        r.0.timer == (Timer { elapsed_ms: 0, duration_ms: SIM_STEP_MS }),
        r.0.cells@ == seeded_cells(tile_positions(tiles@), width as int, height as int),
        r.1@ == out_of_grid_positions(tile_positions(tiles@), width as int, height as int),
{
    proof {
        assert(width * height <= 0x4000_0000) by (nonlinear_arith)
            requires
                width <= 0x8000,
                height <= 0x8000,
        ;
    }
    let total = width * height;
    let ghost wi = width as int;
    let ghost hi = height as int;
    let mut cells: Vec<Lifetile> = Vec::new();
    let mut f: usize = 0;
    while f < total
        invariant
            cells@.len() == f <= total,
            forall|i: int|
                0 <= i < f ==> #[trigger] cells@[i] == (Lifetile {
                    curstate: LifeType::Dead,
                    nextstate: LifeType::Dead,
                }),
        decreases total - f,
    {
        cells.push(Lifetile { curstate: LifeType::Dead, nextstate: LifeType::Dead });
        f = f + 1;
    }

    let ghost ps = tile_positions(tiles@);
    let mut rejected: Vec<Pos> = Vec::new();
    let n = tiles.len();
    let mut k: usize = 0;
    while k < n
        invariant
            n == tiles@.len(),
            ps == tile_positions(tiles@),
            ps.len() == n,
            cells@.len() == total,
            total == wi * hi,
            wi == width as int,
            hi == height as int,
            0 < width <= GRID_LIMIT,
            0 < height <= GRID_LIMIT,
            0 <= k <= n,
            forall|i: int|
                0 <= i < total ==> #[trigger] cells@[i] == seeded_cell(ps.take(k as int), wi, hi, i),
            rejected@ == out_of_grid_positions(ps.take(k as int), wi, hi),
        decreases n - k,
    {
        let p = tiles[k].pos;
        proof {
            assert(ps[k as int] == p);
            assert(ps.take(k as int + 1).drop_last() =~= ps.take(k as int));
            assert(ps.take(k as int + 1).last() == p);
        }
        if p.x >= 0 && p.y >= 0 && p.x < width as i64 && p.y < height as i64 {
            proof {
                lemma_index_in_range(wi, hi, p.x as int, p.y as int);
            }
            let idx = (p.y as usize) * width + (p.x as usize);
            cells.set(idx, Lifetile { curstate: LifeType::Living, nextstate: LifeType::Living });
            proof {
                let prev = ps.take(k as int);
                let now = ps.take(k as int + 1);
                assert forall|i: int| 0 <= i < total implies #[trigger] cells@[i] == seeded_cell(
                    now,
                    wi,
                    hi,
                    i,
                ) by {
                    if i == idx as int {
                        assert(pos_in_grid(wi, hi, now[k as int]) && pos_index(wi, now[k as int])
                            == i);
                        assert(seeds_index(now, wi, hi, i));
                    } else {
                        if seeds_index(prev, wi, hi, i) {
                            let j = choose|j: int|
                                0 <= j < prev.len() && pos_in_grid(wi, hi, #[trigger] prev[j])
                                    && pos_index(wi, prev[j]) == i;
                            assert(pos_in_grid(wi, hi, now[j]) && pos_index(wi, now[j]) == i);
                        }
                        if seeds_index(now, wi, hi, i) {
                            let j = choose|j: int|
                                0 <= j < now.len() && pos_in_grid(wi, hi, #[trigger] now[j])
                                    && pos_index(wi, now[j]) == i;
                            assert(j < prev.len());
                            assert(pos_in_grid(wi, hi, prev[j]) && pos_index(wi, prev[j]) == i);
                        }
                    }
                }
                assert(now =~= prev.push(p));
                prev.lemma_filter_push(p, off_grid(wi, hi));
                assert(rejected@ =~= out_of_grid_positions(now, wi, hi));
            }
        } else {
            rejected.push(p);
            proof {
                let prev = ps.take(k as int);
                let now = ps.take(k as int + 1);
                assert(!pos_in_grid(wi, hi, p));
                assert forall|i: int| 0 <= i < total implies #[trigger] cells@[i] == seeded_cell(
                    now,
                    wi,
                    hi,
                    i,
                ) by {
                    if seeds_index(prev, wi, hi, i) {
                        let j = choose|j: int|
                            0 <= j < prev.len() && pos_in_grid(wi, hi, #[trigger] prev[j])
                                && pos_index(wi, prev[j]) == i;
                        assert(pos_in_grid(wi, hi, now[j]) && pos_index(wi, now[j]) == i);
                    }
                    if seeds_index(now, wi, hi, i) {
                        let j = choose|j: int|
                            0 <= j < now.len() && pos_in_grid(wi, hi, #[trigger] now[j])
                                && pos_index(wi, now[j]) == i;
                        assert(j != k as int);
                        assert(pos_in_grid(wi, hi, prev[j]) && pos_index(wi, prev[j]) == i);
                    }
                }
                assert(now =~= prev.push(p));
                prev.lemma_filter_push(p, off_grid(wi, hi));
                assert(rejected@ =~= out_of_grid_positions(now, wi, hi));
            }
        }
        k = k + 1;
    }
    proof {
        assert(ps.take(n as int) =~= ps);
        assert(cells@ =~= seeded_cells(ps, wi, hi));
    }
    let sim = Sim { cells, width, height, timer: Timer::new(SIM_STEP_MS) };
    (sim, rejected)
}

/// The texture identifier the renderer should use for a cell in `state`.
pub fn texture_for(state: LifeType) -> (r: &'static str)
    ensures
        state is Living ==> r@ == "cell.png"@,
        state is Dead ==> r@ == "dead_cell.png"@,
{
    match state {
        LifeType::Living => "cell.png",
        LifeType::Dead => "dead_cell.png",
    }
}

/// One automaton frame: accumulate `dt_ms` on the repeating interval timer
/// and advance one generation when the interval elapses.
pub fn sim_frame(sim: &mut Sim, dt_ms: u64)
    requires
        sim_wf(*old(sim)),
    ensures
        sim_wf(*final(sim)),
        final(sim).width == old(sim).width,
        final(sim).height == old(sim).height,
        final(sim).timer == ticked_wrapping(old(sim).timer, dt_ms),
        fires(old(sim).timer, dt_ms) ==> final(sim).cells@ == stepped_cells(
            old(sim).cells@,
            old(sim).width as int,
            old(sim).height as int,
        ),
        !fires(old(sim).timer, dt_ms) ==> final(sim).cells@ == old(sim).cells@,
{
    let fired = sim.timer.tick_wrapping(dt_ms);
    if fired {
        life_step(sim);
    }
}

} // verus!
