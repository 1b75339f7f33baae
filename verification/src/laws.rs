//! Cross-cutting laws of the toy, proved against the spec models that the
//! executable functions are verified to implement.

use vstd::prelude::*;
use crate::grid::{Dir, Pos, Tile, forward, backward, can_move, lemma_backward_undoes_forward};
use crate::life::{Lifetile, LifeType, one_if, seeded_cells, seeded_cell, seeds_index, pos_in_grid,
    pos_index, lemma_index_in_range, lemma_pos_index_injective, lemma_coords_in_range, living_at,
    in_grid, neighbor_count, stepped_cells, tile_positions};
use vstd::arithmetic::div_mod::lemma_fundamental_div_mod_converse;
use crate::movement::{InputState, Player, movement_model, player_wf};
use crate::push::{back_resolved, pushed_tiles, push_tile};
use crate::timer::fires;
use crate::world::{puzzle_player_after};

verus! {

/// Round trip: from any player state, holding Up through the rest of one
/// step interval and then Down through a whole interval returns the player
/// to its original position.
pub proof fn lemma_up_down_round_trip(p: Player, i1: InputState, i2: InputState, dt1: u64, dt2: u64)
    requires
        player_wf(p),
        i1 == (InputState { up: true, down: false, left: false, right: false }),
        i2 == (InputState { up: false, down: true, left: false, right: false }),
        fires(p.movement_timer, dt1),
        dt2 >= p.movement_timer.duration_ms,
    ensures
        movement_model(movement_model(p, i1, dt1), i2, dt2).pos == p.pos,
{
}

/// Translation is atomic: a frame on which the step timer does not fire
/// leaves the position untouched, and a firing frame moves it by exactly one
/// whole tile along the newly committed direction (or not at all when none
/// is committed). No partial-tile movement is ever applied.
pub proof fn lemma_translation_atomic(p: Player, i: InputState, dt: u64)
    requires
        player_wf(p),
    ensures
        !fires(p.movement_timer, dt) ==> movement_model(p, i, dt).pos == p.pos,
        fires(p.movement_timer, dt) ==> movement_model(p, i, dt).pos == forward(
            p.pos,
            movement_model(p, i, dt).move_dir,
        ),
{
}

/// No immovable tile in the sequence stands on `ppos`, so the immovable pass
/// leaves the player where it is.
pub proof fn lemma_back_resolved_no_hit(ppos: Pos, d: Option<Dir>, tiles: Seq<Tile>)
    requires
        forall|k: int|
            0 <= k < tiles.len() && (#[trigger] tiles[k]).kind is Immovable ==> tiles[k].pos
                != ppos,
    ensures
        back_resolved(ppos, d, tiles) == ppos,
    decreases tiles.len(),
{
    if tiles.len() > 0 {
        assert forall|k: int|
            0 <= k < tiles.drop_first().len() && (#[trigger] tiles.drop_first()[k]).kind
                is Immovable implies tiles.drop_first()[k].pos != ppos by {
            assert(tiles.drop_first()[k] == tiles[k + 1]);
        }
        lemma_back_resolved_no_hit(ppos, d, tiles.drop_first());
    }
}

/// A push displaces the pushed tile, not the player: a movable tile standing
/// exactly where the player's step landed (no immovable sharing that cell)
/// moves one tile onward in the step's direction, while the player's own
/// position is left where the step put it.
pub proof fn lemma_push_displaces_movable(ppos: Pos, d: Option<Dir>, tiles: Seq<Tile>, j: int)
    requires
        0 <= j < tiles.len(),
        tiles[j].kind is Movable,
        tiles[j].pos == ppos,
        forall|k: int|
            0 <= k < tiles.len() && (#[trigger] tiles[k]).kind is Immovable ==> tiles[k].pos
                != ppos,
    ensures
        back_resolved(ppos, d, tiles) == ppos,
        pushed_tiles(tiles, ppos, d)[j] == (Tile { kind: tiles[j].kind, pos: forward(ppos, d) }),
{
    lemma_back_resolved_no_hit(ppos, d, tiles);
    assert(pushed_tiles(tiles, ppos, d)[j] == push_tile(tiles[j], ppos, d));
}

/// Generalized immovable-pass walk: starting from the stepped-onto cell (or
/// from the pre-step cell), given that no immovable tile stands on the
/// pre-step cell, the pass ends either back on the pre-step cell or still on
/// the stepped cell with no immovable tile there.
proof fn lemma_back_resolved_walk(p0: Pos, d: Option<Dir>, cur: Pos, tiles: Seq<Tile>)
    requires
        can_move(p0),
        cur == p0 || cur == forward(p0, d),
        forall|k: int|
            0 <= k < tiles.len() && (#[trigger] tiles[k]).kind is Immovable ==> tiles[k].pos != p0,
    ensures
        cur == p0 ==> back_resolved(cur, d, tiles) == p0,
        cur == forward(p0, d) ==> back_resolved(cur, d, tiles) == p0 || (back_resolved(
            cur,
            d,
            tiles,
        ) == forward(p0, d) && forall|k: int|
            0 <= k < tiles.len() && (#[trigger] tiles[k]).kind is Immovable ==> tiles[k].pos
                != forward(p0, d)),
    decreases tiles.len(),
{
    if tiles.len() > 0 {
        let rest = tiles.drop_first();
        assert forall|k: int|
            0 <= k < rest.len() && (#[trigger] rest[k]).kind is Immovable implies rest[k].pos
            != p0 by {
            assert(rest[k] == tiles[k + 1]);
        }
        let hit = tiles[0].kind is Immovable && tiles[0].pos == cur;
        if hit {
            assert(cur != p0);
            lemma_backward_undoes_forward(p0, d);
            assert(backward(cur, d) == p0);
            lemma_back_resolved_walk(p0, d, p0, rest);
        } else {
            lemma_back_resolved_walk(p0, d, cur, rest);
            if cur == forward(p0, d) && back_resolved(cur, d, rest) == forward(p0, d) {
                assert forall|k: int|
                    0 <= k < tiles.len() && (#[trigger] tiles[k]).kind is Immovable implies tiles[k].pos
                    != forward(p0, d) by {
                    if k > 0 {
                        assert(tiles[k] == rest[k - 1]);
                    }
                }
            }
        }
    }
}

/// After any step resolves, the player does not share a cell with any
/// immovable tile, provided it stood clear of them before the step.
pub proof fn lemma_resolved_clear_of_immovables(p0: Pos, d: Option<Dir>, tiles: Seq<Tile>)
    requires
        can_move(p0),
        forall|k: int|
            0 <= k < tiles.len() && (#[trigger] tiles[k]).kind is Immovable ==> tiles[k].pos != p0,
    ensures
        forall|k: int|
            0 <= k < tiles.len() && (#[trigger] tiles[k]).kind is Immovable ==> tiles[k].pos
                != back_resolved(forward(p0, d), d, tiles),
{
    lemma_back_resolved_walk(p0, d, forward(p0, d), tiles);
}

/// The same, at the level of a whole puzzle frame: whether or not the frame
/// committed a step, the resolved player position shares no cell with an
/// immovable tile.
pub proof fn lemma_frame_clear_of_immovables(
    p: Player,
    i: InputState,
    dt: u64,
    tiles: Seq<Tile>,
)
    requires
        player_wf(p),
        forall|k: int|
            0 <= k < tiles.len() && (#[trigger] tiles[k]).kind is Immovable ==> tiles[k].pos
                != p.pos,
    ensures
        forall|k: int|
            0 <= k < tiles.len() && (#[trigger] tiles[k]).kind is Immovable ==> tiles[k].pos
                != puzzle_player_after(p, i, dt, tiles).pos,
{
    let moved = movement_model(p, i, dt);
    if moved.pos == p.pos {
        lemma_back_resolved_walk(p.pos, moved.move_dir, p.pos, tiles);
    } else {
        assert(moved.pos == forward(p.pos, moved.move_dir));
        lemma_resolved_clear_of_immovables(p.pos, moved.move_dir, tiles);
    }
}

/// Number of Living cells in a grid's current generation.
pub open spec fn count_living(cells: Seq<Lifetile>) -> int
    decreases cells.len(),
{
    if cells.len() == 0 {
        0
    } else {
        count_living(cells.drop_last()) + one_if(cells.last().curstate is Living)
    }
}

/// Every cell is Living or Dead, so the Dead cells number the rest.
pub proof fn lemma_count_living_bounds(cells: Seq<Lifetile>)
    ensures
        0 <= count_living(cells) <= cells.len(),
    decreases cells.len(),
{
    if cells.len() > 0 {
        lemma_count_living_bounds(cells.drop_last());
    }
}

/// A grid with no Living cell counts zero.
proof fn lemma_count_no_living(cells: Seq<Lifetile>)
    requires
        forall|i: int| 0 <= i < cells.len() ==> !((#[trigger] cells[i]).curstate is Living),
    ensures
        count_living(cells) == 0,
    decreases cells.len(),
{
    if cells.len() > 0 {
        lemma_count_no_living(cells.drop_last());
    }
}

/// Changing one cell changes the Living count by exactly that cell's
/// contribution.
proof fn lemma_count_living_update(cells: Seq<Lifetile>, m: int, v: Lifetile)
    requires
        0 <= m < cells.len(),
    ensures
        count_living(cells.update(m, v)) == count_living(cells) - one_if(
            cells[m].curstate is Living,
        ) + one_if(v.curstate is Living),
    decreases cells.len(),
{
    let upd = cells.update(m, v);
    if m == cells.len() - 1 {
        assert(upd.drop_last() =~= cells.drop_last());
    } else {
        assert(upd.drop_last() =~= cells.drop_last().update(m, v));
        lemma_count_living_update(cells.drop_last(), m, v);
    }
}

/// Seeding the automaton from N distinct on-grid positions produces exactly N
/// Living cells; the other w * h - N cells are Dead.
pub proof fn lemma_seeded_living_count(ps: Seq<Pos>, w: int, h: int)
    requires
        0 < w,
        0 < h,
        forall|j: int| 0 <= j < ps.len() ==> pos_in_grid(w, h, #[trigger] ps[j]),
        forall|j: int, k: int| 0 <= j < k < ps.len() ==> ps[j] != ps[k],
    ensures
        count_living(seeded_cells(ps, w, h)) == ps.len(),
        seeded_cells(ps, w, h).len() == w * h,
    decreases ps.len(),
{
    if ps.len() == 0 {
        assert forall|i: int| 0 <= i < seeded_cells(ps, w, h).len() implies !((
        #[trigger] seeded_cells(ps, w, h)[i]).curstate is Living) by {
            assert(!seeds_index(ps, w, h, i));
        }
        lemma_count_no_living(seeded_cells(ps, w, h));
    } else {
        let rest = ps.drop_last();
        let p = ps.last();
        let idx = pos_index(w, p);
        lemma_index_in_range(w, h, p.x as int, p.y as int);
        lemma_seeded_living_count(rest, w, h);
        // The last position's cell is not seeded by any earlier position.
        assert(!seeds_index(rest, w, h, idx)) by {
            if seeds_index(rest, w, h, idx) {
                let j = choose|j: int|
                    0 <= j < rest.len() && pos_in_grid(w, h, #[trigger] rest[j]) && pos_index(
                        w,
                        rest[j],
                    ) == idx;
                lemma_pos_index_injective(w, h, rest[j], p);
            }
        }
        let living = Lifetile { curstate: LifeType::Living, nextstate: LifeType::Living };
        assert forall|i: int| 0 <= i < w * h implies seeded_cells(ps, w, h)[i] == seeded_cells(
            rest,
            w,
            h,
        ).update(idx, living)[i] by {
            if i == idx {
                assert(pos_in_grid(w, h, ps[ps.len() - 1]) && pos_index(w, ps[ps.len() - 1])
                    == i);
                assert(seeds_index(ps, w, h, i));
            } else {
                if seeds_index(rest, w, h, i) {
                    let j = choose|j: int|
                        0 <= j < rest.len() && pos_in_grid(w, h, #[trigger] rest[j]) && pos_index(
                            w,
                            rest[j],
                        ) == i;
                    assert(pos_in_grid(w, h, ps[j]) && pos_index(w, ps[j]) == i);
                }
                if seeds_index(ps, w, h, i) {
                    let j = choose|j: int|
                        0 <= j < ps.len() && pos_in_grid(w, h, #[trigger] ps[j]) && pos_index(
                            w,
                            ps[j],
                        ) == i;
                    assert(j != ps.len() - 1);
                    assert(pos_in_grid(w, h, rest[j]) && pos_index(w, rest[j]) == i);
                }
            }
        }
        assert(seeded_cells(ps, w, h) =~= seeded_cells(rest, w, h).update(idx, living));
        lemma_count_living_update(seeded_cells(rest, w, h), idx, living);
        assert(seeded_cells(rest, w, h)[idx] == seeded_cell(rest, w, h, idx));
    }
}

/// Entering life mode from a puzzle state with N block tiles, all on the
/// automaton grid and on distinct cells, seeds exactly N Living cells among
/// the w * h cells of the automaton; the remaining w * h - N are Dead.
pub proof fn lemma_entering_living_counts(tiles: Seq<Tile>, w: int, h: int)
    requires
        0 < w,
        0 < h,
        forall|j: int| 0 <= j < tiles.len() ==> pos_in_grid(w, h, (#[trigger] tiles[j]).pos),
        forall|j: int, k: int| 0 <= j < k < tiles.len() ==> tiles[j].pos != tiles[k].pos,
    ensures
        count_living(seeded_cells(tile_positions(tiles), w, h)) == tiles.len(),
        seeded_cells(tile_positions(tiles), w, h).len() == w * h,
{
    let ps = tile_positions(tiles);
    assert forall|j: int| 0 <= j < ps.len() implies pos_in_grid(w, h, #[trigger] ps[j]) by {
        assert(ps[j] == tiles[j].pos);
    }
    assert forall|j: int, k: int| 0 <= j < k < ps.len() implies ps[j] != ps[k] by {
        assert(ps[j] == tiles[j].pos && ps[k] == tiles[k].pos);
    }
    lemma_seeded_living_count(ps, w, h);
}

/// The grid whose Living cells are exactly those whose coordinates satisfy
/// `pred`; next states start equal to current states.
pub open spec fn grid_with(w: int, h: int, pred: spec_fn(int, int) -> bool) -> Seq<Lifetile> {
    Seq::new(
        (w * h) as nat,
        |i: int|
            if pred(i % w, i / w) {
                Lifetile { curstate: LifeType::Living, nextstate: LifeType::Living }
            } else {
                Lifetile { curstate: LifeType::Dead, nextstate: LifeType::Dead }
            },
    )
}

/// The 2x2 block of Living cells whose lower corner is (x, y).
pub open spec fn block_pred(x: int, y: int) -> spec_fn(int, int) -> bool {
    |cx: int, cy: int| x <= cx <= x + 1 && y <= cy <= y + 1
}

/// Three Living cells in a row, leftmost at (x, y).
pub open spec fn row3_pred(x: int, y: int) -> spec_fn(int, int) -> bool {
    |cx: int, cy: int| cy == y && x <= cx <= x + 2
}

/// Three Living cells in a column, lowest at (x, y).
pub open spec fn col3_pred(x: int, y: int) -> spec_fn(int, int) -> bool {
    |cx: int, cy: int| cx == x && y <= cy <= y + 2
}

/// In a `grid_with` grid, a cell is Living exactly where its coordinates are
/// on the grid and satisfy the predicate.
proof fn lemma_grid_with_at(w: int, h: int, pred: spec_fn(int, int) -> bool, x: int, y: int)
    requires
        0 < w,
        0 < h,
    ensures
        living_at(grid_with(w, h, pred), w, h, x, y) == (in_grid(w, h, x, y) && pred(x, y)),
{
    if in_grid(w, h, x, y) {
        lemma_index_in_range(w, h, x, y);
        lemma_fundamental_div_mod_converse(y * w + x, w, y, x);
    }
}

/// A 2x2 block of Living cells, everything else Dead, is a still life: one
/// generation leaves the grid unchanged.
pub proof fn lemma_block_still(w: int, h: int, x: int, y: int)
    requires
        0 <= x,
        x + 1 < w,
        0 <= y,
        y + 1 < h,
    ensures
        stepped_cells(grid_with(w, h, block_pred(x, y)), w, h) == grid_with(
            w,
            h,
            block_pred(x, y),
        ),
{
    let pred = block_pred(x, y);
    let g = grid_with(w, h, pred);
    assert forall|i: int| 0 <= i < w * h implies stepped_cells(g, w, h)[i] == g[i] by {
        lemma_coords_in_range(w, h, i);
        let cx = i % w;
        let cy = i / w;
        lemma_grid_with_at(w, h, pred, cx - 1, cy - 1);
        lemma_grid_with_at(w, h, pred, cx, cy - 1);
        lemma_grid_with_at(w, h, pred, cx + 1, cy - 1);
        lemma_grid_with_at(w, h, pred, cx - 1, cy);
        lemma_grid_with_at(w, h, pred, cx + 1, cy);
        lemma_grid_with_at(w, h, pred, cx - 1, cy + 1);
        lemma_grid_with_at(w, h, pred, cx, cy + 1);
        lemma_grid_with_at(w, h, pred, cx + 1, cy + 1);
        assert(neighbor_count(g, w, h, cx, cy) == one_if(
            in_grid(w, h, cx - 1, cy - 1) && pred(cx - 1, cy - 1),
        ) + one_if(in_grid(w, h, cx, cy - 1) && pred(cx, cy - 1)) + one_if(
            in_grid(w, h, cx + 1, cy - 1) && pred(cx + 1, cy - 1),
        ) + one_if(in_grid(w, h, cx - 1, cy) && pred(cx - 1, cy)) + one_if(
            in_grid(w, h, cx + 1, cy) && pred(cx + 1, cy),
        ) + one_if(in_grid(w, h, cx - 1, cy + 1) && pred(cx - 1, cy + 1)) + one_if(
            in_grid(w, h, cx, cy + 1) && pred(cx, cy + 1),
        ) + one_if(in_grid(w, h, cx + 1, cy + 1) && pred(cx + 1, cy + 1)));
    }
    assert(stepped_cells(g, w, h) =~= g);
}

/// Generations by iteration.
pub open spec fn stepped_n_cells(cells: Seq<Lifetile>, w: int, h: int, n: nat) -> Seq<Lifetile>
    decreases n,
{
    if n == 0 {
        cells
    } else {
        stepped_cells(stepped_n_cells(cells, w, h, (n - 1) as nat), w, h)
    }
}

/// The 2x2 block stays unchanged after any number of generations.
pub proof fn lemma_block_still_forever(w: int, h: int, x: int, y: int, n: nat)
    requires
        0 <= x,
        x + 1 < w,
        0 <= y,
        y + 1 < h,
    ensures
        stepped_n_cells(grid_with(w, h, block_pred(x, y)), w, h, n) == grid_with(
            w,
            h,
            block_pred(x, y),
        ),
    decreases n,
{
    if n > 0 {
        lemma_block_still_forever(w, h, x, y, (n - 1) as nat);
        lemma_block_still(w, h, x, y);
    }
}

/// A horizontal 3-cell blinker becomes the vertical one centered on its
/// middle cell, and that vertical blinker becomes the horizontal one again:
/// the blinker oscillates with period 2.
pub proof fn lemma_blinker_flips(w: int, h: int, x: int, y: int)
    requires
        0 <= x,
        x + 2 < w,
        1 <= y,
        y + 1 < h,
    ensures
        stepped_cells(grid_with(w, h, row3_pred(x, y)), w, h) == grid_with(
            w,
            h,
            col3_pred(x + 1, y - 1),
        ),
        stepped_cells(grid_with(w, h, col3_pred(x + 1, y - 1)), w, h) == grid_with(
            w,
            h,
            row3_pred(x, y),
        ),
{
    let hp = row3_pred(x, y);
    let vp = col3_pred(x + 1, y - 1);
    let gh = grid_with(w, h, hp);
    let gv = grid_with(w, h, vp);
    assert forall|i: int| 0 <= i < w * h implies stepped_cells(gh, w, h)[i] == gv[i] by {
        lemma_coords_in_range(w, h, i);
        let cx = i % w;
        let cy = i / w;
        lemma_grid_with_at(w, h, hp, cx - 1, cy - 1);
        lemma_grid_with_at(w, h, hp, cx, cy - 1);
        lemma_grid_with_at(w, h, hp, cx + 1, cy - 1);
        lemma_grid_with_at(w, h, hp, cx - 1, cy);
        lemma_grid_with_at(w, h, hp, cx + 1, cy);
        lemma_grid_with_at(w, h, hp, cx - 1, cy + 1);
        lemma_grid_with_at(w, h, hp, cx, cy + 1);
        lemma_grid_with_at(w, h, hp, cx + 1, cy + 1);
        assert(neighbor_count(gh, w, h, cx, cy) == one_if(
            in_grid(w, h, cx - 1, cy - 1) && hp(cx - 1, cy - 1),
        ) + one_if(in_grid(w, h, cx, cy - 1) && hp(cx, cy - 1)) + one_if(
            in_grid(w, h, cx + 1, cy - 1) && hp(cx + 1, cy - 1),
        ) + one_if(in_grid(w, h, cx - 1, cy) && hp(cx - 1, cy)) + one_if(
            in_grid(w, h, cx + 1, cy) && hp(cx + 1, cy),
        ) + one_if(in_grid(w, h, cx - 1, cy + 1) && hp(cx - 1, cy + 1)) + one_if(
            in_grid(w, h, cx, cy + 1) && hp(cx, cy + 1),
        ) + one_if(in_grid(w, h, cx + 1, cy + 1) && hp(cx + 1, cy + 1)));
    }
    assert(stepped_cells(gh, w, h) =~= gv);
    assert forall|i: int| 0 <= i < w * h implies stepped_cells(gv, w, h)[i] == gh[i] by {
        lemma_coords_in_range(w, h, i);
        let cx = i % w;
        let cy = i / w;
        lemma_grid_with_at(w, h, vp, cx - 1, cy - 1);
        lemma_grid_with_at(w, h, vp, cx, cy - 1);
        lemma_grid_with_at(w, h, vp, cx + 1, cy - 1);
        lemma_grid_with_at(w, h, vp, cx - 1, cy);
        lemma_grid_with_at(w, h, vp, cx + 1, cy);
        lemma_grid_with_at(w, h, vp, cx - 1, cy + 1);
        lemma_grid_with_at(w, h, vp, cx, cy + 1);
        lemma_grid_with_at(w, h, vp, cx + 1, cy + 1);
        assert(neighbor_count(gv, w, h, cx, cy) == one_if(
            in_grid(w, h, cx - 1, cy - 1) && vp(cx - 1, cy - 1),
        ) + one_if(in_grid(w, h, cx, cy - 1) && vp(cx, cy - 1)) + one_if(
            in_grid(w, h, cx + 1, cy - 1) && vp(cx + 1, cy - 1),
        ) + one_if(in_grid(w, h, cx - 1, cy) && vp(cx - 1, cy)) + one_if(
            in_grid(w, h, cx + 1, cy) && vp(cx + 1, cy),
        ) + one_if(in_grid(w, h, cx - 1, cy + 1) && vp(cx - 1, cy + 1)) + one_if(
            in_grid(w, h, cx, cy + 1) && vp(cx, cy + 1),
        ) + one_if(in_grid(w, h, cx + 1, cy + 1) && vp(cx + 1, cy + 1)));
    }
    assert(stepped_cells(gv, w, h) =~= gh);
}

/// Two generations return the blinker to its starting orientation.
pub proof fn lemma_blinker_period_two(w: int, h: int, x: int, y: int)
    requires
        0 <= x,
        x + 2 < w,
        1 <= y,
        y + 1 < h,
    ensures
        stepped_cells(stepped_cells(grid_with(w, h, row3_pred(x, y)), w, h), w, h) == grid_with(
            w,
            h,
            row3_pred(x, y),
        ),
{
    lemma_blinker_flips(w, h, x, y);
}

} // verus!
