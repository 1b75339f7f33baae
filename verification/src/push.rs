//! The push resolver: runs right after the movement controller each puzzle
//! frame. Every immovable tile overlapping the player pushes the player one
//! tile backward along its committed direction (undoing the step that caused
//! the overlap); every movable tile overlapping the resolved player position
//! is displaced one tile forward (a push).
//!
//! A displaced movable tile is deliberately not re-checked against other
//! tiles within the same frame, so a block can be pushed onto another block
//! or a wall; whether a push should validate its destination first is left
//! open here, and this resolver keeps the unchecked behaviour.

use vstd::prelude::*;
use crate::grid::{Dir, Pos, Tile, TileKind, forward, backward, in_area, step_forward,
    step_backward, COORD_LIMIT, MAX_TILES};

verus! {

/// Every tile position of the sequence lies in the play area.
pub open spec fn tiles_in_area(tiles: Seq<Tile>) -> bool {
    forall|j: int| 0 <= j < tiles.len() ==> in_area(#[trigger] tiles[j].pos)
}

/// The player position may stand one step outside the play area: the frame's
/// movement step can carry it one tile past the bound before resolution.
pub open spec fn in_stepped_area(p: Pos) -> bool {
    &&& -COORD_LIMIT - 1 <= p.x <= COORD_LIMIT + 1
    &&& -COORD_LIMIT - 1 <= p.y <= COORD_LIMIT + 1
}

/// The player position after the immovable pass: the tiles are scanned in
/// order, and each immovable one overlapping the player's position at that
/// moment displaces the player one tile backward along `d`.
pub open spec fn back_resolved(ppos: Pos, d: Option<Dir>, tiles: Seq<Tile>) -> Pos
    decreases tiles.len(),
{
    if tiles.len() == 0 {
        ppos
    } else {
        let hit = tiles[0].kind is Immovable && tiles[0].pos == ppos;
        let next = if hit {
            backward(ppos, d)
        } else {
            ppos
        };
        back_resolved(next, d, tiles.drop_first())
    }
}

/// The movable pass on one tile: a movable tile overlapping the resolved
/// player position moves one tile forward along `d`; every other tile stays.
pub open spec fn push_tile(t: Tile, ppos: Pos, d: Option<Dir>) -> Tile {
    if t.kind is Movable && t.pos == ppos {
        Tile { pos: forward(t.pos, d), ..t }
    } else {
        t
    }
}

/// The whole tile set after the movable pass against the resolved player
/// position.
pub open spec fn pushed_tiles(tiles: Seq<Tile>, ppos: Pos, d: Option<Dir>) -> Seq<Tile> {
    tiles.map_values(|t: Tile| push_tile(t, ppos, d))
}

/// Resolve the collisions of one puzzle frame: first push the player back out
/// of immovable tiles, then push overlapping movable tiles forward. All tiles
/// satisfying the overlap test are processed independently within the frame.
pub fn resolve_push(ppos: &mut Pos, d: Option<Dir>, tiles: &mut Vec<Tile>)
    requires
        in_stepped_area(*old(ppos)),
        old(tiles)@.len() <= MAX_TILES,
        tiles_in_area(old(tiles)@),
    ensures
        *final(ppos) == back_resolved(*old(ppos), d, old(tiles)@),
        final(tiles)@ == pushed_tiles(old(tiles)@, *final(ppos), d),
        final(tiles)@.len() == old(tiles)@.len(),
{
    let n = tiles.len();
    let ghost orig_tiles = tiles@;
    let ghost orig_ppos = *ppos;

    proof {
        assert(orig_tiles.skip(0) =~= orig_tiles);
    }
    let mut i: usize = 0;
    while i < n
        invariant
            n == orig_tiles.len() <= MAX_TILES,
            tiles@ == orig_tiles,
            tiles_in_area(orig_tiles),
            0 <= i <= n,
            -COORD_LIMIT - 1 - i <= ppos.x <= COORD_LIMIT + 1 + i,
            -COORD_LIMIT - 1 - i <= ppos.y <= COORD_LIMIT + 1 + i,
            back_resolved(orig_ppos, d, orig_tiles) == back_resolved(
                *ppos,
                d,
                orig_tiles.skip(i as int),
            ),
        decreases n - i,
    {
        let t = tiles[i];
        proof {
            assert(orig_tiles.skip(i as int)[0] == orig_tiles[i as int]);
            assert(orig_tiles.skip(i as int).drop_first() =~= orig_tiles.skip(i as int + 1));
        }
        if t.kind == TileKind::Immovable && t.pos.x == ppos.x && t.pos.y == ppos.y {
            *ppos = step_backward(*ppos, d);
        }
        i = i + 1;
    }

    let resolved = *ppos;
    let mut k: usize = 0;
    while k < n
        invariant
            n == orig_tiles.len(),
            tiles@.len() == n,
            tiles_in_area(orig_tiles),
            0 <= k <= n,
            forall|j: int| 0 <= j < k ==> tiles@[j] == push_tile(orig_tiles[j], resolved, d),
            forall|j: int| k <= j < n ==> tiles@[j] == orig_tiles[j],
        decreases n - k,
    {
        let t = tiles[k];
        if t.kind == TileKind::Movable && t.pos.x == resolved.x && t.pos.y == resolved.y {
            let moved = Tile { pos: step_forward(t.pos, d), ..t };
            tiles.set(k, moved);
        }
        k = k + 1;
    }
    proof {
        assert(tiles@ =~= pushed_tiles(orig_tiles, resolved, d));
    }
}

} // verus!
