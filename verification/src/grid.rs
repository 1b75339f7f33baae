//! Shared grid data model: directions, tile-quantized positions, and block
//! tiles with their movable/immovable tags.

use vstd::prelude::*;

verus! {

/// Horizontal and vertical play-area bound, in tile units. Keeping every
/// position well inside `i64` leaves room for a whole frame of single-tile
/// displacements without overflow.
pub const COORD_LIMIT: i64 = 0x1000_0000_0000;

/// Largest number of tiles a world may carry. Each overlapping immovable tile
/// can displace the player by one further tile within a frame, so this bound,
/// together with `COORD_LIMIT`, keeps push resolution inside `i64`.
pub const MAX_TILES: usize = 0x1000_0000;

/// A step direction. The player's committed direction may also be absent,
/// which is written `Option<Dir>`.
#[derive(Clone, Copy, PartialEq, Eq, Structural, Debug)]
pub enum Dir {
    Up,
    Down,
    Left,
    Right,
}

/// A tile-quantized position: coordinates count whole tiles. Two grid entities
/// are within one tile size of each other (Euclidean distance strictly under
/// one tile) exactly when their positions are equal, so overlap tests below
/// are equality tests.
#[derive(Clone, Copy, PartialEq, Eq, Structural, Debug)]
pub struct Pos {
    pub x: i64,
    pub y: i64,
}

/// The mutually exclusive tag on a block tile: pushed along by the player, or
/// blocking the player's step.
#[derive(Clone, Copy, PartialEq, Eq, Structural, Debug)]
pub enum TileKind {
    Movable,
    Immovable,
}

/// A block entity on the grid.
#[derive(Clone, Copy, PartialEq, Eq, Structural, Debug)]
pub struct Tile {
    pub kind: TileKind,
    pub pos: Pos,
}

/// The position lies inside the bounded play area.
pub open spec fn in_area(p: Pos) -> bool {
    &&& -COORD_LIMIT <= p.x <= COORD_LIMIT
    &&& -COORD_LIMIT <= p.y <= COORD_LIMIT
}

/// Both coordinates leave room for one more single-tile displacement.
pub open spec fn can_move(p: Pos) -> bool {
    &&& i64::MIN < p.x < i64::MAX
    &&& i64::MIN < p.y < i64::MAX
}

/// The x coordinate after one tile of forward travel in `d`.
pub open spec fn forward_x(p: Pos, d: Option<Dir>) -> int {
    match d {
        Some(Dir::Left) => p.x - 1,
        Some(Dir::Right) => p.x + 1,
        _ => p.x as int,
    }
}

/// The y coordinate after one tile of forward travel in `d`
/// (up is +y, down is -y).
pub open spec fn forward_y(p: Pos, d: Option<Dir>) -> int {
    match d {
        Some(Dir::Up) => p.y + 1,
        Some(Dir::Down) => p.y - 1,
        _ => p.y as int,
    }
}

/// The position one tile forward of `p` along `d`; `p` itself when no
/// direction is committed.
pub open spec fn forward(p: Pos, d: Option<Dir>) -> Pos {
    Pos { x: forward_x(p, d) as i64, y: forward_y(p, d) as i64 }
}

/// The position one tile backward of `p` along `d`: the displacement that
/// undoes a forward step.
pub open spec fn backward(p: Pos, d: Option<Dir>) -> Pos {
    match d {
        Some(Dir::Up) => Pos { x: p.x, y: (p.y - 1) as i64 },
        Some(Dir::Down) => Pos { x: p.x, y: (p.y + 1) as i64 },
        Some(Dir::Left) => Pos { x: (p.x + 1) as i64, y: p.y },
        Some(Dir::Right) => Pos { x: (p.x - 1) as i64, y: p.y },
        None => p,
    }
}

/// Stepping forward and then backward along the same direction returns to the
/// start.
pub proof fn lemma_backward_undoes_forward(p: Pos, d: Option<Dir>)
    requires
        can_move(p),
    ensures
        backward(forward(p, d), d) == p,
{
}

/// Translate `p` one tile forward along `d`.
pub fn step_forward(p: Pos, d: Option<Dir>) -> (q: Pos)
    requires
        can_move(p),
    ensures
        q == forward(p, d),
{
    match d {
        Some(Dir::Up) => Pos { x: p.x, y: p.y + 1 },
        Some(Dir::Down) => Pos { x: p.x, y: p.y - 1 },
        Some(Dir::Left) => Pos { x: p.x - 1, y: p.y },
        Some(Dir::Right) => Pos { x: p.x + 1, y: p.y },
        None => p,
    }
}

/// Translate `p` one tile backward along `d`, undoing a forward step.
pub fn step_backward(p: Pos, d: Option<Dir>) -> (q: Pos)
    requires
        can_move(p),
    ensures
        q == backward(p, d),
{
    match d {
        Some(Dir::Up) => Pos { x: p.x, y: p.y - 1 },
        Some(Dir::Down) => Pos { x: p.x, y: p.y + 1 },
        Some(Dir::Left) => Pos { x: p.x + 1, y: p.y },
        Some(Dir::Right) => Pos { x: p.x - 1, y: p.y },
        None => p,
    }
}

} // verus!
