//! The level loader's schema: a line-oriented map description in which only
//! odd column positions are significant; a `#` there puts a movable tile at
//! grid x = column / 2, y = row. Reading the map text from its source is the
//! host's business; this module derives tile positions from the rows.

use vstd::prelude::*;
use crate::grid::Pos;

verus! {

/// Bound on map rows and row length, so that derived coordinates stay far
/// inside `i64`.
pub const MAX_MAP_DIM: usize = 0x10000;

/// The tile positions of one map row `y`: a `#` at odd column `c` yields
/// grid position (c / 2, y); every other character is ignored, as are all
/// even columns.
pub open spec fn row_tiles(row: Seq<char>, y: int) -> Seq<Pos>
    decreases row.len(),
{
    if row.len() == 0 {
        Seq::empty()
    } else {
        let c = row.len() - 1;
        row_tiles(row.drop_last(), y) + (if c % 2 == 1 && row.last() == '#' {
            seq![Pos { x: (c / 2) as i64, y: y as i64 }]
        } else {
            Seq::empty()
        })
    }
}

/// The tile positions of a whole map, rows scanned top to bottom, the row
/// index increasing downward.
pub open spec fn level_tiles(rows: Seq<Seq<char>>) -> Seq<Pos>
    decreases rows.len(),
{
    if rows.len() == 0 {
        Seq::empty()
    } else {
        level_tiles(rows.drop_last()) + row_tiles(rows.last(), rows.len() - 1)
    }
}

/// Derive the movable-tile positions from a map's rows of characters.
pub fn parse_level(rows: &Vec<Vec<char>>) -> (tiles: Vec<Pos>)
    requires
        rows@.len() <= MAX_MAP_DIM,
        forall|r: int| 0 <= r < rows@.len() ==> #[trigger] rows@[r]@.len() <= MAX_MAP_DIM,
    ensures
        tiles@ == level_tiles(rows.deep_view()),
{
    let ghost deep = rows.deep_view();
    proof {
        assert(deep.len() == rows@.len());
        assert forall|r: int| 0 <= r < deep.len() implies #[trigger] deep[r].len() == rows@[r]@.len() by {
            assert(deep[r] =~= rows@[r]@);
        }
    }
    let mut tiles: Vec<Pos> = Vec::new();
    let nrows = rows.len();
    let mut r: usize = 0;
    while r < nrows
        invariant
            deep == rows.deep_view(),
            nrows == deep.len() <= MAX_MAP_DIM,
            forall|q: int| 0 <= q < deep.len() ==> #[trigger] deep[q] == rows@[q]@,
            forall|q: int| 0 <= q < deep.len() ==> #[trigger] deep[q].len() <= MAX_MAP_DIM,
            0 <= r <= nrows,
            tiles@ == level_tiles(deep.take(r as int)),
        decreases nrows - r,
    {
        let row = &rows[r];
        let ncols = row.len();
        proof {
            assert(deep[r as int] == rows@[r as int]@);
            assert(deep[r as int].len() <= MAX_MAP_DIM);
        }
        let mut c: usize = 0;
        while c < ncols
            invariant
                deep == rows.deep_view(),
                nrows == deep.len() <= MAX_MAP_DIM,
                forall|q: int| 0 <= q < deep.len() ==> #[trigger] deep[q] == rows@[q]@,
                forall|q: int| 0 <= q < deep.len() ==> #[trigger] deep[q].len() <= MAX_MAP_DIM,
                r < nrows,
                row == &rows@[r as int],
                ncols == row@.len() <= MAX_MAP_DIM,
                0 <= c <= ncols,
                tiles@ == level_tiles(deep.take(r as int)) + row_tiles(
                    deep[r as int].take(c as int),
                    r as int,
                ),
            decreases ncols - c,
        {
            proof {
                let prefix = deep[r as int].take(c as int + 1);
                assert(prefix.drop_last() =~= deep[r as int].take(c as int));
                assert(prefix.last() == deep[r as int][c as int]);
            }
            if c % 2 == 1 && row[c] == '#' {
                let p = Pos { x: (c / 2) as i64, y: r as i64 };
                tiles.push(p);
            }
            c = c + 1;
        }
        proof {
            assert(deep[r as int].take(ncols as int) =~= deep[r as int]);
            let prefix = deep.take(r as int + 1);
            assert(prefix.drop_last() =~= deep.take(r as int));
            assert(prefix.last() == deep[r as int]);
        }
        r = r + 1;
    }
    proof {
        assert(deep.take(nrows as int) =~= deep);
    }
    tiles
}

} // verus!
