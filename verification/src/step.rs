//! One tick of the simulation as a function of the grid and of the draws made
//! for its cells.
//!
//! A tick visits every cell once, column by column and, within a column, from
//! the top row down. Which rule a visit applies is decided by the material the
//! cell held when the tick began; what the rule reads and writes is the grid as
//! the earlier visits of the same tick have left it.

use vstd::prelude::*;
use crate::grid::{height_of, width_of};
use crate::rules::{direction_in_range, slide_in_range, visit};
use crate::tile::TileType;

verus! {

/// Whether `draws` holds, for every cell of `grid`, a direction and a slide
/// that the generator can produce. `draws[x][y]` belongs to the cell `(x, y)`.
pub open spec fn draws_fit(grid: Seq<Seq<TileType>>, draws: Seq<Seq<(int, int)>>) -> bool {
    &&& draws.len() == width_of(grid)
    &&& forall|x: int| 0 <= x < width_of(grid) ==> (#[trigger] draws[x]).len() == height_of(grid)
    &&& forall|x: int, y: int|
        0 <= x < width_of(grid) && 0 <= y < height_of(grid) ==> direction_in_range(
            (#[trigger] draws[x][y]).0,
        ) && slide_in_range(draws[x][y].1)
}

/// The grid after the first `rows` cells of column `x` have been visited,
/// starting from `grid`. `start` is the grid as the tick found it.
pub open spec fn scan_column(
    grid: Seq<Seq<TileType>>,
    start: Seq<Seq<TileType>>,
    x: int,
    draws: Seq<(int, int)>,
    rows: nat,
) -> Seq<Seq<TileType>>
    decreases rows,
{
    if rows == 0 {
        grid
    } else {
        let y = rows - 1;
        visit(
            scan_column(grid, start, x, draws, y as nat),
            start[x][y],
            x,
            y,
            draws[y].0,
            draws[y].1,
        )
    }
}

/// The grid after the first `columns` columns have been visited.
pub open spec fn scan_columns(
    start: Seq<Seq<TileType>>,
    draws: Seq<Seq<(int, int)>>,
    columns: nat,
) -> Seq<Seq<TileType>>
    decreases columns,
{
    if columns == 0 {
        start
    } else {
        let x = columns - 1;
        scan_column(
            scan_columns(start, draws, x as nat),
            start,
            x,
            draws[x],
            height_of(start) as nat,
        )
    }
}

/// The grid after one tick.
pub open spec fn step(start: Seq<Seq<TileType>>, draws: Seq<Seq<(int, int)>>) -> Seq<
    Seq<TileType>,
> {
    scan_columns(start, draws, width_of(start) as nat)
}

/// The grid after `ticks` ticks, the tick `i` made with the draws `draws[i]`.
pub open spec fn run(
    start: Seq<Seq<TileType>>,
    draws: Seq<Seq<Seq<(int, int)>>>,
    ticks: nat,
) -> Seq<Seq<TileType>>
    decreases ticks,
{
    if ticks == 0 {
        start
    } else {
        step(run(start, draws, (ticks - 1) as nat), draws[ticks - 1])
    }
}

/// How often `material` occurs in a column.
pub open spec fn count_in_column(column: Seq<TileType>, material: TileType) -> nat
    decreases column.len(),
{
    if column.len() == 0 {
        0
    } else {
        count_in_column(column.drop_last(), material) + if column.last() == material {
            1nat
        } else {
            0nat
        }
    }
}

/// How often `material` occurs in a grid.
pub open spec fn count_in_grid(grid: Seq<Seq<TileType>>, material: TileType) -> nat
    decreases grid.len(),
{
    if grid.len() == 0 {
        0
    } else {
        count_in_grid(grid.drop_last(), material) + count_in_column(grid.last(), material)
    }
}

/// Whether no cell of the grid holds sand or water.
pub open spec fn at_rest(grid: Seq<Seq<TileType>>) -> bool {
    forall|x: int, y: int|
        0 <= x < width_of(grid) && 0 <= y < height_of(grid) ==> !crate::tile::movable(
            #[trigger] grid[x][y],
        )
}

/// Whether every cell of the grid holds stone.
pub open spec fn full_of_stone(grid: Seq<Seq<TileType>>) -> bool {
    forall|x: int, y: int|
        0 <= x < width_of(grid) && 0 <= y < height_of(grid) ==> #[trigger] grid[x][y]
            == TileType::Stone
}

} // verus!
